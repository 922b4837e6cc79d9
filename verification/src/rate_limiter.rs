//! Admission control per source address: a token bucket for request rate
//! (fixed-window refill) and a counter for concurrent connections.
//!
//! A source address is modelled as an integer (an IP address fits in
//! `u128`). Time enters as an explicit millisecond clock value, so every
//! decision is a pure function of the state, the clock and the
//! configuration, stated by `request_step`, `connection_step` and
//! `release_step`.

use vstd::prelude::*;

verus! {

/// Rate limit configuration.
#[derive(Debug, Clone, Copy, PartialEq, Eq, Structural)]
pub struct RateLimitConfig {
    /// Maximum number of requests allowed in the window.
    pub max_requests: u32,
    /// Window length, in milliseconds.
    pub window_ms: u64,
    /// Maximum concurrent connections per source.
    pub max_connections: u32,
}

impl Default for RateLimitConfig {
    /// Sixty requests per one-minute window, five connections.
    fn default() -> (r: Self)
        ensures
            r.max_requests == 60,
            r.window_ms == 60000,
            r.max_connections == 5,
    {
        RateLimitConfig { max_requests: 60, window_ms: 60000, max_connections: 5 }
    }
}

/// The state kept for one source address.
#[derive(Debug, Clone, Copy, PartialEq, Eq, Structural)]
pub struct RateEntry {
    /// The source address.
    pub src: u128,
    /// Request tokens still available in the current window.
    pub tokens: u32,
    /// When the tokens were last replenished.
    pub last_refill_ms: u64,
    /// Open connections.
    pub active_connections: u32,
}

/// Milliseconds from `last` to `now`, zero if the clock moved backwards.
pub open spec fn elapsed(last: u64, now: u64) -> int {
    if now >= last {
        now - last
    } else {
        0
    }
}

/// The state a source starts with: a full bucket and no connections.
pub open spec fn fresh_entry(src: u128, now: u64, cfg: RateLimitConfig) -> RateEntry {
    RateEntry { src, tokens: cfg.max_requests, last_refill_ms: now, active_connections: 0 }
}

/// Fixed-window refill: once a full window has elapsed, the bucket
/// returns to the maximum and the refill clock resets.
pub open spec fn refill(e: RateEntry, now: u64, cfg: RateLimitConfig) -> RateEntry {
    if elapsed(e.last_refill_ms, now) >= cfg.window_ms {
        RateEntry {
            src: e.src,
            tokens: cfg.max_requests,
            last_refill_ms: now,
            active_connections: e.active_connections,
        }
    } else {
        e
    }
}

/// One request check: refill if the window elapsed (a missing source
/// starts fresh), then admit and take a token exactly when one is left.
pub open spec fn request_step(st: Option<RateEntry>, src: u128, now: u64, cfg: RateLimitConfig) -> (
    RateEntry,
    bool,
) {
    let cur = match st {
        Option::Some(e) => refill(e, now, cfg),
        Option::None => fresh_entry(src, now, cfg),
    };
    if cur.tokens > 0 {
        (
            RateEntry {
                src: cur.src,
                tokens: (cur.tokens - 1) as u32,
                last_refill_ms: cur.last_refill_ms,
                active_connections: cur.active_connections,
            },
            true,
        )
    } else {
        (cur, false)
    }
}

/// One connection check: admit and count exactly when the source is
/// under the connection ceiling; a missing source starts fresh.
pub open spec fn connection_step(
    st: Option<RateEntry>,
    src: u128,
    now: u64,
    cfg: RateLimitConfig,
) -> (RateEntry, bool) {
    let cur = match st {
        Option::Some(e) => e,
        Option::None => fresh_entry(src, now, cfg),
    };
    if cur.active_connections < cfg.max_connections {
        (
            RateEntry {
                src: cur.src,
                tokens: cur.tokens,
                last_refill_ms: cur.last_refill_ms,
                active_connections: (cur.active_connections + 1) as u32,
            },
            true,
        )
    } else {
        (cur, false)
    }
}

/// One release: the connection count decrements, floored at zero; a
/// source with no state stays absent.
pub open spec fn release_step(st: Option<RateEntry>) -> Option<RateEntry> {
    match st {
        Option::None => Option::None,
        Option::Some(e) => Option::Some(
            RateEntry {
                src: e.src,
                tokens: e.tokens,
                last_refill_ms: e.last_refill_ms,
                active_connections: if e.active_connections > 0 {
                    (e.active_connections - 1) as u32
                } else {
                    0
                },
            },
        ),
    }
}

/// Whether a cleanup sweep at `now` keeps an entry: it has open
/// connections or was refilled more recently than the threshold.
pub open spec fn keep_on_cleanup(e: RateEntry, now: u64, threshold_ms: u64) -> bool {
    e.active_connections > 0 || elapsed(e.last_refill_ms, now) < threshold_ms
}

/// The entries a cleanup sweep keeps, in order.
pub open spec fn cleanup_filter(entries: Seq<RateEntry>, now: u64, threshold_ms: u64) -> Seq<
    RateEntry,
>
    decreases entries.len(),
{
    if entries.len() == 0 {
        Seq::empty()
    } else if keep_on_cleanup(entries.last(), now, threshold_ms) {
        cleanup_filter(entries.drop_last(), now, threshold_ms).push(entries.last())
    } else {
        cleanup_filter(entries.drop_last(), now, threshold_ms)
    }
}

/// The state tracked for a source: the first entry with that address.
pub open spec fn entry_for(entries: Seq<RateEntry>, src: u128) -> Option<RateEntry>
    decreases entries.len(),
{
    if entries.len() == 0 {
        Option::None
    } else if entries[0].src == src {
        Option::Some(entries[0])
    } else {
        entry_for(entries.drop_first(), src)
    }
}

/// All tracked sources are distinct.
pub open spec fn distinct_sources(entries: Seq<RateEntry>) -> bool {
    forall|i: int, j: int|
        0 <= i < j < entries.len() ==> entries[i].src != entries[j].src
}

/// Sum of open connections over all entries.
pub open spec fn total_connections(entries: Seq<RateEntry>) -> int
    decreases entries.len(),
{
    if entries.len() == 0 {
        0
    } else {
        total_connections(entries.drop_last()) + entries.last().active_connections
    }
}

proof fn lemma_entry_for_none(entries: Seq<RateEntry>, src: u128)
    ensures
        (entry_for(entries, src) is None) <==> (forall|j: int|
            0 <= j < entries.len() ==> entries[j].src != src),
    decreases entries.len(),
{
    if entries.len() > 0 {
        lemma_entry_for_none(entries.drop_first(), src);
        assert(forall|j: int|
            0 <= j < entries.drop_first().len() ==> #[trigger] entries.drop_first()[j]
                == entries[j + 1]);
        if entries[0].src != src && (forall|j: int|
            0 <= j < entries.drop_first().len() ==> entries.drop_first()[j].src != src) {
            assert forall|j: int| 0 <= j < entries.len() implies entries[j].src != src by {
                if j > 0 {
                    assert(entries.drop_first()[j - 1] == entries[j]);
                }
            }
        }
    }
}

proof fn lemma_entry_for_update(entries: Seq<RateEntry>, i: int, e: RateEntry)
    requires
        distinct_sources(entries),
        0 <= i < entries.len(),
        e.src == entries[i].src,
    ensures
        distinct_sources(entries.update(i, e)),
        entry_for(entries.update(i, e), e.src) == Option::Some(e),
        forall|s: u128|
            s != e.src ==> entry_for(entries.update(i, e), s) == entry_for(entries, s),
    decreases entries.len(),
{
    let up = entries.update(i, e);
    assert(forall|k: int| 0 <= k < entries.len() ==> up[k].src == entries[k].src);
    if i == 0 {
        assert(up[0] == e);
        assert(up.drop_first() =~= entries.drop_first());
    } else {
        assert(up[0] == entries[0]);
        assert(up.drop_first() =~= entries.drop_first().update(i - 1, e));
        assert(entries.drop_first()[i - 1] == entries[i]);
        lemma_entry_for_update(entries.drop_first(), i - 1, e);
        assert(entries[0].src != entries[i].src);
    }
    assert forall|s: u128| s != e.src implies entry_for(up, s) == entry_for(entries, s) by {
        if i == 0 {
            assert(up.drop_first() =~= entries.drop_first());
            assert(up[0].src == e.src);
            assert(entry_for(up, s) == entry_for(up.drop_first(), s));
            assert(entry_for(entries, s) == entry_for(entries.drop_first(), s));
        } else {
            assert(up.drop_first() =~= entries.drop_first().update(i - 1, e));
            if s == entries[0].src {
                assert(entry_for(up, s) == Option::Some(up[0]));
                assert(entry_for(entries, s) == Option::Some(entries[0]));
            } else {
                assert(entry_for(up, s) == entry_for(up.drop_first(), s));
                assert(entry_for(up.drop_first(), s) == entry_for(entries.drop_first(), s));
                assert(entry_for(entries, s) == entry_for(entries.drop_first(), s));
            }
        }
    }
}

proof fn lemma_entry_for_push(entries: Seq<RateEntry>, e: RateEntry)
    requires
        distinct_sources(entries),
        entry_for(entries, e.src) is None,
    ensures
        distinct_sources(entries.push(e)),
        entry_for(entries.push(e), e.src) == Option::Some(e),
        forall|s: u128| s != e.src ==> entry_for(entries.push(e), s) == entry_for(entries, s),
    decreases entries.len(),
{
    lemma_entry_for_none(entries, e.src);
    let up = entries.push(e);
    assert(forall|k: int| 0 <= k < entries.len() ==> up[k] == entries[k]);
    assert(up[entries.len() as int] == e);
    if entries.len() == 0 {
        assert(up[0] == e);
        assert(up.drop_first() =~= Seq::<RateEntry>::empty());
    } else {
        assert(up[0] == entries[0]);
        assert(up.drop_first() =~= entries.drop_first().push(e));
        lemma_entry_for_push(entries.drop_first(), e);
    }
    assert forall|s: u128| s != e.src implies entry_for(up, s) == entry_for(entries, s) by {
        if entries.len() == 0 {
            assert(up.drop_first() =~= Seq::<RateEntry>::empty());
            assert(entry_for(up, s) == entry_for(up.drop_first(), s));
        } else {
            assert(up.drop_first() =~= entries.drop_first().push(e));
            if s == entries[0].src {
                assert(up[0] == entries[0]);
                assert(entry_for(up, s) == Option::Some(up[0]));
                assert(entry_for(entries, s) == Option::Some(entries[0]));
            } else {
                assert(entry_for(up, s) == entry_for(up.drop_first(), s));
                assert(entry_for(up.drop_first(), s) == entry_for(entries.drop_first(), s));
                assert(entry_for(entries, s) == entry_for(entries.drop_first(), s));
            }
        }
    }
}

/// Admission control per source address: a token bucket and a
/// connection counter, keyed by source.
#[derive(Debug)]
pub struct RateLimiter {
    config: RateLimitConfig,
    entries: Vec<RateEntry>,
}

impl RateLimiter {
    /// The configured limits.
    pub closed spec fn spec_config(self) -> RateLimitConfig {
        self.config
    }

    /// The state tracked for a source.
    pub closed spec fn state_of(self, src: u128) -> Option<RateEntry> {
        entry_for(self.entries@, src)
    }

    /// The tracked entries, in insertion order.
    pub closed spec fn entries_view(self) -> Seq<RateEntry> {
        self.entries@
    }

    /// Well-formed: one entry per source, every bucket within the
    /// request budget and every counter within the connection ceiling.
    pub closed spec fn wf(self) -> bool {
        &&& distinct_sources(self.entries@)
        &&& forall|k: int|
            0 <= k < self.entries@.len() ==> (#[trigger] self.entries@[k]).tokens
                <= self.config.max_requests && self.entries@[k].active_connections
                <= self.config.max_connections
    }

    /// A new rate limiter with the given configuration and no tracked
    /// sources.
    pub fn new(config: RateLimitConfig) -> (r: Self)
        ensures
            r.wf(),
            r.spec_config() == config,
            r.entries_view() == Seq::<RateEntry>::empty(),
            (forall|s: u128| r.state_of(s) is None),
    {
        let r = RateLimiter { config, entries: Vec::new() };
        proof {
            assert forall|s: u128| r.state_of(s) is None by {
                lemma_entry_for_none(r.entries@, s);
            }
        }
        r
    }

    /// A rate limiter with the default configuration.
    pub fn default_config() -> (r: Self)
        ensures
            r.wf(),
            r.spec_config() == (RateLimitConfig { max_requests: 60, window_ms: 60000, max_connections: 5 }),
            r.entries_view() == Seq::<RateEntry>::empty(),
            (forall|s: u128| r.state_of(s) is None),
    {
        Self::new(RateLimitConfig::default())
    }

    fn find_entry_index(&self, src: u128) -> (r: Option<usize>)
        ensures
            match r {
                Option::Some(i) => i < self.entries@.len() && self.entries@[i as int].src == src
                    && entry_for(self.entries@, src) == Option::Some(self.entries@[i as int]),
                Option::None => entry_for(self.entries@, src) is None,
            },
    {
        let mut i: usize = 0;
        proof {
            assert(self.entries@.skip(0) =~= self.entries@);
        }
        while i < self.entries.len()
            invariant
                i <= self.entries@.len(),
                entry_for(self.entries@, src) == entry_for(self.entries@.skip(i as int), src),
                forall|j: int| 0 <= j < i ==> self.entries@[j].src != src,
            decreases self.entries@.len() - i,
        {
            proof {
                assert(self.entries@.skip(i as int).drop_first() =~= self.entries@.skip(
                    i + 1 as int,
                ));
            }
            if self.entries[i].src == src {
                return Some(i);
            }
            i += 1;
        }
        None
    }

    /// Checks whether a request from the source is admitted: the bucket
    /// is refilled once the window has elapsed, then a token is taken
    /// exactly when one is available. The decision and the new state are
    /// exactly `request_step`; other sources are untouched.
    pub fn check_request(&mut self, src: u128, now_ms: u64) -> (allowed: bool)
        requires
            old(self).wf(),
        ensures
            final(self).wf(),
            final(self).spec_config() == old(self).spec_config(),
            ({
                let step = request_step(
                    old(self).state_of(src),
                    src,
                    now_ms,
                    old(self).spec_config(),
                );
                allowed == step.1 && final(self).state_of(src) == Option::Some(step.0)
            }),
            forall|s: u128| s != src ==> final(self).state_of(s) == old(self).state_of(s),
    {
        let cfg = self.config;
        match self.find_entry_index(src) {
            Some(i) => {
                let mut e = self.entries[i];
                let gap: u64 = if now_ms >= e.last_refill_ms {
                    now_ms - e.last_refill_ms
                } else {
                    0
                };
                if gap >= cfg.window_ms {
                    e.tokens = cfg.max_requests;
                    e.last_refill_ms = now_ms;
                }
                let allowed = e.tokens > 0;
                if allowed {
                    e.tokens = e.tokens - 1;
                }
                proof {
                    lemma_entry_for_update(self.entries@, i as int, e);
                }
                self.entries[i] = e;
                allowed
            },
            None => {
                let mut e = RateEntry {
                    src,
                    tokens: cfg.max_requests,
                    last_refill_ms: now_ms,
                    active_connections: 0,
                };
                let allowed = e.tokens > 0;
                if allowed {
                    e.tokens = e.tokens - 1;
                }
                proof {
                    lemma_entry_for_push(self.entries@, e);
                }
                self.entries.push(e);
                allowed
            },
        }
    }

    /// Checks whether a new connection from the source is admitted:
    /// admitted and counted exactly when the source is under the
    /// connection ceiling. The decision and the new state are exactly
    /// `connection_step`; other sources are untouched.
    pub fn check_connection(&mut self, src: u128, now_ms: u64) -> (allowed: bool)
        requires
            old(self).wf(),
        ensures
            final(self).wf(),
            final(self).spec_config() == old(self).spec_config(),
            ({
                let step = connection_step(
                    old(self).state_of(src),
                    src,
                    now_ms,
                    old(self).spec_config(),
                );
                allowed == step.1 && final(self).state_of(src) == Option::Some(step.0)
            }),
            forall|s: u128| s != src ==> final(self).state_of(s) == old(self).state_of(s),
    {
        let cfg = self.config;
        match self.find_entry_index(src) {
            Some(i) => {
                let mut e = self.entries[i];
                let allowed = e.active_connections < cfg.max_connections;
                if allowed {
                    e.active_connections = e.active_connections + 1;
                }
                proof {
                    lemma_entry_for_update(self.entries@, i as int, e);
                }
                self.entries[i] = e;
                allowed
            },
            None => {
                let mut e = RateEntry {
                    src,
                    tokens: cfg.max_requests,
                    last_refill_ms: now_ms,
                    active_connections: 0,
                };
                let allowed = e.active_connections < cfg.max_connections;
                if allowed {
                    e.active_connections = e.active_connections + 1;
                }
                proof {
                    lemma_entry_for_push(self.entries@, e);
                }
                self.entries.push(e);
                allowed
            },
        }
    }

    /// Releases one connection slot for the source: the count
    /// decrements, floored at zero, exactly as `release_step` says; a
    /// source with no state stays absent, and other sources are
    /// untouched.
    pub fn release_connection(&mut self, src: u128)
        requires
            old(self).wf(),
        ensures
            final(self).wf(),
            final(self).spec_config() == old(self).spec_config(),
            final(self).state_of(src) == release_step(old(self).state_of(src)),
            forall|s: u128| s != src ==> final(self).state_of(s) == old(self).state_of(s),
    {
        match self.find_entry_index(src) {
            Some(i) => {
                let mut e = self.entries[i];
                if e.active_connections > 0 {
                    e.active_connections = e.active_connections - 1;
                }
                proof {
                    lemma_entry_for_update(self.entries@, i as int, e);
                }
                self.entries[i] = e;
            },
            None => {},
        }
    }
}

proof fn lemma_cleanup_filter_membership(entries: Seq<RateEntry>, now: u64, threshold_ms: u64)
    ensures
        forall|k: int|
            0 <= k < cleanup_filter(entries, now, threshold_ms).len() ==> exists|j: int|
                0 <= j < entries.len() && #[trigger] cleanup_filter(entries, now, threshold_ms)[k]
                    == entries[j],
    decreases entries.len(),
{
    if entries.len() > 0 {
        lemma_cleanup_filter_membership(entries.drop_last(), now, threshold_ms);
        let cf = cleanup_filter(entries, now, threshold_ms);
        let cfd = cleanup_filter(entries.drop_last(), now, threshold_ms);
        assert forall|k: int| 0 <= k < cf.len() implies exists|j: int|
            0 <= j < entries.len() && #[trigger] cf[k] == entries[j] by {
            if k < cfd.len() {
                let j = choose|j: int| 0 <= j < entries.drop_last().len() && cfd[k]
                    == entries.drop_last()[j];
                assert(entries.drop_last()[j] == entries[j]);
                assert(cf[k] == cfd[k]);
                assert(cf[k] == entries[j]);
            } else {
                assert(keep_on_cleanup(entries.last(), now, threshold_ms));
                assert(cf[k] == entries[entries.len() - 1]);
            }
        }
    }
}

proof fn lemma_cleanup_filter_distinct(entries: Seq<RateEntry>, now: u64, threshold_ms: u64)
    requires
        distinct_sources(entries),
    ensures
        distinct_sources(cleanup_filter(entries, now, threshold_ms)),
    decreases entries.len(),
{
    if entries.len() > 0 {
        assert(forall|k: int|
            0 <= k < entries.drop_last().len() ==> #[trigger] entries.drop_last()[k]
                == entries[k]);
        lemma_cleanup_filter_distinct(entries.drop_last(), now, threshold_ms);
        lemma_cleanup_filter_membership(entries.drop_last(), now, threshold_ms);
        let cf = cleanup_filter(entries, now, threshold_ms);
        let cfd = cleanup_filter(entries.drop_last(), now, threshold_ms);
        if keep_on_cleanup(entries.last(), now, threshold_ms) {
            assert forall|i: int, j: int| 0 <= i < j < cf.len() implies cf[i].src != cf[j].src by {
                if j < cfd.len() {
                } else {
                    assert(cf[j] == entries[entries.len() - 1]);
                    let m = choose|m: int| 0 <= m < entries.drop_last().len() && cfd[i]
                        == entries.drop_last()[m];
                    assert(cf[i] == entries[m]);
                    assert(entries[m].src != entries[entries.len() - 1].src);
                }
            }
        }
    }
}

impl RateLimiter {
    /// Removes idle entries: an entry survives the sweep exactly when it
    /// still has open connections or was refilled more recently than the
    /// threshold, and the survivors keep their order and state.
    pub fn cleanup(&mut self, now_ms: u64, threshold_ms: u64)
        requires
            old(self).wf(),
        ensures
            final(self).wf(),
            final(self).spec_config() == old(self).spec_config(),
            final(self).entries_view() == cleanup_filter(
                old(self).entries_view(),
                now_ms,
                threshold_ms,
            ),
    {
        let n = self.entries.len();
        let mut kept: Vec<RateEntry> = Vec::new();
        let mut i: usize = 0;
        proof {
            assert(kept@ =~= cleanup_filter(self.entries@.take(0), now_ms, threshold_ms));
        }
        while i < n
            invariant
                i <= n,
                n == self.entries@.len(),
                kept@ == cleanup_filter(self.entries@.take(i as int), now_ms, threshold_ms),
            decreases n - i,
        {
            let e = self.entries[i];
            proof {
                assert(self.entries@.take(i + 1 as int).drop_last() =~= self.entries@.take(
                    i as int,
                ));
                assert(self.entries@.take(i + 1 as int).last() == e);
            }
            let keep = e.active_connections > 0 || ({
                let gap: u64 = if now_ms >= e.last_refill_ms {
                    now_ms - e.last_refill_ms
                } else {
                    0
                };
                gap < threshold_ms
            });
            if keep {
                kept.push(e);
            }
            i += 1;
        }
        proof {
            assert(self.entries@.take(n as int) =~= self.entries@);
            lemma_cleanup_filter_distinct(self.entries@, now_ms, threshold_ms);
            lemma_cleanup_filter_membership(self.entries@, now_ms, threshold_ms);
            let cf = cleanup_filter(self.entries@, now_ms, threshold_ms);
            assert forall|k: int|
                0 <= k < cf.len() implies (#[trigger] cf[k]).tokens <= self.config.max_requests
                    && cf[k].active_connections <= self.config.max_connections by {
                let j = choose|j: int| 0 <= j < self.entries@.len() && cf[k] == self.entries@[j];
                assert(self.entries@[j].tokens <= self.config.max_requests);
            }
        }
        self.entries = kept;
    }

    /// Current statistics: the number of tracked sources and the total
    /// of open connections over all of them (saturating at the counter's
    /// maximum).
    pub fn get_stats(&self) -> (r: RateLimitStats)
        ensures
            r.tracked_ips == self.entries_view().len(),
            r.total_active_connections == if total_connections(self.entries_view()) <= u64::MAX {
                total_connections(self.entries_view())
            } else {
                u64::MAX as int
            },
    {
        let n = self.entries.len();
        let mut total: u64 = 0;
        let mut i: usize = 0;
        proof {
            assert(self.entries@.take(0) =~= Seq::<RateEntry>::empty());
        }
        while i < n
            invariant
                i <= n,
                n == self.entries@.len(),
                total == if total_connections(self.entries@.take(i as int)) <= u64::MAX {
                    total_connections(self.entries@.take(i as int))
                } else {
                    u64::MAX as int
                },
            decreases n - i,
        {
            let e = self.entries[i];
            proof {
                assert(self.entries@.take(i + 1 as int).drop_last() =~= self.entries@.take(
                    i as int,
                ));
                assert(self.entries@.take(i + 1 as int).last() == e);
                lemma_total_connections_nonneg(self.entries@.take(i as int));
            }
            let cu: u64 = e.active_connections as u64;
            if total > u64::MAX - cu {
                total = u64::MAX;
            } else {
                total = total + cu;
            }
            i += 1;
        }
        proof {
            assert(self.entries@.take(n as int) =~= self.entries@);
        }
        RateLimitStats { tracked_ips: n, total_active_connections: total }
    }
}

proof fn lemma_total_connections_nonneg(entries: Seq<RateEntry>)
    ensures
        total_connections(entries) >= 0,
    decreases entries.len(),
{
    if entries.len() > 0 {
        lemma_total_connections_nonneg(entries.drop_last());
    }
}

/// Rate limiter statistics for monitoring.
#[derive(Debug, Clone, Copy, PartialEq, Eq, Structural)]
pub struct RateLimitStats {
    /// Number of source addresses being tracked.
    pub tracked_ips: usize,
    /// Total open connections across all sources.
    pub total_active_connections: u64,
}

/// Fixed-window refill law: once a full window has elapsed since the
/// last refill, a request check resets the bucket to the maximum and
/// admits, whatever the old token count, and the refill clock moves to
/// the check's time. A budget of zero is the one configuration where
/// this fails: the refill restores zero tokens and the check refuses.
pub proof fn lemma_window_replenish(e: RateEntry, src: u128, now: u64, cfg: RateLimitConfig)
    requires
        cfg.max_requests >= 1,
        elapsed(e.last_refill_ms, now) >= cfg.window_ms,
    ensures
        ({
            let s = request_step(Option::Some(e), src, now, cfg);
            s.1 && s.0.tokens == cfg.max_requests - 1 && s.0.last_refill_ms == now
        }),
{
}

/// Token-bucket law: with a budget of three requests per window, a fresh
/// source is admitted exactly three times before the window elapses, the
/// fourth check is refused, and a check after a full window is admitted
/// again with the budget replenished.
pub proof fn lemma_token_bucket(
    cfg: RateLimitConfig,
    src: u128,
    t0: u64,
    t1: u64,
    t2: u64,
    t3: u64,
    t4: u64,
)
    requires
        cfg.max_requests == 3,
        t0 <= t1 <= t2 <= t3,
        elapsed(t0, t3) < cfg.window_ms,
        elapsed(t0, t4) >= cfg.window_ms,
    ensures
        ({
            let s1 = request_step(Option::None, src, t0, cfg);
            let s2 = request_step(Option::Some(s1.0), src, t1, cfg);
            let s3 = request_step(Option::Some(s2.0), src, t2, cfg);
            let s4 = request_step(Option::Some(s3.0), src, t3, cfg);
            let s5 = request_step(Option::Some(s4.0), src, t4, cfg);
            &&& s1.1 && s2.1 && s3.1
            &&& !s4.1
            &&& s5.1
            &&& s5.0.tokens == cfg.max_requests - 1
        }),
{
}

/// Connection-admission law: with a ceiling of two, a fresh source gets
/// two admissions, the third is refused, and after one release exactly
/// one more is admitted.
pub proof fn lemma_connection_admission(cfg: RateLimitConfig, src: u128, now: u64)
    requires
        cfg.max_connections == 2,
    ensures
        ({
            let c1 = connection_step(Option::None, src, now, cfg);
            let c2 = connection_step(Option::Some(c1.0), src, now, cfg);
            let c3 = connection_step(Option::Some(c2.0), src, now, cfg);
            let rel = release_step(Option::Some(c3.0));
            let c4 = connection_step(rel, src, now, cfg);
            let c5 = connection_step(Option::Some(c4.0), src, now, cfg);
            &&& c1.1 && c2.1
            &&& !c3.1
            &&& c4.1
            &&& !c5.1
        }),
{
}

} // verus!
