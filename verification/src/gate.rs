//! Gating logic for the event-distribution surface: admission of new
//! subscriber connections (rate limit, connection ceiling, API key) and
//! the validate-shape-encrypt pipeline a record passes before broadcast.
//!
//! A record with any security finding is dropped and never reaches the
//! broadcast stage. When encryption of a field fails at runtime, that
//! field is dropped from the payload (fail closed) rather than sent in
//! plaintext.

use vstd::prelude::*;
use crate::audit::AuditEventType;
use crate::audit::AuditLogEntry;
use crate::audit::AuditLogger;
use crate::audit::AuditSeverity;
use crate::audit::auth_success_message;
use crate::audit::local_source;
use crate::config::SecurityConfig;
use crate::config::OutputConfig;
use crate::config::field_enabled;
use crate::config::field_encrypted;
use crate::config::key_valid;
use crate::config::output_name;
use crate::crypto::CryptoService;
use crate::crypto::aead_open;
use crate::crypto::aead_seal;
use crate::decoder::ThaiIDData;
use crate::encoding::b64_of;
use crate::rate_limiter::RateEntry;
use crate::rate_limiter::RateLimitConfig;
use crate::rate_limiter::RateLimiter;
use crate::rate_limiter::connection_step;
use crate::rate_limiter::request_step;
use crate::audit::validation_failure_message;
use crate::validation::CardDataValidator;
use crate::validation::FindingClass;
use crate::validation::ValidationError;
use crate::validation::any_security;
use crate::validation::class_name;
use crate::validation::expected_findings;
use crate::validation::findings_view;
use crate::rate_limiter::release_step;
use crate::text::chars_of;

verus! {

/// The outcome of one admission check.
#[derive(Debug, Clone, Copy, PartialEq, Eq, Structural)]
pub enum AdmissionDecision {
    /// Admitted: the connection may be established.
    Granted,
    /// Refused: the request-rate budget is exhausted.
    TooManyRequests,
    /// Refused: the source is at its connection ceiling.
    TooManyConnections,
    /// Refused: authentication is required and the key is missing or
    /// invalid.
    Unauthorized,
}

/// The authentication part of admission: always granted when
/// authentication is off; otherwise the presented key must be valid, and
/// a missing key is refused.
pub open spec fn auth_decision(sec: SecurityConfig, api_key: Option<Seq<char>>) -> AdmissionDecision {
    if !sec.enable_authentication {
        AdmissionDecision::Granted
    } else {
        match api_key {
            Option::None => AdmissionDecision::Unauthorized,
            Option::Some(k) => if key_valid(sec, k) {
                AdmissionDecision::Granted
            } else {
                AdmissionDecision::Unauthorized
            },
        }
    }
}

/// The whole admission rule and its effect on the source's rate-limit
/// state: when rate limiting is on, first the request check, then the
/// connection check, then authentication — and a refused authentication
/// releases the connection slot its check counted, so bad keys do not
/// exhaust the connection ceiling; when rate limiting is off, only
/// authentication runs and the state is untouched.
pub open spec fn admission_spec(
    sec: SecurityConfig,
    st0: Option<RateEntry>,
    cfg: RateLimitConfig,
    src: u128,
    now: u64,
    api_key: Option<Seq<char>>,
) -> (AdmissionDecision, Option<RateEntry>) {
    if sec.enable_rate_limiting {
        let rs = request_step(st0, src, now, cfg);
        if !rs.1 {
            (AdmissionDecision::TooManyRequests, Option::Some(rs.0))
        } else {
            let cs = connection_step(Option::Some(rs.0), src, now, cfg);
            if !cs.1 {
                (AdmissionDecision::TooManyConnections, Option::Some(cs.0))
            } else {
                let d = auth_decision(sec, api_key);
                if d == AdmissionDecision::Unauthorized {
                    (d, release_step(Option::Some(cs.0)))
                } else {
                    (d, Option::Some(cs.0))
                }
            }
        }
    } else {
        (auth_decision(sec, api_key), st0)
    }
}

/// The view of an optional key.
pub open spec fn key_view(api_key: Option<&str>) -> Option<Seq<char>> {
    match api_key {
        Option::None => Option::None,
        Option::Some(k) => Option::Some(k@),
    }
}

/// The key hint quoted in a successful authentication's audit message:
/// at most the first four characters.
pub open spec fn key_hint(k: Seq<char>) -> Seq<char> {
    if k.len() >= 4 {
        k.take(4)
    } else {
        k
    }
}

/// Evaluates one subscriber connection attempt: the decision and the
/// rate-limit effect are exactly `admission_spec` (in particular, a
/// refused authentication releases the connection slot it counted),
/// other sources are untouched, and the audit entries record the outcome
/// (nothing when audit logging is off).
pub fn evaluate_admission(
    security: &SecurityConfig,
    audit: &AuditLogger,
    limiter: &mut RateLimiter,
    src: u128,
    now_ms: u64,
    api_key: Option<&str>,
) -> (r: (AdmissionDecision, Vec<AuditLogEntry>))
    requires
        old(limiter).wf(),
    ensures
        final(limiter).wf(),
        final(limiter).spec_config() == old(limiter).spec_config(),
        ({
            let spec = admission_spec(
                *security,
                old(limiter).state_of(src),
                old(limiter).spec_config(),
                src,
                now_ms,
                key_view(api_key),
            );
            r.0 == spec.0 && final(limiter).state_of(src) == spec.1
        }),
        forall|s: u128| s != src ==> final(limiter).state_of(s) == old(limiter).state_of(s),
        !audit.is_enabled() ==> r.1@.len() == 0,
        audit.is_enabled() ==> match r.0 {
            AdmissionDecision::TooManyRequests => r.1@.len() == 1 && r.1@[0].event_type
                == AuditEventType::RateLimit && r.1@[0].client_ip == src && r.1@[0].message@
                == "request"@ + " rate limit exceeded"@,
            AdmissionDecision::TooManyConnections => r.1@.len() == 1 && r.1@[0].event_type
                == AuditEventType::RateLimit && r.1@[0].client_ip == src && r.1@[0].message@
                == "connection"@ + " rate limit exceeded"@,
            AdmissionDecision::Unauthorized => r.1@.len() == 1 && r.1@[0].event_type
                == AuditEventType::Authentication && r.1@[0].severity == AuditSeverity::Warning
                && r.1@[0].client_ip == src && r.1@[0].action@ == "auth_failure"@
                && r.1@[0].message@ == "Authentication failed: "@ + (if key_view(
                api_key,
            ) is None {
                "No API key provided"@
            } else {
                "Invalid API key"@
            }),
            AdmissionDecision::Granted => {
                if security.enable_authentication {
                    &&& r.1@.len() == 2
                    &&& r.1@[0].event_type == AuditEventType::Authentication
                    &&& r.1@[0].severity == AuditSeverity::Info
                    &&& (key_view(api_key) matches Option::Some(k) && r.1@[0].message@
                        == auth_success_message(Option::Some(key_hint(k))))
                    &&& r.1@[1].event_type == AuditEventType::Connection
                    &&& r.1@[1].action@ == "connection_open"@
                } else {
                    r.1@.len() == 1 && r.1@[0].event_type == AuditEventType::Connection
                        && r.1@[0].action@ == "connection_open"@ && r.1@[0].client_ip == src
                }
            },
        },
{
    let mut entries: Vec<AuditLogEntry> = Vec::new();
    if security.enable_rate_limiting {
        let req_ok = limiter.check_request(src, now_ms);
        if !req_ok {
            if let Some(e) = audit.log_rate_limit(src, "request", now_ms) {
                entries.push(e);
            }
            return (AdmissionDecision::TooManyRequests, entries);
        }
        let conn_ok = limiter.check_connection(src, now_ms);
        if !conn_ok {
            if let Some(e) = audit.log_rate_limit(src, "connection", now_ms) {
                entries.push(e);
            }
            return (AdmissionDecision::TooManyConnections, entries);
        }
    }
    if security.enable_authentication {
        match api_key {
            None => {
                if security.enable_rate_limiting {
                    limiter.release_connection(src);
                }
                if let Some(e) = audit.log_auth_failure(src, "No API key provided", now_ms) {
                    entries.push(e);
                }
                return (AdmissionDecision::Unauthorized, entries);
            },
            Some(key) => {
                if !security.is_valid_key(key) {
                    if security.enable_rate_limiting {
                        limiter.release_connection(src);
                    }
                    if let Some(e) = audit.log_auth_failure(src, "Invalid API key", now_ms) {
                        entries.push(e);
                    }
                    return (AdmissionDecision::Unauthorized, entries);
                }
                let kv = chars_of(key);
                let hint_len: usize = if kv.len() >= 4 {
                    4
                } else {
                    kv.len()
                };
                let mut hint_chars: Vec<char> = Vec::new();
                let mut i: usize = 0;
                while i < hint_len
                    invariant
                        i <= hint_len,
                        hint_len <= kv@.len(),
                        kv@ == key@,
                        hint_chars@ == key@.subrange(0, i as int),
                    decreases hint_len - i,
                {
                    let c = kv[i];
                    hint_chars.push(c);
                    proof {
                        assert(key@.subrange(0, i + 1 as int) =~= key@.subrange(0, i as int).push(
                            c,
                        ));
                    }
                    i += 1;
                }
                let hint = crate::text::string_from_chars(&hint_chars);
                proof {
                    assert(hint@ =~= key_hint(key@));
                }
                if let Some(e) = audit.log_auth_success(src, Some(hint.as_str()), now_ms) {
                    entries.push(e);
                }
            },
        }
    }
    if let Some(e) = audit.log_connection_open(src, now_ms) {
        entries.push(e);
    }
    (AdmissionDecision::Granted, entries)
}

/// The views of a vector of name/value pairs.
pub open spec fn pair_views(ps: Seq<(String, String)>) -> Seq<(Seq<char>, Seq<char>)> {
    ps.map_values(|p: (String, String)| (p.0@, p.1@))
}

/// The record's fields in output order, under their original names.
pub open spec fn record_fields(data: ThaiIDData) -> Seq<(Seq<char>, Seq<char>)> {
    seq![
        ("Citizenid"@, data.citizen_id@),
        ("Th_Prefix"@, data.th_prefix@),
        ("Th_Firstname"@, data.th_firstname@),
        ("Th_Middlename"@, data.th_middlename@),
        ("Th_Lastname"@, data.th_lastname@),
        ("full_name_en"@, data.full_name_en@),
        ("Birthday"@, data.birthday@),
        ("Sex"@, data.sex@),
        ("card_issuer"@, data.card_issuer@),
        ("issue_date"@, data.issue_date@),
        ("expire_date"@, data.expire_date@),
        ("Address"@, data.address@),
        ("addrHouseNo"@, data.addr_house_no@),
        ("addrVillageNo"@, data.addr_village_no@),
        ("addrTambol"@, data.addr_tambol@),
        ("addrAmphur"@, data.addr_amphur@),
    ]
}

/// Fields kept by the output configuration, each renamed to its output
/// name, in order.
pub open spec fn shape(fields: Seq<(Seq<char>, Seq<char>)>, out: OutputConfig) -> Seq<
    (Seq<char>, Seq<char>),
>
    decreases fields.len(),
{
    if fields.len() == 0 {
        Seq::empty()
    } else {
        let rest = shape(fields.drop_first(), out);
        if field_enabled(out, fields[0].0) {
            seq![(output_name(out, fields[0].0), fields[0].1)] + rest
        } else {
            rest
        }
    }
}

/// The shaped output of a record: the enabled fields under their output
/// names, with the photo appended when it is both enabled and included.
pub open spec fn shaped_fields(data: ThaiIDData, out: OutputConfig) -> Seq<
    (Seq<char>, Seq<char>),
> {
    shape(record_fields(data), out) + if out.include_photo && field_enabled(out, "PhotoRaw"@) {
        seq![(output_name(out, "PhotoRaw"@), data.photo@)]
    } else {
        Seq::empty()
    }
}

/// Applies the output configuration to a record: the enabled fields in
/// order, renamed per the field mapping, with the photo handled last
/// under its inclusion flag — exactly `shaped_fields`.
pub fn apply_output_config(data: &ThaiIDData, config: &OutputConfig) -> (r: Vec<(String, String)>)
    ensures
        pair_views(r@) == shaped_fields(*data, *config),
{
    let mut fields: Vec<(String, String)> = Vec::new();
    fields.push((String::from_str("Citizenid"), data.citizen_id.clone()));
    fields.push((String::from_str("Th_Prefix"), data.th_prefix.clone()));
    fields.push((String::from_str("Th_Firstname"), data.th_firstname.clone()));
    fields.push((String::from_str("Th_Middlename"), data.th_middlename.clone()));
    fields.push((String::from_str("Th_Lastname"), data.th_lastname.clone()));
    fields.push((String::from_str("full_name_en"), data.full_name_en.clone()));
    fields.push((String::from_str("Birthday"), data.birthday.clone()));
    fields.push((String::from_str("Sex"), data.sex.clone()));
    fields.push((String::from_str("card_issuer"), data.card_issuer.clone()));
    fields.push((String::from_str("issue_date"), data.issue_date.clone()));
    fields.push((String::from_str("expire_date"), data.expire_date.clone()));
    fields.push((String::from_str("Address"), data.address.clone()));
    fields.push((String::from_str("addrHouseNo"), data.addr_house_no.clone()));
    fields.push((String::from_str("addrVillageNo"), data.addr_village_no.clone()));
    fields.push((String::from_str("addrTambol"), data.addr_tambol.clone()));
    fields.push((String::from_str("addrAmphur"), data.addr_amphur.clone()));
    proof {
        assert(pair_views(fields@) =~= record_fields(*data));
    }
    let ghost fviews = record_fields(*data);
    let n = fields.len();
    let mut result: Vec<(String, String)> = Vec::new();
    let mut i: usize = 0;
    proof {
        assert(fviews.skip(0) =~= fviews);
        assert(pair_views(result@) =~= Seq::<(Seq<char>, Seq<char>)>::empty());
    }
    while i < n
        invariant
            i <= n,
            n == fields@.len(),
            pair_views(fields@) == fviews,
            fviews == record_fields(*data),
            shape(fviews, *config) == pair_views(result@) + shape(fviews.skip(i as int), *config),
        decreases n - i,
    {
        proof {
            assert(fviews.skip(i as int).drop_first() =~= fviews.skip(i + 1 as int));
            assert(fviews.skip(i as int)[0] == fviews[i as int]);
            assert(fviews[i as int] == (fields@[i as int].0@, fields@[i as int].1@));
        }
        let name = &fields[i].0;
        let value = &fields[i].1;
        if config.is_field_enabled(name.as_str()) {
            let out_name = config.get_field_name(name.as_str());
            let ghost before = result@;
            result.push((out_name, value.clone()));
            proof {
                assert(pair_views(result@) =~= pair_views(before) + seq![
                    (output_name(*config, name@), value@),
                ]);
                assert(pair_views(before) + (seq![(output_name(*config, name@), value@)] + shape(
                    fviews.skip(i + 1 as int),
                    *config,
                )) =~= pair_views(result@) + shape(fviews.skip(i + 1 as int), *config));
            }
        }
        i += 1;
    }
    proof {
        assert(fviews.skip(n as int) =~= Seq::<(Seq<char>, Seq<char>)>::empty());
        assert(pair_views(result@) + shape(fviews.skip(n as int), *config) =~= pair_views(
            result@,
        ));
    }
    if config.include_photo && config.is_field_enabled("PhotoRaw") {
        let out_name = config.get_field_name("PhotoRaw");
        let ghost before = result@;
        result.push((out_name, data.photo.clone()));
        proof {
            assert(pair_views(result@) =~= pair_views(before) + seq![
                (output_name(*config, "PhotoRaw"@), data.photo@),
            ]);
        }
    } else {
        proof {
            assert(pair_views(result@) =~= shape(record_fields(*data), *config) + Seq::<
                (Seq<char>, Seq<char>),
            >::empty());
        }
    }
    result
}

/// The key held by an optional encryption service.
pub open spec fn service_key(crypto: Option<&CryptoService>) -> Option<Seq<u8>> {
    match crypto {
        Option::Some(c) => Option::Some(c.key_view()),
        Option::None => Option::None,
    }
}

/// How an encrypted payload relates to the shaped fields, pair by pair:
/// a field not selected for encryption (or with no service available)
/// passes through unchanged; a selected field either becomes the base64
/// of a fresh twelve-byte nonce and its sealing — which opens back to
/// the original value — or, when encryption failed, is dropped entirely
/// rather than sent in plaintext.
pub open spec fn encrypted_pairs_ok(
    key: Option<Seq<u8>>,
    sec: SecurityConfig,
    input: Seq<(Seq<char>, Seq<char>)>,
    output: Seq<(Seq<char>, Seq<char>)>,
) -> bool
    decreases input.len(),
{
    if input.len() == 0 {
        output.len() == 0
    } else {
        let n = input[0].0;
        let v = input[0].1;
        if field_encrypted(sec, n) && key is Some {
            ||| encrypted_pairs_ok(key, sec, input.drop_first(), output)
            ||| (output.len() > 0 && output[0].0 == n && (exists|nonce: Seq<u8>|
                nonce.len() == 12 && output[0].1 == b64_of(
                    nonce + aead_seal(key->0, nonce, v),
                ) && aead_open(key->0, nonce, aead_seal(key->0, nonce, v)) == Option::Some(v))
                && encrypted_pairs_ok(key, sec, input.drop_first(), output.drop_first()))
        } else {
            output.len() > 0 && output[0] == input[0] && encrypted_pairs_ok(
                key,
                sec,
                input.drop_first(),
                output.drop_first(),
            )
        }
    }
}

fn encrypt_pairs_from(
    pairs: &Vec<(String, String)>,
    i: usize,
    security: &SecurityConfig,
    crypto: Option<&CryptoService>,
) -> (r: Vec<(String, String)>)
    requires
        i <= pairs@.len(),
        crypto matches Option::Some(c) ==> c.wf(),
    ensures
        encrypted_pairs_ok(
            service_key(crypto),
            *security,
            pair_views(pairs@).skip(i as int),
            pair_views(r@),
        ),
    decreases pairs@.len() - i,
{
    if i == pairs.len() {
        let r: Vec<(String, String)> = Vec::new();
        proof {
            assert(pair_views(pairs@).skip(i as int) =~= Seq::<(Seq<char>, Seq<char>)>::empty());
            assert(pair_views(r@) =~= Seq::<(Seq<char>, Seq<char>)>::empty());
        }
        return r;
    }
    let mut rest = encrypt_pairs_from(pairs, i + 1, security, crypto);
    let name = &pairs[i].0;
    let value = &pairs[i].1;
    proof {
        assert(pair_views(pairs@).skip(i as int).drop_first() =~= pair_views(pairs@).skip(
            i + 1 as int,
        ));
        assert(pair_views(pairs@).skip(i as int)[0] == (name@, value@));
    }
    let encrypt_this = security.should_encrypt_field(name.as_str());
    let ghost rest_view = pair_views(rest@);
    match crypto {
        Some(service) if encrypt_this => {
            match service.encrypt_to_base64(value.as_str()) {
                Ok(encrypted) => {
                    let mut out: Vec<(String, String)> = Vec::new();
                    out.push((name.clone(), encrypted));
                    out.append(&mut rest);
                    proof {
                        assert(pair_views(out@) =~= seq![(name@, encrypted@)] + rest_view);
                        assert(pair_views(out@).drop_first() =~= rest_view);
                    }
                    out
                },
                Err(_) => {
                    // Fail closed: the field is dropped, never sent in
                    // plaintext.
                    rest
                },
            }
        },
        _ => {
            let mut out: Vec<(String, String)> = Vec::new();
            out.push((name.clone(), value.clone()));
            out.append(&mut rest);
            proof {
                assert(pair_views(out@) =~= seq![(name@, value@)] + rest_view);
                assert(pair_views(out@).drop_first() =~= rest_view);
            }
            out
        },
    }
}

/// The native-script name assembled for validation: the four components
/// joined by single spaces.
pub open spec fn name_joined(data: ThaiIDData) -> Seq<char> {
    data.th_prefix@ + seq![' '] + data.th_firstname@ + seq![' '] + data.th_middlename@ + seq![' ']
        + data.th_lastname@
}

/// The validation findings of a whole record, under the field views the
/// pipeline presents to the validators.
pub open spec fn record_findings(data: ThaiIDData) -> Seq<(Seq<char>, FindingClass, Seq<char>)> {
    expected_findings(
        Option::Some(data.citizen_id@),
        Option::Some(data.birthday@),
        Option::Some(data.issue_date@),
        Option::Some(data.expire_date@),
        Option::Some(data.sex@),
        Option::Some(name_joined(data)),
        Option::Some(data.full_name_en@),
        Option::Some(data.address@),
    )
}

/// Processes one read record for broadcast: every field is validated and
/// each finding audited; a record with any security finding is dropped —
/// it never reaches the broadcast payload — and otherwise the payload is
/// the shaped fields with the selected ones encrypted (or dropped when
/// encryption fails: fail closed).
pub fn process_inserted(
    data: &ThaiIDData,
    output: &OutputConfig,
    security: &SecurityConfig,
    crypto: Option<&CryptoService>,
    audit: &AuditLogger,
    now_ms: u64,
) -> (r: (Option<Vec<(String, String)>>, Vec<AuditLogEntry>))
    requires
        crypto matches Option::Some(c) ==> c.wf(),
    ensures
        (r.0 is None) <==> any_security(record_findings(*data)),
        r.0 matches Some(pairs) ==> encrypted_pairs_ok(
            service_key(crypto),
            *security,
            shaped_fields(*data, *output),
            pair_views(pairs@),
        ),
        !audit.is_enabled() ==> r.1@.len() == 0,
        audit.is_enabled() ==> ({
            let findings = record_findings(*data);
            &&& r.1@.len() == findings.len()
            &&& forall|k: int|
                0 <= k < findings.len() ==> ((#[trigger] r.1@[k]).event_type == (
                if findings[k].1 == FindingClass::Security {
                    AuditEventType::SecurityError
                } else {
                    AuditEventType::Validation
                }) && r.1@[k].severity == (if findings[k].1 == FindingClass::Security {
                    AuditSeverity::Error
                } else {
                    AuditSeverity::Warning
                }) && r.1@[k].client_ip == local_source() && r.1@[k].action@
                == "validation_failure"@ && r.1@[k].timestamp_ms == now_ms && r.1@[k].message@
                == validation_failure_message(
                    findings[k].0,
                    class_name(findings[k].1),
                    findings[k].2,
                    findings[k].1 == FindingClass::Security,
                ))
        }),
{
    let mut thai_name = data.th_prefix.clone();
    thai_name.append(" ");
    thai_name.append(data.th_firstname.as_str());
    thai_name.append(" ");
    thai_name.append(data.th_middlename.as_str());
    thai_name.append(" ");
    thai_name.append(data.th_lastname.as_str());
    proof {
        reveal_strlit(" ");
        assert(" "@ =~= seq![' ']);
        assert(thai_name@ == name_joined(*data));
    }
    let findings = CardDataValidator::validate_all(
        Some(data.citizen_id.as_str()),
        Some(data.birthday.as_str()),
        Some(data.issue_date.as_str()),
        Some(data.expire_date.as_str()),
        Some(data.sex.as_str()),
        Some(thai_name.as_str()),
        Some(data.full_name_en.as_str()),
        Some(data.address.as_str()),
    );
    let ghost fviews = findings_view(findings@);
    proof {
        assert(fviews == record_findings(*data));
    }
    let mut entries: Vec<AuditLogEntry> = Vec::new();
    let mut has_security = false;
    let mut i: usize = 0;
    while i < findings.len()
        invariant
            i <= findings@.len(),
            fviews == findings_view(findings@),
            fviews.len() == findings@.len(),
            has_security == (exists|k: int|
                0 <= k < i && fviews[k].1 == FindingClass::Security),
            !audit.is_enabled() ==> entries@.len() == 0,
            audit.is_enabled() ==> entries@.len() == i && (forall|k: int|
                0 <= k < i ==> ((#[trigger] entries@[k]).event_type == (
                if fviews[k].1 == FindingClass::Security {
                    AuditEventType::SecurityError
                } else {
                    AuditEventType::Validation
                }) && entries@[k].severity == (if fviews[k].1 == FindingClass::Security {
                    AuditSeverity::Error
                } else {
                    AuditSeverity::Warning
                }) && entries@[k].client_ip == local_source() && entries@[k].action@
                == "validation_failure"@ && entries@[k].timestamp_ms == now_ms
                && entries@[k].message@ == validation_failure_message(
                    fviews[k].0,
                    class_name(fviews[k].1),
                    fviews[k].2,
                    fviews[k].1 == FindingClass::Security,
                ))),
        decreases findings@.len() - i,
    {
        let field = &findings[i].0;
        let error = &findings[i].1;
        proof {
            assert(fviews[i as int] == (
                findings@[i as int].0@,
                crate::validation::class_of(findings@[i as int].1),
                crate::validation::msg_of(findings@[i as int].1),
            ));
        }
        let class = error.classification();
        let is_security = match class {
            FindingClass::Security => true,
            _ => false,
        };
        let error_type: &str = match class {
            FindingClass::Format => "Format",
            FindingClass::Integrity => "Integrity",
            FindingClass::Security => "Security",
        };
        let details: &str = match error {
            ValidationError::Format(m) => m.as_str(),
            ValidationError::Integrity(m) => m.as_str(),
            ValidationError::Security(m) => m.as_str(),
        };
        proof {
            assert(error_type@ == class_name(class));
            assert(details@ == crate::validation::msg_of(findings@[i as int].1));
        }
        if let Some(e) = audit.log_validation_failure(
            None,
            field.as_str(),
            error_type,
            details,
            is_security,
            now_ms,
        ) {
            entries.push(e);
        }
        if is_security {
            has_security = true;
        }
        proof {
            if is_security {
                assert(fviews[i as int].1 == FindingClass::Security);
            }
        }
        i += 1;
    }
    proof {
        if has_security {
            assert(any_security(fviews));
        } else {
            assert(!any_security(fviews));
        }
    }
    if has_security {
        return (None, entries);
    }
    let shaped = apply_output_config(data, output);
    let pairs = encrypt_pairs_from(&shaped, 0, security, crypto);
    proof {
        assert(pair_views(shaped@).skip(0) =~= pair_views(shaped@));
    }
    (Some(pairs), entries)
}

} // verus!
