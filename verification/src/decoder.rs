//! Decoding of raw card fields into normalized text and assembly of the
//! identity record: legacy code-page decoding, delimiter splitting with
//! padding, whitespace normalization, address heuristics, date
//! formatting, photo reassembly, and masking for logs.

use vstd::prelude::*;
use crate::apdu::byte_views;
use crate::encoding::b64_of;
use crate::encoding::base64_encode;
use crate::encoding::decode_windows874;
use crate::encoding::nfc_normalize;
use crate::encoding::nfc_of;
use crate::encoding::win874_of;
use crate::text::all_digits;
use crate::text::chars_of;
use crate::text::collapse_ws;
use crate::text::collapse_ws_spec;
use crate::text::digit_ch;
use crate::text::digit_ch_c;
use crate::text::digits_val;
use crate::text::splitn_delim;
use crate::text::splitn_on;
use crate::text::split_delim;
use crate::text::split_on;
use crate::text::join_ws;
use crate::text::join_words;
use crate::text::split_ws;
use crate::text::string_from_chars;
use crate::text::str_eq;
use crate::text::views_of;
use crate::text::words_of;

verus! {

/// The field-internal delimiter byte, replaced by a space in single-value
/// fields.
pub open spec fn replace_hash(s: Seq<char>) -> Seq<char> {
    s.map_values(|c: char| if c == '#' { ' ' } else { c })
}

/// A decoded single-value field: code-page decoding, delimiters to
/// spaces, whitespace collapsed, canonical composition.
pub open spec fn decode_field_spec(bytes: Seq<u8>) -> Seq<char> {
    nfc_of(collapse_ws_spec(replace_hash(win874_of(bytes))))
}

/// Decodes a single-value field: the delimiter byte becomes a space,
/// whitespace is collapsed, and the result is composed to NFC.
pub fn decode_tis620(bytes: &[u8]) -> (r: String)
    ensures
        r@ == decode_field_spec(bytes@),
{
    let s = decode_windows874(bytes);
    let v = chars_of(s.as_str());
    let mut m: Vec<char> = Vec::new();
    let mut i: usize = 0;
    proof {
        assert(m@ =~= replace_hash(v@.take(0)));
    }
    while i < v.len()
        invariant
            i <= v@.len(),
            m@ == replace_hash(v@.take(i as int)),
        decreases v@.len() - i,
    {
        let c = v[i];
        let rc = if c == '#' {
            ' '
        } else {
            c
        };
        m.push(rc);
        proof {
            assert(replace_hash(v@.take(i + 1 as int)) =~= replace_hash(v@.take(i as int)).push(
                rc,
            ));
        }
        i += 1;
    }
    proof {
        assert(v@.take(v@.len() as int) =~= v@);
    }
    let collapsed = collapse_ws(&m);
    let cs = string_from_chars(&collapsed);
    nfc_normalize(cs.as_str())
}

/// One part of a composite field, cleaned: whitespace collapsed and
/// composed to NFC.
pub open spec fn clean_part(p: Seq<char>) -> Seq<char> {
    nfc_of(collapse_ws_spec(p))
}

/// The views of a vector of strings.
pub open spec fn str_views(ss: Seq<String>) -> Seq<Seq<char>> {
    ss.map_values(|x: String| x@)
}

/// A part list padded with empty parts up to length `n`.
pub open spec fn pad_empty(ps: Seq<Seq<char>>, n: nat) -> Seq<Seq<char>> {
    if ps.len() >= n {
        ps
    } else {
        ps + Seq::new((n - ps.len()) as nat, |i: int| Seq::<char>::empty())
    }
}

/// A composite field split into exactly `n` cleaned parts: decoded with
/// the code page, split on the delimiter into at most `n` parts, each
/// part cleaned, and padded with empty parts if fewer are present.
pub open spec fn split_parts_spec(bytes: Seq<u8>, n: nat) -> Seq<Seq<char>> {
    pad_empty(splitn_delim(win874_of(bytes), '#', n).map_values(|p: Seq<char>| clean_part(p)), n)
}

proof fn lemma_splitn_len(s: Seq<char>, d: char, n: nat)
    requires
        n >= 1,
    ensures
        1 <= splitn_delim(s, d, n).len() <= n,
    decreases n,
{
    if n > 1 {
        let k = crate::text::delim_prefix_len(s, d) as int;
        if k != s.len() {
            lemma_splitn_len(s.skip(k + 1), d, (n - 1) as nat);
        }
    }
}

/// Cleans one split part: whitespace collapsed, composed to NFC.
fn clean_part_chars(p: &Vec<char>) -> (r: String)
    ensures
        r@ == clean_part(p@),
{
    let collapsed = collapse_ws(p);
    let cs = string_from_chars(&collapsed);
    nfc_normalize(cs.as_str())
}

/// Splits a composite field into exactly `n` cleaned parts, padding with
/// empty strings when fewer are present.
pub fn split_tis620(bytes: &[u8], n: usize) -> (r: Vec<String>)
    requires
        n >= 1,
    ensures
        str_views(r@) == split_parts_spec(bytes@, n as nat),
        r@.len() == n,
{
    let s = decode_windows874(bytes);
    let v = chars_of(s.as_str());
    let parts = splitn_on(&v, '#', n);
    let ghost sp = splitn_delim(v@, '#', n as nat);
    proof {
        lemma_splitn_len(v@, '#', n as nat);
    }
    let mut r: Vec<String> = Vec::new();
    let mut i: usize = 0;
    while i < parts.len()
        invariant
            i <= parts@.len(),
            views_of(parts@) == sp,
            sp.len() <= n,
            str_views(r@) == sp.take(i as int).map_values(|p: Seq<char>| clean_part(p)),
        decreases parts@.len() - i,
    {
        let cp = clean_part_chars(&parts[i]);
        let ghost prev = r@;
        r.push(cp);
        proof {
            assert(str_views(r@) =~= str_views(prev).push(cp@));
            assert(sp.take(i + 1 as int).map_values(|p: Seq<char>| clean_part(p)) =~= sp.take(
                i as int,
            ).map_values(|p: Seq<char>| clean_part(p)).push(clean_part(sp[i as int])));
            assert(views_of(parts@)[i as int] == parts@[i as int]@);
        }
        i += 1;
    }
    proof {
        assert(sp.take(sp.len() as int) =~= sp);
    }
    while r.len() < n
        invariant
            sp.len() <= r@.len() <= n,
            str_views(r@).take(sp.len() as int) == sp.map_values(|p: Seq<char>| clean_part(p)),
            forall|j: int| sp.len() <= j < r@.len() ==> str_views(r@)[j] == Seq::<char>::empty(),
        decreases n - r@.len(),
    {
        let ghost prev = r@;
        r.push(String::new());
        proof {
            assert(str_views(r@) =~= str_views(prev).push(Seq::<char>::empty()));
            assert(str_views(r@).take(sp.len() as int) =~= str_views(prev).take(sp.len() as int));
        }
    }
    proof {
        let mapped = sp.map_values(|p: Seq<char>| clean_part(p));
        assert(str_views(r@) =~= pad_empty(mapped, n as nat));
    }
    r
}

/// The concatenation of a sequence of byte strings, in order.
pub open spec fn concat_bytes(rs: Seq<Seq<u8>>) -> Seq<u8>
    decreases rs.len(),
{
    if rs.len() == 0 {
        Seq::empty()
    } else {
        concat_bytes(rs.drop_last()) + rs.last()
    }
}

/// Concatenates photo chunks in issuance order and encodes the whole as
/// base64; a short chunk list still produces the (truncated) image.
pub fn combine_photo_chunks(chunks: Vec<Vec<u8>>) -> (r: String)
    ensures
        r@ == b64_of(concat_bytes(byte_views(chunks@))),
{
    let mut full: Vec<u8> = Vec::new();
    let mut i: usize = 0;
    proof {
        assert(full@ =~= concat_bytes(byte_views(chunks@).take(0)));
    }
    while i < chunks.len()
        invariant
            i <= chunks@.len(),
            full@ == concat_bytes(byte_views(chunks@).take(i as int)),
        decreases chunks@.len() - i,
    {
        let c = &chunks[i];
        let mut j: usize = 0;
        let ghost before = full@;
        while j < c.len()
            invariant
                j <= c@.len(),
                i < chunks@.len(),
                c@ == chunks@[i as int]@,
                full@ == before + c@.subrange(0, j as int),
            decreases c@.len() - j,
        {
            let b = c[j];
            full.push(b);
            proof {
                assert(c@.subrange(0, j + 1 as int) =~= c@.subrange(0, j as int).push(b));
            }
            j += 1;
        }
        proof {
            let views = byte_views(chunks@);
            assert(c@.subrange(0, c@.len() as int) =~= c@);
            assert(views.take(i + 1 as int).drop_last() =~= views.take(i as int));
            assert(views.take(i + 1 as int).last() == views[i as int]);
            assert(views[i as int] == chunks@[i as int]@);
        }
        i += 1;
    }
    proof {
        assert(byte_views(chunks@).take(chunks@.len() as int) =~= byte_views(chunks@));
    }
    base64_encode(full.as_slice())
}

/// A run of `n` mask characters.
pub open spec fn stars(n: nat) -> Seq<char> {
    Seq::new(n, |i: int| '*')
}

/// A citizen identifier masked for logging: up to four characters the
/// whole string is masked; otherwise every character but the last four
/// is replaced, with one more mask character between the two parts.
pub open spec fn mask_citizen_spec(s: Seq<char>) -> Seq<char> {
    if s.len() <= 4 {
        stars(s.len())
    } else {
        stars((s.len() - 4) as nat) + seq!['*'] + s.skip(s.len() - 4)
    }
}

/// Masks a citizen identifier for logging, keeping only the last four
/// characters.
pub fn mask_citizen_id(citizen_id: &str) -> (r: String)
    ensures
        r@ == mask_citizen_spec(citizen_id@),
{
    let v = chars_of(citizen_id);
    let n = v.len();
    let keep: usize = if n <= 4 {
        0
    } else {
        4
    };
    let mut out: Vec<char> = Vec::new();
    let mut i: usize = 0;
    let star_count: usize = if n <= 4 {
        n
    } else {
        n - 4 + 1
    };
    while i < star_count
        invariant
            i <= star_count,
            out@ =~= stars(i as nat),
        decreases star_count - i,
    {
        out.push('*');
        proof {
            assert(stars((i + 1) as nat) =~= stars(i as nat).push('*'));
        }
        i += 1;
    }
    let mut j: usize = n - keep;
    while j < n
        invariant
            n == v@.len(),
            n - keep <= j <= n,
            keep == if n <= 4 { 0int } else { 4int },
            out@ =~= stars(star_count as nat) + v@.subrange(n - keep as int, j as int),
            star_count == if n <= 4 { n as int } else { n - 3 },
        decreases n - j,
    {
        let c = v[j];
        out.push(c);
        proof {
            assert(v@.subrange(n - keep as int, j + 1 as int) =~= v@.subrange(
                n - keep as int,
                j as int,
            ).push(c));
        }
        j += 1;
    }
    proof {
        if n <= 4 {
            assert(out@ =~= mask_citizen_spec(v@));
        } else {
            assert(stars((n - 3) as nat) =~= stars((n - 4) as nat) + seq!['*']);
            assert(v@.subrange(n - 4 as int, n as int) =~= v@.skip(n - 4 as int));
            assert(out@ =~= mask_citizen_spec(v@));
        }
    }
    string_from_chars(&out)
}

/// An address masked for logging: only the province is shown.
pub open spec fn mask_address_spec(province: Seq<char>) -> Seq<char> {
    if province.len() == 0 {
        "[masked address]"@
    } else {
        "[hidden] "@ + province
    }
}

/// Masks an address for logging, keeping only the province.
pub fn mask_address(province: &str) -> (r: String)
    ensures
        r@ == mask_address_spec(province@),
{
    if province.unicode_len() == 0 {
        String::from_str("[masked address]")
    } else {
        let mut r = String::from_str("[hidden] ");
        r.append(province);
        r
    }
}

/// A date rendered with slashes: `YYYYMMDD` becomes `YYYY/MM/DD`; any
/// other length is returned unchanged.
pub open spec fn date_slash_spec(s: Seq<char>) -> Seq<char> {
    if s.len() == 8 {
        s.take(4) + seq!['/'] + s.subrange(4, 6) + seq!['/'] + s.subrange(6, 8)
    } else {
        s
    }
}

/// Renders an 8-digit date with slashes; other inputs pass through.
pub fn format_date_slash(d: &str) -> (r: String)
    ensures
        r@ == date_slash_spec(d@),
{
    let v = chars_of(d);
    if v.len() != 8 {
        return d.to_owned();
    }
    let mut out: Vec<char> = Vec::new();
    let mut i: usize = 0;
    while i < 4
        invariant
            v@.len() == 8,
            i <= 4,
            out@ == v@.subrange(0, i as int),
        decreases 4 - i,
    {
        let c = v[i];
        out.push(c);
        proof {
            assert(v@.subrange(0, i + 1 as int) =~= v@.subrange(0, i as int).push(c));
        }
        i += 1;
    }
    out.push('/');
    let mut j: usize = 4;
    while j < 6
        invariant
            v@.len() == 8,
            4 <= j <= 6,
            out@ == v@.subrange(0, 4) + seq!['/'] + v@.subrange(4, j as int),
        decreases 6 - j,
    {
        let c = v[j];
        out.push(c);
        proof {
            assert(v@.subrange(4, j + 1 as int) =~= v@.subrange(4, j as int).push(c));
        }
        j += 1;
    }
    out.push('/');
    let mut k: usize = 6;
    while k < 8
        invariant
            v@.len() == 8,
            6 <= k <= 8,
            out@ == v@.subrange(0, 4) + seq!['/'] + v@.subrange(4, 6) + seq!['/'] + v@.subrange(
                6,
                k as int,
            ),
        decreases 8 - k,
    {
        let c = v[k];
        out.push(c);
        proof {
            assert(v@.subrange(6, k + 1 as int) =~= v@.subrange(6, k as int).push(c));
        }
        k += 1;
    }
    proof {
        assert(out@ =~= date_slash_spec(v@));
    }
    string_from_chars(&out)
}

/// The all-nines expiry value stands for an effectively unbounded
/// far-future date.
pub open spec fn normalize_expire_spec(s: Seq<char>) -> Seq<char> {
    if s == "99999999"@ {
        "29991231"@
    } else {
        s
    }
}

/// Maps the all-nines expiry value to the far-future date it stands for.
pub fn normalize_expire(s: &str) -> (r: String)
    ensures
        r@ == normalize_expire_spec(s@),
{
    if str_eq(s, "99999999") {
        String::from_str("29991231")
    } else {
        s.to_owned()
    }
}

/// A number below 100 in decimal, without a leading zero.
pub open spec fn dec2_chars(d: int) -> Seq<char> {
    if d < 10 {
        seq![digit_ch(d)]
    } else {
        seq![digit_ch(d / 10), digit_ch(d % 10)]
    }
}

/// The abbreviated month names of the card's native calendar.
pub open spec fn thai_month_name(m: int) -> Seq<char> {
    if m == 1 {
        "ม.ค."@
    } else if m == 2 {
        "ก.พ."@
    } else if m == 3 {
        "มี.ค."@
    } else if m == 4 {
        "เม.ย."@
    } else if m == 5 {
        "พ.ค."@
    } else if m == 6 {
        "มิ.ย."@
    } else if m == 7 {
        "ก.ค."@
    } else if m == 8 {
        "ส.ค."@
    } else if m == 9 {
        "ก.ย."@
    } else if m == 10 {
        "ต.ค."@
    } else if m == 11 {
        "พ.ย."@
    } else {
        "ธ.ค."@
    }
}

fn thai_month_name_c(m: u32) -> (r: String)
    requires
        1 <= m <= 12,
    ensures
        r@ == thai_month_name(m as int),
{
    if m == 1 {
        String::from_str("ม.ค.")
    } else if m == 2 {
        String::from_str("ก.พ.")
    } else if m == 3 {
        String::from_str("มี.ค.")
    } else if m == 4 {
        String::from_str("เม.ย.")
    } else if m == 5 {
        String::from_str("พ.ค.")
    } else if m == 6 {
        String::from_str("มิ.ย.")
    } else if m == 7 {
        String::from_str("ก.ค.")
    } else if m == 8 {
        String::from_str("ส.ค.")
    } else if m == 9 {
        String::from_str("ก.ย.")
    } else if m == 10 {
        String::from_str("ต.ค.")
    } else if m == 11 {
        String::from_str("พ.ย.")
    } else {
        String::from_str("ธ.ค.")
    }
}

/// A human-readable date in the card's native calendar: day without a
/// leading zero, abbreviated month name, year as on the card. A string
/// that is not eight characters, or whose month is not 01 to 12, passes
/// through unchanged; a malformed day renders as zero.
pub open spec fn thai_date_spec(s: Seq<char>) -> Seq<char> {
    if s.len() != 8 {
        s
    } else if !all_digits(s.subrange(4, 6)) {
        s
    } else {
        let m = digits_val(s.subrange(4, 6));
        if m < 1 || m > 12 {
            s
        } else {
            let d = if all_digits(s.subrange(6, 8)) {
                digits_val(s.subrange(6, 8))
            } else {
                0
            };
            dec2_chars(d) + seq![' '] + thai_month_name(m) + seq![' '] + s.take(4)
        }
    }
}

/// Renders an 8-digit date human-readably in the card's native calendar.
pub fn format_thai_date(date_str: &str) -> (r: String)
    ensures
        r@ == thai_date_spec(date_str@),
{
    let v = chars_of(date_str);
    if v.len() != 8 {
        return date_str.to_owned();
    }
    let month = match crate::text::parse_two_digits(&v, 4) {
        Some(m) => m,
        None => {
            return date_str.to_owned();
        },
    };
    if month < 1 || month > 12 {
        return date_str.to_owned();
    }
    let day: u32 = match crate::text::parse_two_digits(&v, 6) {
        Some(d) => {
            proof {
                crate::text::lemma_digits_val_bound(v@.subrange(6, 8));
                assert(crate::text::pow10(2) == 100) by {
                    reveal_with_fuel(crate::text::pow10, 3);
                }
            }
            d
        },
        None => 0,
    };
    let mut out: Vec<char> = Vec::new();
    if day < 10 {
        out.push(digit_ch_c(day));
    } else {
        out.push(digit_ch_c(day / 10));
        out.push(digit_ch_c(day % 10));
    }
    proof {
        assert(out@ =~= dec2_chars(day as int));
    }
    out.push(' ');
    let mname = thai_month_name_c(month);
    let mut mchars = chars_of(mname.as_str());
    out.append(&mut mchars);
    out.push(' ');
    let ghost before_year = out@;
    let mut k: usize = 0;
    while k < 4
        invariant
            v@.len() == 8,
            k <= 4,
            out@ == before_year + v@.subrange(0, k as int),
        decreases 4 - k,
    {
        let c = v[k];
        out.push(c);
        proof {
            assert(v@.subrange(0, k + 1 as int) =~= v@.subrange(0, k as int).push(c));
        }
        k += 1;
    }
    proof {
        assert(out@ =~= thai_date_spec(v@));
    }
    string_from_chars(&out)
}

/// A byte the address field can legitimately hold: the delimiter, ASCII
/// printable, or the code page's native-script range. The card pads
/// unused capacity with bytes outside these ranges.
pub open spec fn is_valid_addr_byte(b: u8) -> bool {
    b == 0x23 || (0x20 <= b && b <= 0x7E) || (0xA1 <= b && b <= 0xFB)
}

/// Length of the prefix of valid address bytes.
pub open spec fn addr_prefix_len(bytes: Seq<u8>) -> nat
    decreases bytes.len(),
{
    if bytes.len() == 0 || !is_valid_addr_byte(bytes[0]) {
        0
    } else {
        1 + addr_prefix_len(bytes.drop_first())
    }
}

/// The address bytes truncated at the first padding byte.
pub open spec fn addr_clean_bytes(bytes: Seq<u8>) -> Seq<u8> {
    bytes.take(addr_prefix_len(bytes) as int)
}

proof fn lemma_addr_prefix_scan(bytes: Seq<u8>, k: int)
    requires
        0 <= k <= bytes.len(),
        forall|j: int| 0 <= j < k ==> is_valid_addr_byte(bytes[j]),
        k == bytes.len() || !is_valid_addr_byte(bytes[k]),
    ensures
        addr_prefix_len(bytes) == k,
    decreases k,
{
    if k > 0 {
        lemma_addr_prefix_scan(bytes.drop_first(), k - 1);
    }
}

/// The cleaned parts of the address field: padding truncated, decoded,
/// split on the delimiter, each part whitespace-collapsed and composed.
pub open spec fn address_parts_spec(bytes: Seq<u8>) -> Seq<Seq<char>> {
    split_delim(win874_of(addr_clean_bytes(bytes)), '#').map_values(|p: Seq<char>| clean_part(p))
}

fn is_valid_addr_byte_c(b: u8) -> (r: bool)
    ensures
        r == is_valid_addr_byte(b),
{
    b == 0x23 || (0x20 <= b && b <= 0x7E) || (0xA1 <= b && b <= 0xFB)
}

/// Splits the raw address field into its cleaned parts.
pub fn address_parts(bytes: &[u8]) -> (r: Vec<String>)
    ensures
        str_views(r@) == address_parts_spec(bytes@),
{
    let n = bytes.len();
    let mut k: usize = 0;
    while k < n && is_valid_addr_byte_c(bytes[k])
        invariant
            k <= n,
            n == bytes@.len(),
            forall|j: int| 0 <= j < k ==> is_valid_addr_byte(bytes@[j]),
        decreases n - k,
    {
        k += 1;
    }
    let mut clean: Vec<u8> = Vec::new();
    let mut i: usize = 0;
    while i < k
        invariant
            i <= k <= n,
            n == bytes@.len(),
            clean@ == bytes@.subrange(0, i as int),
        decreases k - i,
    {
        let b = bytes[i];
        clean.push(b);
        proof {
            assert(bytes@.subrange(0, i + 1 as int) =~= bytes@.subrange(0, i as int).push(b));
        }
        i += 1;
    }
    proof {
        lemma_addr_prefix_scan(bytes@, k as int);
        assert(clean@ =~= addr_clean_bytes(bytes@));
    }
    let s = decode_windows874(clean.as_slice());
    let v = chars_of(s.as_str());
    let parts = split_on(&v, '#');
    let ghost sp = split_delim(v@, '#');
    let mut r: Vec<String> = Vec::new();
    let mut p: usize = 0;
    while p < parts.len()
        invariant
            p <= parts@.len(),
            views_of(parts@) == sp,
            str_views(r@) == sp.take(p as int).map_values(|q: Seq<char>| clean_part(q)),
        decreases parts@.len() - p,
    {
        let cp = clean_part_chars(&parts[p]);
        let ghost prev = r@;
        r.push(cp);
        proof {
            assert(str_views(r@) =~= str_views(prev).push(cp@));
            assert(sp.take(p + 1 as int).map_values(|q: Seq<char>| clean_part(q)) =~= sp.take(
                p as int,
            ).map_values(|q: Seq<char>| clean_part(q)).push(clean_part(sp[p as int])));
            assert(views_of(parts@)[p as int] == parts@[p as int]@);
        }
        p += 1;
    }
    proof {
        assert(sp.take(sp.len() as int) =~= sp);
    }
    r
}

/// A character kept by the administrative-division cleanup: the native
/// script's consonants, vowels and tone marks, or a space.
pub open spec fn keep_thai_char(c: char) -> bool {
    ('\u{0E01}' <= c && c <= '\u{0E2E}') || ('\u{0E30}' <= c && c <= '\u{0E3A}') || (
    '\u{0E40}' <= c && c <= '\u{0E4E}') || c == ' '
}

/// The kept characters of a string, in order.
pub open spec fn filter_thai(s: Seq<char>) -> Seq<char>
    decreases s.len(),
{
    if s.len() == 0 {
        Seq::empty()
    } else if keep_thai_char(s.last()) {
        filter_thai(s.drop_last()).push(s.last())
    } else {
        filter_thai(s.drop_last())
    }
}

/// The words of at least two characters, in order: single-character
/// words are decode artifacts.
pub open spec fn long_words(ws: Seq<Seq<char>>) -> Seq<Seq<char>>
    decreases ws.len(),
{
    if ws.len() == 0 {
        Seq::empty()
    } else if ws.last().len() >= 2 {
        long_words(ws.drop_last()).push(ws.last())
    } else {
        long_words(ws.drop_last())
    }
}

/// An administrative-division field cleaned of decode artifacts: only
/// native-script characters and spaces are kept, and words of a single
/// character are dropped.
pub open spec fn strip_garbage_spec(s: Seq<char>) -> Seq<char> {
    join_ws(long_words(split_ws(filter_thai(s))))
}

fn keep_thai_c(c: char) -> (r: bool)
    ensures
        r == keep_thai_char(c),
{
    ('\u{0E01}' <= c && c <= '\u{0E2E}') || ('\u{0E30}' <= c && c <= '\u{0E3A}') || (
    '\u{0E40}' <= c && c <= '\u{0E4E}') || c == ' '
}

/// Cleans an administrative-division field of decode artifacts.
pub fn strip_garbage(s: &str) -> (r: String)
    ensures
        r@ == strip_garbage_spec(s@),
{
    let v = chars_of(s);
    let mut kept: Vec<char> = Vec::new();
    let mut i: usize = 0;
    proof {
        assert(kept@ =~= filter_thai(v@.take(0)));
    }
    while i < v.len()
        invariant
            i <= v@.len(),
            kept@ == filter_thai(v@.take(i as int)),
        decreases v@.len() - i,
    {
        let c = v[i];
        proof {
            assert(v@.take(i + 1 as int).drop_last() =~= v@.take(i as int));
            assert(v@.take(i + 1 as int).last() == c);
        }
        if keep_thai_c(c) {
            kept.push(c);
        }
        i += 1;
    }
    proof {
        assert(v@.take(v@.len() as int) =~= v@);
    }
    let ws = words_of(&kept);
    let mut lw: Vec<Vec<char>> = Vec::new();
    let mut j: usize = 0;
    proof {
        assert(views_of(lw@) =~= long_words(views_of(ws@).take(0)));
    }
    while j < ws.len()
        invariant
            j <= ws@.len(),
            views_of(lw@) == long_words(views_of(ws@).take(j as int)),
        decreases ws@.len() - j,
    {
        proof {
            assert(views_of(ws@).take(j + 1 as int).drop_last() =~= views_of(ws@).take(j as int));
            assert(views_of(ws@).take(j + 1 as int).last() == views_of(ws@)[j as int]);
            assert(views_of(ws@)[j as int] == ws@[j as int]@);
        }
        if ws[j].len() >= 2 {
            let ghost prev = lw@;
            let w = ws[j].clone();
            proof {
                assert(w@ == ws@[j as int]@);
            }
            lw.push(w);
            proof {
                assert(views_of(lw@) =~= views_of(prev).push(w@));
            }
        }
        j += 1;
    }
    proof {
        assert(views_of(ws@).take(ws@.len() as int) =~= views_of(ws@));
    }
    let joined = join_words(&lw);
    string_from_chars(&joined)
}

/// The part at an index, or the empty string past the end.
pub open spec fn part_or_empty(parts: Seq<Seq<char>>, i: int) -> Seq<char> {
    if 0 <= i < parts.len() {
        parts[i]
    } else {
        Seq::empty()
    }
}

/// The positions of subdistrict, district and province in the cleaned
/// address parts. The layout has two observed variants: when position 4
/// cleans to empty it is a filler and the divisions sit at 5/6/7,
/// otherwise they sit at 4/5/6. Genuinely ambiguous cards can misassign
/// these; this is a known accuracy limit of the single check.
pub open spec fn address_indices(parts: Seq<Seq<char>>) -> (int, int, int) {
    if strip_garbage_spec(part_or_empty(parts, 4)).len() == 0 {
        (5int, 6int, 7int)
    } else {
        (4int, 5int, 6int)
    }
}

/// The part at `i`, cloned, or an empty string past the end.
fn part_at(parts: &Vec<String>, i: usize) -> (r: String)
    ensures
        r@ == part_or_empty(str_views(parts@), i as int),
{
    if i < parts.len() {
        parts[i].clone()
    } else {
        String::new()
    }
}

/// Selects and cleans the subdistrict, district and province from the
/// address parts, detecting the layout variant by whether position 4
/// cleans to empty.
pub fn select_address_components(parts: &Vec<String>) -> (r: (String, String, String))
    ensures
        ({
            let views = str_views(parts@);
            let idx = address_indices(views);
            &&& r.0@ == strip_garbage_spec(part_or_empty(views, idx.0))
            &&& r.1@ == strip_garbage_spec(part_or_empty(views, idx.1))
            &&& r.2@ == strip_garbage_spec(part_or_empty(views, idx.2))
        }),
{
    let part4 = part_at(parts, 4);
    let part4_clean = strip_garbage(part4.as_str());
    let (t_idx, a_idx, p_idx): (usize, usize, usize) = if part4_clean.as_str().unicode_len() == 0 {
        (5, 6, 7)
    } else {
        (4, 5, 6)
    };
    let tambol_raw = part_at(parts, t_idx);
    let amphur_raw = part_at(parts, a_idx);
    let province_raw = part_at(parts, p_idx);
    let tambol = strip_garbage(tambol_raw.as_str());
    let amphur = strip_garbage(amphur_raw.as_str());
    let province = strip_garbage(province_raw.as_str());
    (tambol, amphur, province)
}

/// Seven address components joined by single spaces, empty ones kept.
pub open spec fn join_address(
    house: Seq<char>,
    village: Seq<char>,
    road: Seq<char>,
    lane: Seq<char>,
    tambol: Seq<char>,
    amphur: Seq<char>,
    province: Seq<char>,
) -> Seq<char> {
    house + seq![' '] + village + seq![' '] + road + seq![' '] + lane + seq![' '] + tambol
        + seq![' '] + amphur + seq![' '] + province
}

/// An immutable snapshot of one successful card read.
#[derive(Debug, Clone)]
pub struct ThaiIDData {
    /// Citizen identifier.
    pub citizen_id: String,
    /// Native-script name components.
    pub th_prefix: String,
    pub th_firstname: String,
    pub th_middlename: String,
    pub th_lastname: String,
    /// Secondary-script name components.
    pub en_prefix: String,
    pub en_firstname: String,
    pub en_middlename: String,
    pub en_lastname: String,
    /// Secondary-script name as one field, from the card.
    pub full_name_en: String,
    /// Date of birth, slash-delimited, in the card's calendar.
    pub birthday: String,
    /// Sex code: "1" = male, "2" = female.
    pub sex: String,
    /// Issuing authority.
    pub card_issuer: String,
    /// Issue date, slash-delimited.
    pub issue_date: String,
    /// Expiry date, slash-delimited.
    pub expire_date: String,
    /// Combined address string.
    pub address: String,
    /// Address components.
    pub addr_house_no: String,
    pub addr_village_no: String,
    pub addr_road: String,
    pub addr_lane: String,
    pub addr_tambol: String,
    pub addr_amphur: String,
    pub addr_province: String,
    /// Photo, base64-encoded.
    pub photo: String,
}

/// Events from the card reader.
#[derive(Debug, Clone)]
pub enum CardEvent {
    /// A card was inserted and its record read.
    Inserted(ThaiIDData),
    /// The card was removed from the reader.
    Removed,
}

/// Assembles the identity record from the raw field payloads, exactly as
/// the decoding specs say: single-value fields are decoded and
/// normalized; the two name fields split into four cleaned parts each;
/// the address is truncated at padding, split, and its administrative
/// divisions selected by the layout variant; dates are slash-formatted,
/// with the all-nines expiry mapped to the far-future date; the photo
/// chunks are concatenated in order and base64-encoded.
pub fn build_identity_record(
    citizen_id_raw: &[u8],
    name_th_raw: &[u8],
    name_en_raw: &[u8],
    birth_raw: &[u8],
    sex_raw: &[u8],
    issuer_raw: &[u8],
    issue_raw: &[u8],
    expire_raw: &[u8],
    addr_raw: &[u8],
    photo_chunks: Vec<Vec<u8>>,
) -> (r: ThaiIDData)
    ensures
        r.citizen_id@ == decode_field_spec(citizen_id_raw@),
        ({
            let th = split_parts_spec(name_th_raw@, 4);
            r.th_prefix@ == th[0] && r.th_firstname@ == th[1] && r.th_middlename@ == th[2]
                && r.th_lastname@ == th[3]
        }),
        ({
            let en = split_parts_spec(name_en_raw@, 4);
            r.en_prefix@ == en[0] && r.en_firstname@ == en[1] && r.en_middlename@ == en[2]
                && r.en_lastname@ == en[3]
        }),
        r.full_name_en@ == decode_field_spec(name_en_raw@),
        r.birthday@ == date_slash_spec(decode_field_spec(birth_raw@)),
        r.sex@ == decode_field_spec(sex_raw@),
        r.card_issuer@ == decode_field_spec(issuer_raw@),
        r.issue_date@ == date_slash_spec(decode_field_spec(issue_raw@)),
        r.expire_date@ == date_slash_spec(normalize_expire_spec(decode_field_spec(expire_raw@))),
        ({
            let parts = address_parts_spec(addr_raw@);
            let idx = address_indices(parts);
            &&& r.addr_house_no@ == part_or_empty(parts, 0)
            &&& r.addr_village_no@ == part_or_empty(parts, 1)
            &&& r.addr_lane@ == part_or_empty(parts, 2)
            &&& r.addr_road@ == part_or_empty(parts, 3)
            &&& r.addr_tambol@ == strip_garbage_spec(part_or_empty(parts, idx.0))
            &&& r.addr_amphur@ == strip_garbage_spec(part_or_empty(parts, idx.1))
            &&& r.addr_province@ == strip_garbage_spec(part_or_empty(parts, idx.2))
            &&& r.address@ == join_address(
                part_or_empty(parts, 0),
                part_or_empty(parts, 1),
                part_or_empty(parts, 3),
                part_or_empty(parts, 2),
                strip_garbage_spec(part_or_empty(parts, idx.0)),
                strip_garbage_spec(part_or_empty(parts, idx.1)),
                strip_garbage_spec(part_or_empty(parts, idx.2)),
            )
        }),
        r.photo@ == b64_of(concat_bytes(byte_views(photo_chunks@))),
{
    let citizen_id = decode_tis620(citizen_id_raw);
    let th_parts = split_tis620(name_th_raw, 4);
    let en_parts = split_tis620(name_en_raw, 4);
    let full_name_en = decode_tis620(name_en_raw);
    let birthday = format_date_slash(decode_tis620(birth_raw).as_str());
    let sex = decode_tis620(sex_raw);
    let card_issuer = decode_tis620(issuer_raw);
    let issue_date = format_date_slash(decode_tis620(issue_raw).as_str());
    let expire_decoded = decode_tis620(expire_raw);
    let expire_norm = normalize_expire(expire_decoded.as_str());
    let expire_date = format_date_slash(expire_norm.as_str());
    let parts = address_parts(addr_raw);
    let addr_house_no = part_at(&parts, 0);
    let addr_village_no = part_at(&parts, 1);
    let addr_lane = part_at(&parts, 2);
    let addr_road = part_at(&parts, 3);
    let (addr_tambol, addr_amphur, addr_province) = select_address_components(&parts);
    let mut address_chars: Vec<char> = Vec::new();
    let mut h = chars_of(addr_house_no.as_str());
    address_chars.append(&mut h);
    address_chars.push(' ');
    let mut vg = chars_of(addr_village_no.as_str());
    address_chars.append(&mut vg);
    address_chars.push(' ');
    let mut rd = chars_of(addr_road.as_str());
    address_chars.append(&mut rd);
    address_chars.push(' ');
    let mut ln = chars_of(addr_lane.as_str());
    address_chars.append(&mut ln);
    address_chars.push(' ');
    let mut tb = chars_of(addr_tambol.as_str());
    address_chars.append(&mut tb);
    address_chars.push(' ');
    let mut am = chars_of(addr_amphur.as_str());
    address_chars.append(&mut am);
    address_chars.push(' ');
    let mut pv = chars_of(addr_province.as_str());
    address_chars.append(&mut pv);
    proof {
        assert(address_chars@ =~= join_address(
            addr_house_no@,
            addr_village_no@,
            addr_road@,
            addr_lane@,
            addr_tambol@,
            addr_amphur@,
            addr_province@,
        ));
    }
    let address = string_from_chars(&address_chars);
    let photo = combine_photo_chunks(photo_chunks);
    let th_prefix = th_parts[0].clone();
    let th_firstname = th_parts[1].clone();
    let th_middlename = th_parts[2].clone();
    let th_lastname = th_parts[3].clone();
    let en_prefix = en_parts[0].clone();
    let en_firstname = en_parts[1].clone();
    let en_middlename = en_parts[2].clone();
    let en_lastname = en_parts[3].clone();
    proof {
        assert(str_views(th_parts@)[0] == th_parts@[0]@);
        assert(str_views(th_parts@)[1] == th_parts@[1]@);
        assert(str_views(th_parts@)[2] == th_parts@[2]@);
        assert(str_views(th_parts@)[3] == th_parts@[3]@);
        assert(str_views(en_parts@)[0] == en_parts@[0]@);
        assert(str_views(en_parts@)[1] == en_parts@[1]@);
        assert(str_views(en_parts@)[2] == en_parts@[2]@);
        assert(str_views(en_parts@)[3] == en_parts@[3]@);
    }
    ThaiIDData {
        citizen_id,
        th_prefix,
        th_firstname,
        th_middlename,
        th_lastname,
        en_prefix,
        en_firstname,
        en_middlename,
        en_lastname,
        full_name_en,
        birthday,
        sex,
        card_issuer,
        issue_date,
        expire_date,
        address,
        addr_house_no,
        addr_village_no,
        addr_road,
        addr_lane,
        addr_tambol,
        addr_amphur,
        addr_province,
        photo,
    }
}

} // verus!
