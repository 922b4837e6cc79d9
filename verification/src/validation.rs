//! Field validation with a security classification.
//!
//! Every validator classifies bad input as a format error, an integrity
//! error (a failed checksum), or a security threat (characters associated
//! with injection payloads), and never panics on card data.

use vstd::prelude::*;
use crate::text::all_digits;
use crate::text::chars_of;
use crate::text::digit_val;
use crate::text::digits_val;
use crate::text::is_digit_c;
use crate::text::is_digit_char;
use crate::text::parse_digits_u32;
use crate::text::trim_chars;
use crate::text::trim_spec;

verus! {

/// A validation finding: how a field failed.
#[derive(Debug, Clone)]
pub enum ValidationError {
    /// Wrong shape: length, characters, ranges.
    Format(String),
    /// Shape is right but the checksum is not.
    Integrity(String),
    /// Characters associated with injection payloads.
    Security(String),
}

/// The classification of a finding, without its message.
#[derive(Debug, Clone, Copy, PartialEq, Eq, Structural)]
pub enum FindingClass {
    Format,
    Integrity,
    Security,
}

pub open spec fn class_of(e: ValidationError) -> FindingClass {
    match e {
        ValidationError::Format(_) => FindingClass::Format,
        ValidationError::Integrity(_) => FindingClass::Integrity,
        ValidationError::Security(_) => FindingClass::Security,
    }
}

/// The message carried by a finding.
pub open spec fn msg_of(e: ValidationError) -> Seq<char> {
    match e {
        ValidationError::Format(m) => m@,
        ValidationError::Integrity(m) => m@,
        ValidationError::Security(m) => m@,
    }
}

/// The printable name of a classification.
pub open spec fn class_name(c: FindingClass) -> Seq<char> {
    match c {
        FindingClass::Format => "Format"@,
        FindingClass::Integrity => "Integrity"@,
        FindingClass::Security => "Security"@,
    }
}

impl ValidationError {
    /// The classification of this finding.
    pub fn classification(&self) -> (c: FindingClass)
        ensures
            c == class_of(*self),
    {
        match self {
            ValidationError::Format(_) => FindingClass::Format,
            ValidationError::Integrity(_) => FindingClass::Integrity,
            ValidationError::Security(_) => FindingClass::Security,
        }
    }
}

pub type ValidationResult = Result<(), ValidationError>;

/// Characters a field must not contain: the injection denylist.
pub open spec fn is_denylisted_char(c: char) -> bool {
    c == '<' || c == '>' || c == '{' || c == '}' || c == '[' || c == ']' || c == '\\' || c == '|'
        || c == ';' || c == '&' || c == '$'
}

pub open spec fn has_denylisted(s: Seq<char>) -> bool {
    exists|i: int| 0 <= i < s.len() && is_denylisted_char(s[i])
}

fn is_denylisted_c(c: char) -> (b: bool)
    ensures
        b == is_denylisted_char(c),
{
    c == '<' || c == '>' || c == '{' || c == '}' || c == '[' || c == ']' || c == '\\' || c == '|'
        || c == ';' || c == '&' || c == '$'
}

fn contains_denylisted(v: &Vec<char>) -> (b: bool)
    ensures
        b == has_denylisted(v@),
{
    let mut i: usize = 0;
    while i < v.len()
        invariant
            i <= v@.len(),
            forall|j: int| 0 <= j < i ==> !is_denylisted_char(v@[j]),
        decreases v@.len() - i,
    {
        if is_denylisted_c(v[i]) {
            return true;
        }
        i += 1;
    }
    false
}

fn check_all_digits(v: &Vec<char>) -> (b: bool)
    ensures
        b == all_digits(v@),
{
    let mut i: usize = 0;
    while i < v.len()
        invariant
            i <= v@.len(),
            forall|j: int| 0 <= j < i ==> is_digit_char(v@[j]),
        decreases v@.len() - i,
    {
        if !is_digit_c(v[i]) {
            return false;
        }
        i += 1;
    }
    true
}

/// Weighted digit sum: digit at position `i` (0-based) has weight `13 - i`.
pub open spec fn weighted_sum(s: Seq<char>) -> int
    decreases s.len(),
{
    if s.len() == 0 {
        0
    } else {
        weighted_sum(s.drop_last()) + digit_val(s.last()) * (13 - (s.len() - 1))
    }
}

/// The check digit owed by a 13-digit identifier: the first 12 digits are
/// weighted by (13 - position), and the check digit is
/// `(11 - (sum mod 11)) mod 10`.
pub open spec fn checksum_digit(s: Seq<char>) -> int {
    (11 - (weighted_sum(s.take(12)) % 11)) % 10
}

/// A 13-digit identifier whose 13th digit equals its check digit.
pub open spec fn checksum_ok(s: Seq<char>) -> bool {
    digit_val(s[12]) == checksum_digit(s)
}

/// A valid citizen identifier: exactly 13 ASCII digits with a correct
/// check digit.
pub open spec fn citizen_id_valid(s: Seq<char>) -> bool {
    s.len() == 13 && all_digits(s) && checksum_ok(s)
}

/// Citizen identifier validation.
pub struct ThaiCitizenIdValidator;

impl ThaiCitizenIdValidator {
    /// Whether the string is exactly 13 ASCII digits whose 13th digit
    /// equals the weighted mod-11 check digit of the first 12.
    pub fn validate_checksum(citizen_id: &str) -> (r: bool)
        ensures
            r == citizen_id_valid(citizen_id@),
    {
        let v = chars_of(citizen_id);
        if v.len() != 13 {
            return false;
        }
        if !check_all_digits(&v) {
            return false;
        }
        let mut sum: u32 = 0;
        let mut i: usize = 0;
        proof {
            assert(v@.take(0) =~= Seq::<char>::empty());
        }
        while i < 12
            invariant
                i <= 12,
                v@.len() == 13,
                all_digits(v@),
                sum == weighted_sum(v@.take(i as int)),
                sum <= 117 * i,
            decreases 12 - i,
        {
            let c = v[i];
            proof {
                let pre = v@.take(i as int);
                let cur = v@.take(i + 1 as int);
                assert(cur.drop_last() =~= pre);
                assert(cur.last() == c);
                assert(is_digit_char(c));
            }
            let d: u32 = (c as u32) - 48;
            let w: u32 = 13 - (i as u32);
            proof {
                assert(d <= 9 && 1 <= w <= 13);
                assert(d * w <= 117) by (nonlinear_arith)
                    requires
                        d <= 9 && 1 <= w <= 13,
                {
                }
            }
            sum = sum + d * w;
            i += 1;
        }
        let check: u32 = (11 - (sum % 11)) % 10;
        let c12 = v[12];
        proof {
            assert(is_digit_char(c12));
        }
        let provided: u32 = (c12 as u32) - 48;
        check == provided
    }

    /// Validates a citizen identifier after trimming whitespace: the
    /// result is `Ok` exactly when the trimmed string is a valid
    /// 13-digit identifier; a wrong length or a non-digit is a format
    /// finding, and a wrong check digit an integrity finding.
    pub fn validate(citizen_id: &str) -> (r: ValidationResult)
        ensures
            match r {
                Ok(()) => citizen_id_valid(trim_spec(citizen_id@)),
                Err(e) => citizen_id_finding(citizen_id@) == Option::Some(
                    (class_of(e), msg_of(e)),
                ),
            },
            (r is Ok <==> citizen_id_finding(citizen_id@) is None),
    {
        let v = chars_of(citizen_id);
        let t = trim_chars(&v);
        if t.len() != 13 {
            return Err(ValidationError::Format(String::from_str("invalid length: expected 13 digits")));
        }
        if !check_all_digits(&t) {
            return Err(ValidationError::Format(String::from_str("contains non-digit characters")));
        }
        let s = crate::text::string_from_chars(&t);
        if !Self::validate_checksum(s.as_str()) {
            return Err(ValidationError::Integrity(String::from_str("invalid checksum")));
        }
        Ok(())
    }
}

/// The start positions of the year, month and day digit groups, for the
/// accepted date shapes: `YYYYMMDD`, `YYYY-MMDD`, `YYYYMM-DD`,
/// `YYYY-MM-DD`.
pub open spec fn date_groups(s: Seq<char>) -> Option<(int, int, int)> {
    if s.len() == 8 {
        Some((0int, 4int, 6int))
    } else if s.len() == 9 && s[4] == '-' {
        Some((0int, 5int, 7int))
    } else if s.len() == 9 && s[6] == '-' {
        Some((0int, 4int, 7int))
    } else if s.len() == 10 && s[4] == '-' && s[7] == '-' {
        Some((0int, 5int, 8int))
    } else {
        None
    }
}

/// An 8-digit date, optionally hyphen-segmented after the year and/or
/// the month: four year digits, two month digits, two day digits.
pub open spec fn date_format_ok(s: Seq<char>) -> bool {
    date_groups(s) matches Some((y, m, d)) && all_digits(s.subrange(y, y + 4)) && all_digits(
        s.subrange(m, m + 2),
    ) && all_digits(s.subrange(d, d + 2))
}

/// The year, month and day values of a well-formed date string.
pub open spec fn date_ymd(s: Seq<char>) -> (int, int, int) {
    let g = date_groups(s)->0;
    (
        digits_val(s.subrange(g.0, g.0 + 4)),
        digits_val(s.subrange(g.1, g.1 + 2)),
        digits_val(s.subrange(g.2, g.2 + 2)),
    )
}

/// Year in [1900, 2100], month in [1, 12], day in [1, 31]; no
/// calendar-day-count validation beyond these ranges.
pub open spec fn date_in_range(y: int, m: int, d: int) -> bool {
    1900 <= y <= 2100 && 1 <= m <= 12 && 1 <= d <= 31
}

/// A date string the validator accepts: well-formed and in range.
pub open spec fn date_valid(s: Seq<char>) -> bool {
    date_format_ok(s) && date_in_range(date_ymd(s).0, date_ymd(s).1, date_ymd(s).2)
}

/// Checks that the group at `from..from + width` is all digits and
/// parses its value.
fn digit_group(v: &Vec<char>, from: usize, width: usize) -> (r: Option<u32>)
    requires
        from + width <= v@.len(),
        width <= 8,
    ensures
        r is Some <==> all_digits(v@.subrange(from as int, from + width)),
        r matches Some(x) ==> x == digits_val(v@.subrange(from as int, from + width)),
{
    let _vlen = v.len();
    let end = from + width;
    let mut i: usize = from;
    while i < end
        invariant
            from <= i <= end,
            end == from + width,
            end <= v@.len(),
            forall|j: int| from <= j < i ==> is_digit_char(v@[j]),
        decreases end - i,
    {
        if !is_digit_c(v[i]) {
            proof {
                assert(!is_digit_char(v@.subrange(from as int, from + width)[i - from]));
            }
            return None;
        }
        i += 1;
    }
    proof {
        assert(forall|j: int|
            0 <= j < width ==> is_digit_char(#[trigger] v@.subrange(from as int, from + width)[j]));
    }
    Some(parse_digits_u32(v, from, from + width))
}

/// Date validation.
pub struct DateValidator;

impl DateValidator {
    /// `Ok` exactly when the string is an 8-digit date, optionally
    /// hyphen-segmented after the year and/or the month, with year in
    /// [1900, 2100], month in [1, 12] and day in [1, 31]; everything
    /// else is a format finding.
    pub fn validate(date: &str) -> (r: ValidationResult)
        ensures
            (r is Ok <==> date_valid(date@)),
            r matches Err(e) ==> date_finding(date@) == Option::Some((class_of(e), msg_of(e))),
    {
        let v = chars_of(date);
        let n = v.len();
        let (ys, ms, ds): (usize, usize, usize) = if n == 8 {
            (0, 4, 6)
        } else if n == 9 && v[4] == '-' {
            (0, 5, 7)
        } else if n == 9 && v[6] == '-' {
            (0, 4, 7)
        } else if n == 10 && v[4] == '-' && v[7] == '-' {
            (0, 5, 8)
        } else {
            return Err(ValidationError::Format(String::from_str("invalid date format")));
        };
        let year = digit_group(&v, ys, 4);
        let month = digit_group(&v, ms, 2);
        let day = digit_group(&v, ds, 2);
        match (year, month, day) {
            (Some(y), Some(m), Some(d)) => {
                if y < 1900 || y > 2100 {
                    Err(ValidationError::Format(String::from_str("invalid year")))
                } else if m < 1 || m > 12 {
                    Err(ValidationError::Format(String::from_str("invalid month")))
                } else if d < 1 || d > 31 {
                    Err(ValidationError::Format(String::from_str("invalid day")))
                } else {
                    Ok(())
                }
            },
            _ => Err(ValidationError::Format(String::from_str("invalid date format"))),
        }
    }
}

/// The condition a name must meet after trimming: non-empty, at most 200
/// characters, and free of denylisted characters.
pub open spec fn name_valid(t: Seq<char>) -> bool {
    1 <= t.len() <= 200 && !has_denylisted(t)
}

/// Name validation.
pub struct NameValidator;

impl NameValidator {
    /// After trimming whitespace: a denylisted character is a security
    /// finding, whatever the length; only then is an empty or over-long
    /// (more than 200 characters) name a format finding; otherwise `Ok`.
    pub fn validate(name: &str) -> (r: ValidationResult)
        ensures
            match r {
                Ok(()) => name_valid(trim_spec(name@)),
                Err(e) => name_finding(name@) == Option::Some((class_of(e), msg_of(e))),
            },
            (r is Ok <==> name_finding(name@) is None),
            has_denylisted(trim_spec(name@)) ==> (r matches Err(e) && class_of(e)
                == FindingClass::Security),
    {
        let v = chars_of(name);
        let t = trim_chars(&v);
        if contains_denylisted(&t) {
            return Err(ValidationError::Security(String::from_str("contains suspicious characters")));
        }
        if t.len() == 0 {
            return Err(ValidationError::Format(String::from_str("name cannot be empty")));
        }
        if t.len() > 200 {
            return Err(ValidationError::Format(String::from_str("name too long")));
        }
        Ok(())
    }
}

/// The two accepted sex codes.
pub open spec fn gender_valid(t: Seq<char>) -> bool {
    t =~= seq!['1'] || t =~= seq!['2']
}

/// Sex-code validation.
pub struct GenderValidator;

impl GenderValidator {
    /// `Ok` exactly when the trimmed string is the literal `1` or `2`;
    /// everything else is a format finding.
    pub fn validate(gender: &str) -> (r: ValidationResult)
        ensures
            (r is Ok <==> gender_valid(trim_spec(gender@))),
            r matches Err(e) ==> gender_finding(gender@) == Option::Some((class_of(e), msg_of(e))),
    {
        let v = chars_of(gender);
        let t = trim_chars(&v);
        if t.len() == 1 && (t[0] == '1' || t[0] == '2') {
            proof {
                assert(t@ =~= seq![t@[0]]);
            }
            Ok(())
        } else {
            proof {
                if t@.len() == 1 {
                    assert(t@ =~= seq![t@[0]]);
                }
            }
            Err(ValidationError::Format(String::from_str("invalid gender code: expected '1' or '2'")))
        }
    }
}

/// The condition an address must meet after trimming: non-empty, at most
/// 500 characters, and free of denylisted characters.
pub open spec fn address_valid(t: Seq<char>) -> bool {
    1 <= t.len() <= 500 && !has_denylisted(t)
}

/// Address validation.
pub struct AddressValidator;

impl AddressValidator {
    /// After trimming whitespace: a denylisted character is a security
    /// finding, whatever the length; only then is an empty or over-long
    /// (more than 500 characters) address a format finding; otherwise
    /// `Ok`.
    pub fn validate(address: &str) -> (r: ValidationResult)
        ensures
            match r {
                Ok(()) => address_valid(trim_spec(address@)),
                Err(e) => address_finding(address@) == Option::Some((class_of(e), msg_of(e))),
            },
            (r is Ok <==> address_finding(address@) is None),
            has_denylisted(trim_spec(address@)) ==> (r matches Err(e) && class_of(e)
                == FindingClass::Security),
    {
        let v = chars_of(address);
        let t = trim_chars(&v);
        if contains_denylisted(&t) {
            return Err(ValidationError::Security(String::from_str("contains suspicious characters")));
        }
        if t.len() == 0 {
            return Err(ValidationError::Format(String::from_str("address cannot be empty")));
        }
        if t.len() > 500 {
            return Err(ValidationError::Format(String::from_str("address too long")));
        }
        Ok(())
    }
}

/// The finding, if any, for a citizen identifier field: its
/// classification and its message.
pub open spec fn citizen_id_finding(s: Seq<char>) -> Option<(FindingClass, Seq<char>)> {
    let t = trim_spec(s);
    if t.len() != 13 {
        Some((FindingClass::Format, "invalid length: expected 13 digits"@))
    } else if !all_digits(t) {
        Some((FindingClass::Format, "contains non-digit characters"@))
    } else if !checksum_ok(t) {
        Some((FindingClass::Integrity, "invalid checksum"@))
    } else {
        None
    }
}

/// The finding, if any, for a date field: a malformed string, then a
/// year, month or day out of range.
pub open spec fn date_finding(s: Seq<char>) -> Option<(FindingClass, Seq<char>)> {
    if !date_format_ok(s) {
        Some((FindingClass::Format, "invalid date format"@))
    } else if date_ymd(s).0 < 1900 || date_ymd(s).0 > 2100 {
        Some((FindingClass::Format, "invalid year"@))
    } else if date_ymd(s).1 < 1 || date_ymd(s).1 > 12 {
        Some((FindingClass::Format, "invalid month"@))
    } else if date_ymd(s).2 < 1 || date_ymd(s).2 > 31 {
        Some((FindingClass::Format, "invalid day"@))
    } else {
        None
    }
}

/// The finding, if any, for a name field: a denylisted character is a
/// security finding whatever the length; only then do the emptiness and
/// length limits count.
pub open spec fn name_finding(s: Seq<char>) -> Option<(FindingClass, Seq<char>)> {
    let t = trim_spec(s);
    if has_denylisted(t) {
        Some((FindingClass::Security, "contains suspicious characters"@))
    } else if t.len() == 0 {
        Some((FindingClass::Format, "name cannot be empty"@))
    } else if t.len() > 200 {
        Some((FindingClass::Format, "name too long"@))
    } else {
        None
    }
}

/// The finding, if any, for a sex-code field.
pub open spec fn gender_finding(s: Seq<char>) -> Option<(FindingClass, Seq<char>)> {
    if gender_valid(trim_spec(s)) {
        None
    } else {
        Some((FindingClass::Format, "invalid gender code: expected '1' or '2'"@))
    }
}

/// The finding, if any, for an address field: a denylisted character is
/// a security finding whatever the length; only then do the emptiness
/// and length limits count.
pub open spec fn address_finding(s: Seq<char>) -> Option<(FindingClass, Seq<char>)> {
    let t = trim_spec(s);
    if has_denylisted(t) {
        Some((FindingClass::Security, "contains suspicious characters"@))
    } else if t.len() == 0 {
        Some((FindingClass::Format, "address cannot be empty"@))
    } else if t.len() > 500 {
        Some((FindingClass::Format, "address too long"@))
    } else {
        None
    }
}

/// The label, classification and message of each entry of a finding list.
pub open spec fn findings_view(r: Seq<(String, ValidationError)>) -> Seq<
    (Seq<char>, FindingClass, Seq<char>),
> {
    r.map_values(|p: (String, ValidationError)| (p.0@, class_of(p.1), msg_of(p.1)))
}

/// The entries an optional field contributes: nothing when the field is
/// absent or its finding is `None`, else one labelled entry.
pub open spec fn labelled(
    label: Seq<char>,
    o: Option<Seq<char>>,
    f: spec_fn(Seq<char>) -> Option<(FindingClass, Seq<char>)>,
) -> Seq<(Seq<char>, FindingClass, Seq<char>)> {
    match o {
        Option::None => Seq::empty(),
        Option::Some(s) => match f(s) {
            Option::None => Seq::empty(),
            Option::Some(c) => seq![(label, c.0, c.1)],
        },
    }
}

/// The view of an optional string.
pub open spec fn o_view(o: Option<&str>) -> Option<Seq<char>> {
    match o {
        Option::None => Option::None,
        Option::Some(s) => Option::Some(s@),
    }
}

/// The full list of findings that `CardDataValidator::validate_all`
/// returns, in field order.
pub open spec fn expected_findings(
    citizen_id: Option<Seq<char>>,
    birth_date: Option<Seq<char>>,
    issue_date: Option<Seq<char>>,
    expire_date: Option<Seq<char>>,
    gender: Option<Seq<char>>,
    thai_name: Option<Seq<char>>,
    english_name: Option<Seq<char>>,
    address: Option<Seq<char>>,
) -> Seq<(Seq<char>, FindingClass, Seq<char>)> {
    labelled("Citizen ID"@, citizen_id, |s: Seq<char>| citizen_id_finding(s)) + labelled(
        "Birth date"@,
        birth_date,
        |s: Seq<char>| date_finding(s),
    ) + labelled("Issue date"@, issue_date, |s: Seq<char>| date_finding(s)) + labelled(
        "Expire date"@,
        expire_date,
        |s: Seq<char>| date_finding(s),
    ) + labelled("Gender"@, gender, |s: Seq<char>| gender_finding(s)) + labelled(
        "Thai name"@,
        thai_name,
        |s: Seq<char>| name_finding(s),
    ) + labelled("English name"@, english_name, |s: Seq<char>| name_finding(s)) + labelled(
        "Address"@,
        address,
        |s: Seq<char>| address_finding(s),
    )
}

/// Whether a finding list holds a security finding.
pub open spec fn any_security(fs: Seq<(Seq<char>, FindingClass, Seq<char>)>) -> bool {
    exists|i: int| 0 <= i < fs.len() && fs[i].1 == FindingClass::Security
}

fn push_citizen_finding(errors: &mut Vec<(String, ValidationError)>, field: Option<&str>)
    ensures
        findings_view(final(errors)@) == findings_view(old(errors)@) + labelled(
            "Citizen ID"@,
            o_view(field),
            |s: Seq<char>| citizen_id_finding(s),
        ),
{
    let ghost before = errors@;
    if let Some(s) = field {
        if let Err(e) = ThaiCitizenIdValidator::validate(s) {
            errors.push((String::from_str("Citizen ID"), e));
            proof {
                assert(findings_view(errors@) =~= findings_view(before) + seq![
                    ("Citizen ID"@, class_of(e), msg_of(e)),
                ]);
            }
            return ;
        }
    }
    proof {
        assert(findings_view(errors@) =~= findings_view(before) + Seq::empty());
    }
}

fn push_date_finding(errors: &mut Vec<(String, ValidationError)>, label: &str, field: Option<&str>)
    ensures
        findings_view(final(errors)@) == findings_view(old(errors)@) + labelled(
            label@,
            o_view(field),
            |s: Seq<char>| date_finding(s),
        ),
{
    let ghost before = errors@;
    if let Some(s) = field {
        if let Err(e) = DateValidator::validate(s) {
            errors.push((label.to_owned(), e));
            proof {
                assert(findings_view(errors@) =~= findings_view(before) + seq![
                    (label@, class_of(e), msg_of(e)),
                ]);
            }
            return ;
        }
    }
    proof {
        assert(findings_view(errors@) =~= findings_view(before) + Seq::empty());
    }
}

fn push_gender_finding(errors: &mut Vec<(String, ValidationError)>, field: Option<&str>)
    ensures
        findings_view(final(errors)@) == findings_view(old(errors)@) + labelled(
            "Gender"@,
            o_view(field),
            |s: Seq<char>| gender_finding(s),
        ),
{
    let ghost before = errors@;
    if let Some(s) = field {
        if let Err(e) = GenderValidator::validate(s) {
            errors.push((String::from_str("Gender"), e));
            proof {
                assert(findings_view(errors@) =~= findings_view(before) + seq![
                    ("Gender"@, class_of(e), msg_of(e)),
                ]);
            }
            return ;
        }
    }
    proof {
        assert(findings_view(errors@) =~= findings_view(before) + Seq::empty());
    }
}

fn push_name_finding(errors: &mut Vec<(String, ValidationError)>, label: &str, field: Option<&str>)
    ensures
        findings_view(final(errors)@) == findings_view(old(errors)@) + labelled(
            label@,
            o_view(field),
            |s: Seq<char>| name_finding(s),
        ),
{
    let ghost before = errors@;
    if let Some(s) = field {
        if let Err(e) = NameValidator::validate(s) {
            errors.push((label.to_owned(), e));
            proof {
                assert(findings_view(errors@) =~= findings_view(before) + seq![
                    (label@, class_of(e), msg_of(e)),
                ]);
            }
            return ;
        }
    }
    proof {
        assert(findings_view(errors@) =~= findings_view(before) + Seq::empty());
    }
}

fn push_address_finding(errors: &mut Vec<(String, ValidationError)>, field: Option<&str>)
    ensures
        findings_view(final(errors)@) == findings_view(old(errors)@) + labelled(
            "Address"@,
            o_view(field),
            |s: Seq<char>| address_finding(s),
        ),
{
    let ghost before = errors@;
    if let Some(s) = field {
        if let Err(e) = AddressValidator::validate(s) {
            errors.push((String::from_str("Address"), e));
            proof {
                assert(findings_view(errors@) =~= findings_view(before) + seq![
                    ("Address"@, class_of(e), msg_of(e)),
                ]);
            }
            return ;
        }
    }
    proof {
        assert(findings_view(errors@) =~= findings_view(before) + Seq::empty());
    }
}

/// Validation of a whole record.
pub struct CardDataValidator;

impl CardDataValidator {
    /// Validates every provided field and returns the labelled findings,
    /// in field order: exactly the findings of `expected_findings`.
    pub fn validate_all(
        citizen_id: Option<&str>,
        birth_date: Option<&str>,
        issue_date: Option<&str>,
        expire_date: Option<&str>,
        gender: Option<&str>,
        thai_name: Option<&str>,
        english_name: Option<&str>,
        address: Option<&str>,
    ) -> (r: Vec<(String, ValidationError)>)
        ensures
            findings_view(r@) == expected_findings(
                o_view(citizen_id),
                o_view(birth_date),
                o_view(issue_date),
                o_view(expire_date),
                o_view(gender),
                o_view(thai_name),
                o_view(english_name),
                o_view(address),
            ),
    {
        let mut errors: Vec<(String, ValidationError)> = Vec::new();
        proof {
            assert(findings_view(errors@) =~= Seq::empty());
        }
        push_citizen_finding(&mut errors, citizen_id);
        push_date_finding(&mut errors, "Birth date", birth_date);
        push_date_finding(&mut errors, "Issue date", issue_date);
        push_date_finding(&mut errors, "Expire date", expire_date);
        push_gender_finding(&mut errors, gender);
        push_name_finding(&mut errors, "Thai name", thai_name);
        push_name_finding(&mut errors, "English name", english_name);
        push_address_finding(&mut errors, address);
        proof {
            assert(findings_view(errors@) =~= expected_findings(
                o_view(citizen_id),
                o_view(birth_date),
                o_view(issue_date),
                o_view(expire_date),
                o_view(gender),
                o_view(thai_name),
                o_view(english_name),
                o_view(address),
            ));
        }
        errors
    }
}

} // verus!
