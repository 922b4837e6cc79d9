//! Configuration data consumed by the card-reading and distribution
//! logic: output field shaping, security settings, and the card protocol
//! surface (command byte strings supplied as hex text).
//!
//! Loading and merging from file and environment is an I/O concern and
//! lives outside the library; the types here hold the resolved values.

use vstd::prelude::*;
use crate::text::str_eq;

verus! {

/// A hexadecimal digit.
pub open spec fn is_hex_digit(c: char) -> bool {
    ('0' <= c && c <= '9') || ('a' <= c && c <= 'f') || ('A' <= c && c <= 'F')
}

/// Value of a hexadecimal digit.
pub open spec fn hex_val(c: char) -> int {
    if '0' <= c && c <= '9' {
        c as int - '0' as int
    } else if 'a' <= c && c <= 'f' {
        c as int - 'a' as int + 10
    } else {
        c as int - 'A' as int + 10
    }
}

/// The string with every space removed.
pub open spec fn strip_spaces(s: Seq<char>) -> Seq<char>
    decreases s.len(),
{
    if s.len() == 0 {
        Seq::empty()
    } else if s.last() == ' ' {
        strip_spaces(s.drop_last())
    } else {
        strip_spaces(s.drop_last()).push(s.last())
    }
}

/// The bytes encoded by consecutive pairs of hex digits; a pair with a
/// non-hex character is skipped, and a trailing lone character ignored.
pub open spec fn hex_pairs(s: Seq<char>) -> Seq<u8>
    decreases s.len(),
{
    if s.len() < 2 {
        Seq::empty()
    } else if is_hex_digit(s[0]) && is_hex_digit(s[1]) {
        seq![(hex_val(s[0]) * 16 + hex_val(s[1])) as u8] + hex_pairs(s.skip(2))
    } else {
        hex_pairs(s.skip(2))
    }
}

/// A hex byte string decoded by stripping spaces and parsing pair by pair.
pub open spec fn hex_bytes_spec(s: Seq<char>) -> Seq<u8> {
    hex_pairs(strip_spaces(s))
}

fn is_hex_digit_c(c: char) -> (b: bool)
    ensures
        b == is_hex_digit(c),
{
    ('0' <= c && c <= '9') || ('a' <= c && c <= 'f') || ('A' <= c && c <= 'F')
}

fn hex_val_c(c: char) -> (v: u8)
    requires
        is_hex_digit(c),
    ensures
        v == hex_val(c),
{
    if '0' <= c && c <= '9' {
        (c as u32 - 48) as u8
    } else if 'a' <= c && c <= 'f' {
        (c as u32 - 97 + 10) as u8
    } else {
        (c as u32 - 65 + 10) as u8
    }
}

/// Converts a hex string to bytes: spaces are stripped, then every pair
/// of hex digits yields one byte; other pairs are skipped.
pub fn hex_to_bytes(hex: &str) -> (r: Vec<u8>)
    ensures
        r@ == hex_bytes_spec(hex@),
{
    let v = crate::text::chars_of(hex);
    let mut t: Vec<char> = Vec::new();
    let mut i: usize = 0;
    proof {
        assert(v@.take(0) =~= Seq::<char>::empty());
    }
    while i < v.len()
        invariant
            i <= v@.len(),
            t@ == strip_spaces(v@.take(i as int)),
        decreases v@.len() - i,
    {
        let c = v[i];
        proof {
            assert(v@.take(i + 1 as int).drop_last() =~= v@.take(i as int));
            assert(v@.take(i + 1 as int).last() == c);
        }
        if c != ' ' {
            t.push(c);
        }
        i += 1;
    }
    proof {
        assert(v@.take(v@.len() as int) =~= v@);
    }
    let n = t.len();
    let mut r: Vec<u8> = Vec::new();
    let mut j: usize = 0;
    proof {
        assert(t@.skip(0) =~= t@);
    }
    while n - j >= 2
        invariant
            j <= n,
            n == t@.len(),
            hex_pairs(t@) == r@ + hex_pairs(t@.skip(j as int)),
        decreases n - j,
    {
        let c0 = t[j];
        let c1 = t[j + 1];
        proof {
            let u = t@.skip(j as int);
            assert(u[0] == c0 && u[1] == c1);
            assert(u.skip(2) =~= t@.skip(j + 2 as int));
        }
        if is_hex_digit_c(c0) && is_hex_digit_c(c1) {
            let b: u8 = hex_val_c(c0) * 16 + hex_val_c(c1);
            r.push(b);
            proof {
                let u = t@.skip(j as int);
                assert(hex_pairs(u) =~= seq![b] + hex_pairs(t@.skip(j + 2 as int)));
                assert(r@ + hex_pairs(t@.skip(j + 2 as int)) =~= (r@.drop_last() + (seq![b]
                    + hex_pairs(t@.skip(j + 2 as int)))));
            }
        }
        j += 2;
    }
    proof {
        assert(hex_pairs(t@.skip(j as int)) =~= Seq::<u8>::empty());
        assert(r@ =~= r@ + Seq::<u8>::empty());
    }
    r
}

/// Kept as the serde default marker used by the configuration surface.
pub fn default_true() -> (b: bool)
    ensures
        b,
{
    true
}

/// The output shaping format.
#[derive(Debug, Clone, Copy, PartialEq, Eq, Structural)]
pub enum OutputFormat {
    /// All fields.
    Standard,
    /// Essential fields only.
    Minimal,
    /// All fields plus metadata.
    Full,
}

impl Default for OutputFormat {
    fn default() -> (r: Self)
        ensures
            r == OutputFormat::Standard,
    {
        OutputFormat::Standard
    }
}

impl OutputFormat {
    /// The lowercase name of the format.
    pub fn to_string(&self) -> (r: String)
        ensures
            self is Standard ==> r@ == "standard"@,
            self is Minimal ==> r@ == "minimal"@,
            self is Full ==> r@ == "full"@,
    {
        match self {
            OutputFormat::Standard => String::from_str("standard"),
            OutputFormat::Minimal => String::from_str("minimal"),
            OutputFormat::Full => String::from_str("full"),
        }
    }
}

/// Whether a string occurs in a list of strings.
pub open spec fn seq_has_str(xs: Seq<String>, s: Seq<char>) -> bool {
    exists|i: int| 0 <= i < xs.len() && xs[i]@ == s
}

fn vec_has_str(xs: &Vec<String>, s: &str) -> (r: bool)
    ensures
        r == seq_has_str(xs@, s@),
{
    let mut i: usize = 0;
    while i < xs.len()
        invariant
            i <= xs@.len(),
            forall|j: int| 0 <= j < i ==> xs@[j]@ != s@,
        decreases xs@.len() - i,
    {
        if str_eq(xs[i].as_str(), s) {
            return true;
        }
        i += 1;
    }
    false
}

/// First value mapped to a key in an association list.
pub open spec fn assoc_lookup(m: Seq<(String, String)>, k: Seq<char>) -> Option<Seq<char>>
    decreases m.len(),
{
    if m.len() == 0 {
        Option::None
    } else if m[0].0@ == k {
        Option::Some(m[0].1@)
    } else {
        assoc_lookup(m.drop_first(), k)
    }
}

/// Output shaping: which fields are included and under what names.
#[derive(Debug, Clone)]
pub struct OutputConfig {
    /// Output format type.
    pub format: OutputFormat,
    /// Include the base64-encoded photo in output.
    pub include_photo: bool,
    /// Field name mappings, original name to output name.
    pub field_mapping: Vec<(String, String)>,
    /// Fields to include; empty means all fields.
    pub enabled_fields: Vec<String>,
}

impl Default for OutputConfig {
    fn default() -> (r: Self)
        ensures
            r.format == OutputFormat::Standard,
            r.include_photo,
            r.field_mapping@.len() == 0,
            r.enabled_fields@.len() == 0,
    {
        OutputConfig {
            format: OutputFormat::Standard,
            include_photo: true,
            field_mapping: Vec::new(),
            enabled_fields: Vec::new(),
        }
    }
}

/// Whether a field is part of the output under this configuration.
pub open spec fn field_enabled(c: OutputConfig, field: Seq<char>) -> bool {
    c.enabled_fields@.len() == 0 || seq_has_str(c.enabled_fields@, field)
}

/// The output name of a field under this configuration.
pub open spec fn output_name(c: OutputConfig, original: Seq<char>) -> Seq<char> {
    match assoc_lookup(c.field_mapping@, original) {
        Option::Some(mapped) => mapped,
        Option::None => original,
    }
}

impl OutputConfig {
    /// A field is included when the enabled list is empty (all fields)
    /// or names it.
    pub fn is_field_enabled(&self, field: &str) -> (r: bool)
        ensures
            r == field_enabled(*self, field@),
    {
        self.enabled_fields.len() == 0 || vec_has_str(&self.enabled_fields, field)
    }

    /// The mapped output name of a field, or the original name when no
    /// mapping is configured for it.
    pub fn get_field_name(&self, original: &str) -> (r: String)
        ensures
            r@ == output_name(*self, original@),
    {
        let mut i: usize = 0;
        proof {
            assert(self.field_mapping@.skip(0) =~= self.field_mapping@);
        }
        while i < self.field_mapping.len()
            invariant
                i <= self.field_mapping@.len(),
                assoc_lookup(self.field_mapping@, original@) == assoc_lookup(
                    self.field_mapping@.skip(i as int),
                    original@,
                ),
        decreases self.field_mapping@.len() - i,
        {
            proof {
                assert(self.field_mapping@.skip(i as int).drop_first() =~= self.field_mapping@.skip(
                    i + 1 as int,
                ));
            }
            if str_eq(self.field_mapping[i].0.as_str(), original) {
                return self.field_mapping[i].1.clone();
            }
            i += 1;
        }
        original.to_owned()
    }
}

/// Security settings for the distribution surface.
#[derive(Debug, Clone)]
pub struct SecurityConfig {
    /// Require an API key on new subscriber connections.
    pub enable_authentication: bool,
    /// The resolved list of valid API keys.
    pub api_keys: Vec<String>,
    /// Name of the header carrying the API key.
    pub api_key_header: String,
    /// Encrypt sensitive fields before transmission.
    pub enable_encryption: bool,
    /// Fields to encrypt; empty means every field.
    pub encrypted_fields: Vec<String>,
    /// Admission control per source address.
    pub enable_rate_limiting: bool,
    /// Maximum requests per window and source.
    pub rate_limit_requests: u32,
    /// Rate limiting window, in seconds.
    pub rate_limit_window_secs: u64,
    /// Maximum concurrent connections per source.
    pub rate_limit_max_connections: u32,
    /// Emit audit events.
    pub enable_audit_logging: bool,
}

/// Whether a key is accepted: always when authentication is off;
/// otherwise the key must be one of the configured keys, and an empty
/// key list accepts nothing.
pub open spec fn key_valid(c: SecurityConfig, key: Seq<char>) -> bool {
    if !c.enable_authentication {
        true
    } else if c.api_keys@.len() == 0 {
        false
    } else {
        seq_has_str(c.api_keys@, key)
    }
}

/// Whether a field is encrypted before transmission: only when
/// encryption is on, and then either the encrypted list names it or the
/// list is empty, which selects every field.
pub open spec fn field_encrypted(c: SecurityConfig, field: Seq<char>) -> bool {
    c.enable_encryption && (c.encrypted_fields@.len() == 0 || seq_has_str(
        c.encrypted_fields@,
        field,
    ))
}

impl Default for SecurityConfig {
    fn default() -> (r: Self)
        ensures
            !r.enable_authentication,
            r.api_keys@.len() == 0,
            r.api_key_header@ == "X-API-Key"@,
            !r.enable_encryption,
            r.encrypted_fields@.len() == 5,
            r.encrypted_fields@[0]@ == "Citizenid"@,
            r.encrypted_fields@[1]@ == "Th_Firstname"@,
            r.encrypted_fields@[2]@ == "Th_Lastname"@,
            r.encrypted_fields@[3]@ == "full_name_en"@,
            r.encrypted_fields@[4]@ == "Address"@,
            !r.enable_rate_limiting,
            r.rate_limit_requests == 60,
            r.rate_limit_window_secs == 60,
            r.rate_limit_max_connections == 5,
            !r.enable_audit_logging,
    {
        let mut encrypted_fields: Vec<String> = Vec::new();
        encrypted_fields.push(String::from_str("Citizenid"));
        encrypted_fields.push(String::from_str("Th_Firstname"));
        encrypted_fields.push(String::from_str("Th_Lastname"));
        encrypted_fields.push(String::from_str("full_name_en"));
        encrypted_fields.push(String::from_str("Address"));
        SecurityConfig {
            enable_authentication: false,
            api_keys: Vec::new(),
            api_key_header: String::from_str("X-API-Key"),
            enable_encryption: false,
            encrypted_fields,
            enable_rate_limiting: false,
            rate_limit_requests: 60,
            rate_limit_window_secs: 60,
            rate_limit_max_connections: 5,
            enable_audit_logging: false,
        }
    }
}

impl SecurityConfig {
    /// Whether a presented key is accepted, per `key_valid`.
    pub fn is_valid_key(&self, key: &str) -> (r: bool)
        ensures
            r == key_valid(*self, key@),
    {
        if !self.enable_authentication {
            return true;
        }
        if self.api_keys.len() == 0 {
            return false;
        }
        vec_has_str(&self.api_keys, key)
    }

    /// Whether a field is encrypted before transmission, per
    /// `field_encrypted`.
    pub fn should_encrypt_field(&self, field_name: &str) -> (r: bool)
        ensures
            r == field_encrypted(*self, field_name@),
    {
        if !self.enable_encryption {
            return false;
        }
        if self.encrypted_fields.len() == 0 {
            return true;
        }
        vec_has_str(&self.encrypted_fields, field_name)
    }
}

/// Logging settings: the sink's level name.
#[derive(Debug, Clone)]
pub struct LoggingConfig {
    /// Log level: trace, debug, info, warn, error.
    pub level: String,
}

impl Default for LoggingConfig {
    fn default() -> (r: Self)
        ensures
            r.level@ == "info"@,
    {
        LoggingConfig { level: String::from_str("info") }
    }
}

/// Font discovery settings for the display collaborator.
#[derive(Debug, Clone)]
pub struct FontConfig {
    /// Custom font paths, checked first.
    pub custom_paths: Vec<String>,
    /// Search system fonts when no custom font is found.
    pub use_system_fonts: bool,
}

impl Default for FontConfig {
    fn default() -> (r: Self)
        ensures
            r.custom_paths@.len() == 0,
            r.use_system_fonts,
    {
        FontConfig { custom_paths: Vec::new(), use_system_fonts: true }
    }
}

/// One field-read command: a name and its command bytes as hex text.
#[derive(Debug, Clone)]
pub struct ApduCommand {
    /// Field name this command reads.
    pub name: String,
    /// Command bytes as a hex string.
    pub apdu: String,
    /// Whether the field is required (reserved for validation logic).
    pub required: bool,
}

impl ApduCommand {
    /// The command bytes: the hex string decoded.
    pub fn to_bytes(&self) -> (r: Vec<u8>)
        ensures
            r@ == hex_bytes_spec(self.apdu@),
    {
        hex_to_bytes(self.apdu.as_str())
    }
}

/// First command whose name matches, if any.
pub open spec fn find_field_spec(fields: Seq<ApduCommand>, name: Seq<char>) -> Option<ApduCommand>
    decreases fields.len(),
{
    if fields.len() == 0 {
        Option::None
    } else if fields[0].name@ == name {
        Option::Some(fields[0])
    } else {
        find_field_spec(fields.drop_first(), name)
    }
}

/// The card protocol surface: selection command, field-read commands,
/// photo chunk commands, and retry timing.
#[derive(Debug, Clone)]
pub struct CardConfig {
    /// Application-selection command as a hex string.
    pub select_apdu: String,
    /// Field-read commands.
    pub fields: Vec<ApduCommand>,
    /// Photo chunk commands as hex strings, in issuance order.
    pub photo_chunks: Vec<String>,
    /// Number of connection retry attempts.
    pub retry_attempts: u8,
    /// Delay between retries, in milliseconds.
    pub retry_delay_ms: u64,
    /// Delay after card insertion before reading, in milliseconds.
    pub card_settle_delay_ms: u64,
}

/// The built-in card protocol surface: the identity application's
/// selection command, its field-read commands, and twenty photo chunk
/// commands, with the stock retry timing.
pub open spec fn is_default_card_config(c: CardConfig) -> bool {
    &&& c.select_apdu@ == "00A4040008A000000054480001"@
    &&& c.fields@.len() == 9
    &&& c.fields@[0].name@ == "citizen_id"@ && c.fields@[0].apdu@ == "80B0000402000D"@
        && c.fields@[0].required
    &&& c.fields@[1].name@ == "full_name_th"@ && c.fields@[1].apdu@ == "80B00011020064"@
        && c.fields@[1].required
    &&& c.fields@[2].name@ == "full_name_en"@ && c.fields@[2].apdu@ == "80B00075020064"@
        && c.fields@[2].required
    &&& c.fields@[3].name@ == "date_of_birth"@ && c.fields@[3].apdu@ == "80B000D9020008"@
        && c.fields@[3].required
    &&& c.fields@[4].name@ == "gender"@ && c.fields@[4].apdu@ == "80B000E1020001"@
        && c.fields@[4].required
    &&& c.fields@[5].name@ == "card_issuer"@ && c.fields@[5].apdu@ == "80B000F6020064"@
        && !c.fields@[5].required
    &&& c.fields@[6].name@ == "issue_date"@ && c.fields@[6].apdu@ == "80B00167020008"@
        && c.fields@[6].required
    &&& c.fields@[7].name@ == "expire_date"@ && c.fields@[7].apdu@ == "80B0016F020008"@
        && c.fields@[7].required
    &&& c.fields@[8].name@ == "address"@ && c.fields@[8].apdu@ == "80B015790200FF"@
        && !c.fields@[8].required
    &&& c.photo_chunks@.len() == 20
    &&& c.photo_chunks@[0]@ == "80B0017B0200FF"@
    &&& c.photo_chunks@[1]@ == "80B0027A0200FF"@
    &&& c.photo_chunks@[2]@ == "80B003790200FF"@
    &&& c.photo_chunks@[3]@ == "80B004780200FF"@
    &&& c.photo_chunks@[4]@ == "80B005770200FF"@
    &&& c.photo_chunks@[5]@ == "80B006760200FF"@
    &&& c.photo_chunks@[6]@ == "80B007750200FF"@
    &&& c.photo_chunks@[7]@ == "80B008740200FF"@
    &&& c.photo_chunks@[8]@ == "80B009730200FF"@
    &&& c.photo_chunks@[9]@ == "80B00A720200FF"@
    &&& c.photo_chunks@[10]@ == "80B00B710200FF"@
    &&& c.photo_chunks@[11]@ == "80B00C700200FF"@
    &&& c.photo_chunks@[12]@ == "80B00D6F0200FF"@
    &&& c.photo_chunks@[13]@ == "80B00E6E0200FF"@
    &&& c.photo_chunks@[14]@ == "80B00F6D0200FF"@
    &&& c.photo_chunks@[15]@ == "80B0106C0200FF"@
    &&& c.photo_chunks@[16]@ == "80B0116B0200FF"@
    &&& c.photo_chunks@[17]@ == "80B0126A0200FF"@
    &&& c.photo_chunks@[18]@ == "80B013690200FF"@
    &&& c.photo_chunks@[19]@ == "80B014680200FF"@
    &&& c.retry_attempts == 3
    &&& c.retry_delay_ms == 500
    &&& c.card_settle_delay_ms == 500
}

fn field_command(name: &str, apdu: &str, required: bool) -> (r: ApduCommand)
    ensures
        r.name@ == name@,
        r.apdu@ == apdu@,
        r.required == required,
{
    ApduCommand { name: name.to_owned(), apdu: apdu.to_owned(), required }
}

impl Default for CardConfig {
    fn default() -> (r: Self)
        ensures
            is_default_card_config(r),
    {
        let mut fields: Vec<ApduCommand> = Vec::new();
        fields.push(field_command("citizen_id", "80B0000402000D", true));
        fields.push(field_command("full_name_th", "80B00011020064", true));
        fields.push(field_command("full_name_en", "80B00075020064", true));
        fields.push(field_command("date_of_birth", "80B000D9020008", true));
        fields.push(field_command("gender", "80B000E1020001", true));
        fields.push(field_command("card_issuer", "80B000F6020064", false));
        fields.push(field_command("issue_date", "80B00167020008", true));
        fields.push(field_command("expire_date", "80B0016F020008", true));
        fields.push(field_command("address", "80B015790200FF", false));
        let mut photo_chunks: Vec<String> = Vec::new();
        photo_chunks.push(String::from_str("80B0017B0200FF"));
        photo_chunks.push(String::from_str("80B0027A0200FF"));
        photo_chunks.push(String::from_str("80B003790200FF"));
        photo_chunks.push(String::from_str("80B004780200FF"));
        photo_chunks.push(String::from_str("80B005770200FF"));
        photo_chunks.push(String::from_str("80B006760200FF"));
        photo_chunks.push(String::from_str("80B007750200FF"));
        photo_chunks.push(String::from_str("80B008740200FF"));
        photo_chunks.push(String::from_str("80B009730200FF"));
        photo_chunks.push(String::from_str("80B00A720200FF"));
        photo_chunks.push(String::from_str("80B00B710200FF"));
        photo_chunks.push(String::from_str("80B00C700200FF"));
        photo_chunks.push(String::from_str("80B00D6F0200FF"));
        photo_chunks.push(String::from_str("80B00E6E0200FF"));
        photo_chunks.push(String::from_str("80B00F6D0200FF"));
        photo_chunks.push(String::from_str("80B0106C0200FF"));
        photo_chunks.push(String::from_str("80B0116B0200FF"));
        photo_chunks.push(String::from_str("80B0126A0200FF"));
        photo_chunks.push(String::from_str("80B013690200FF"));
        photo_chunks.push(String::from_str("80B014680200FF"));
        CardConfig {
            select_apdu: String::from_str("00A4040008A000000054480001"),
            fields,
            photo_chunks,
            retry_attempts: 3,
            retry_delay_ms: 500,
            card_settle_delay_ms: 500,
        }
    }
}

impl CardConfig {
    /// The selection command bytes.
    pub fn select_apdu_bytes(&self) -> (r: Vec<u8>)
        ensures
            r@ == hex_bytes_spec(self.select_apdu@),
    {
        hex_to_bytes(self.select_apdu.as_str())
    }

    /// The photo chunk commands, each hex string decoded, in order.
    pub fn photo_chunk_bytes(&self) -> (r: Vec<Vec<u8>>)
        ensures
            crate::apdu::byte_views(r@) == self.photo_chunks@.map_values(
                |s: String| hex_bytes_spec(s@),
            ),
    {
        let mut r: Vec<Vec<u8>> = Vec::new();
        let mut i: usize = 0;
        while i < self.photo_chunks.len()
            invariant
                i <= self.photo_chunks@.len(),
                crate::apdu::byte_views(r@) == self.photo_chunks@.take(i as int).map_values(
                    |s: String| hex_bytes_spec(s@),
                ),
            decreases self.photo_chunks@.len() - i,
        {
            let b = hex_to_bytes(self.photo_chunks[i].as_str());
            let ghost prev = r@;
            r.push(b);
            proof {
                assert(crate::apdu::byte_views(r@) =~= crate::apdu::byte_views(prev).push(b@));
                assert(self.photo_chunks@.take(i + 1 as int).map_values(
                    |s: String| hex_bytes_spec(s@),
                ) =~= self.photo_chunks@.take(i as int).map_values(
                    |s: String| hex_bytes_spec(s@),
                ).push(hex_bytes_spec(self.photo_chunks@[i as int]@)));
            }
            i += 1;
        }
        proof {
            assert(self.photo_chunks@.take(self.photo_chunks@.len() as int) =~= self.photo_chunks@);
        }
        r
    }

    /// The field-read command with the given name, if configured.
    pub fn get_field(&self, name: &str) -> (r: Option<&ApduCommand>)
        ensures
            match r {
                Option::Some(c) => find_field_spec(self.fields@, name@) == Option::Some(*c),
                Option::None => find_field_spec(self.fields@, name@) is None,
            },
    {
        let mut i: usize = 0;
        proof {
            assert(self.fields@.skip(0) =~= self.fields@);
        }
        while i < self.fields.len()
            invariant
                i <= self.fields@.len(),
                find_field_spec(self.fields@, name@) == find_field_spec(
                    self.fields@.skip(i as int),
                    name@,
                ),
            decreases self.fields@.len() - i,
        {
            proof {
                assert(self.fields@.skip(i as int).drop_first() =~= self.fields@.skip(
                    i + 1 as int,
                ));
            }
            if str_eq(self.fields[i].name.as_str(), name) {
                return Some(&self.fields[i]);
            }
            i += 1;
        }
        None
    }
}

} // verus!
