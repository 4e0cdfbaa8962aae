//! Plugin SDK: the metadata a plugin reports, its JSON form and the plugin
//! lifecycle trait.

use crate::text::{contains_seq, contains_str, hex_digit, hex_digit_exec, is_blank, is_blank_str, is_control_char, push_char};
use vstd::prelude::*;
use vstd::string::*;

verus! {

/// What kind of functionality a plugin adds.
#[derive(Debug, Clone, Copy, PartialEq, Eq, Structural)]
pub enum PluginCategory {
    Ai,
    Subtitle,
    Tts,
    Template,
    Export,
    Utility,
}

/// The wire name of a category.
pub open spec fn category_name(c: PluginCategory) -> Seq<char> {
    match c {
        PluginCategory::Ai => "ai"@,
        PluginCategory::Subtitle => "subtitle"@,
        PluginCategory::Tts => "tts"@,
        PluginCategory::Template => "template"@,
        PluginCategory::Export => "export"@,
        PluginCategory::Utility => "utility"@,
    }
}

impl PluginCategory {
    pub fn as_str(self) -> (r: &'static str)
        ensures
            r@ == category_name(self),
    {
        match self {
            PluginCategory::Ai => "ai",
            PluginCategory::Subtitle => "subtitle",
            PluginCategory::Tts => "tts",
            PluginCategory::Template => "template",
            PluginCategory::Export => "export",
            PluginCategory::Utility => "utility",
        }
    }
}

/// Metadata a plugin reports about itself.
#[derive(Debug, Clone, PartialEq, Eq)]
pub struct PluginMetadata {
    pub name: String,
    pub version: String,
    pub category: PluginCategory,
    pub display_name: Option<String>,
    pub description: Option<String>,
}

/// An invalid metadata record, with a human readable message.
#[derive(Debug, Clone, PartialEq, Eq)]
pub struct MetadataError {
    message: String,
}

impl View for MetadataError {
    type V = Seq<char>;

    closed spec fn view(&self) -> Seq<char> {
        self.message@
    }
}

/// Message for a required field that is blank.
pub open spec fn required_message(field: Seq<char>) -> Seq<char> {
    "metadata `"@ + field + "` is required"@
}

/// Message for a field missing from a metadata document.
pub open spec fn missing_message(field: Seq<char>) -> Seq<char> {
    "metadata missing `"@ + field + "`"@
}

impl MetadataError {
    fn new(message: String) -> (r: Self)
        ensures
            r@ == message@,
    {
        MetadataError { message }
    }

    /// The message of the error.
    pub fn to_string(&self) -> (r: String)
        ensures
            r@ == self@,
    {
        self.message.clone()
    }
}

/// Outcome of validating the required fields of a metadata record.
pub open spec fn metadata_check(name: Seq<char>, version: Seq<char>) -> Result<(), Seq<char>> {
    if is_blank(name) {
        Err(required_message("name"@))
    } else if is_blank(version) {
        Err(required_message("version"@))
    } else {
        Ok(())
    }
}

/// JSON string literal escaping of one character.
pub open spec fn escape_char(c: char) -> Seq<char> {
    if c == '"' {
        seq!['\\', '"']
    } else if c == '\\' {
        seq!['\\', '\\']
    } else if c == '\n' {
        seq!['\\', 'n']
    } else if c == '\r' {
        seq!['\\', 'r']
    } else if c == '\t' {
        seq!['\\', 't']
    } else if is_control_char(c) {
        let n = c as u32 as nat;
        seq!['\\', 'u', hex_digit(n / 4096 % 16), hex_digit(n / 256 % 16), hex_digit(n / 16 % 16), hex_digit(n % 16)]
    } else {
        seq![c]
    }
}

/// JSON string literal escaping of a text.
pub open spec fn escape_json_spec(s: Seq<char>) -> Seq<char>
    decreases s.len(),
{
    if s.len() == 0 {
        Seq::empty()
    } else {
        escape_json_spec(s.drop_last()) + escape_char(s.last())
    }
}

/// `"key":"value"` with both sides escaped.
pub open spec fn json_field_spec(key: Seq<char>, value: Seq<char>) -> Seq<char> {
    "\""@ + escape_json_spec(key) + "\":\""@ + escape_json_spec(value) + "\""@
}

/// `,` followed by the field, when the value is present.
pub open spec fn optional_field(key: Seq<char>, value: Option<String>) -> Seq<char> {
    match value {
        Some(v) => ","@ + json_field_spec(key, v@),
        None => Seq::empty(),
    }
}

/// The JSON document of a valid metadata record.
pub open spec fn metadata_json(m: PluginMetadata) -> Seq<char> {
    "{"@ + json_field_spec("name"@, m.name@) + ","@ + json_field_spec("version"@, m.version@) + ","@
        + json_field_spec("category"@, category_name(m.category)) + optional_field(
        "display_name"@,
        m.display_name,
    ) + optional_field("description"@, m.description) + "}"@
}

impl PluginMetadata {
    pub fn new(name: &str, version: &str, category: PluginCategory) -> (r: Self)
        ensures
            r.name@ == name@,
            r.version@ == version@,
            r.category == category,
            r.display_name is None,
            r.description is None,
    {
        PluginMetadata {
            name: name.to_owned(),
            version: version.to_owned(),
            category,
            display_name: None,
            description: None,
        }
    }

    pub fn display_name(self, value: &str) -> (r: Self)
        ensures
            r.name == self.name,
            r.version == self.version,
            r.category == self.category,
            r.display_name matches Some(d) && d@ == value@,
            r.description == self.description,
    {
        let mut m = self;
        m.display_name = Some(value.to_owned());
        m
    }

    pub fn description(self, value: &str) -> (r: Self)
        ensures
            r.name == self.name,
            r.version == self.version,
            r.category == self.category,
            r.display_name == self.display_name,
            r.description matches Some(d) && d@ == value@,
    {
        let mut m = self;
        m.description = Some(value.to_owned());
        m
    }

    pub fn validate(&self) -> (r: Result<(), MetadataError>)
        ensures
            match metadata_check(self.name@, self.version@) {
                Ok(()) => r is Ok,
                Err(msg) => r matches Err(e) && e@ == msg,
            },
    {
        validate_required("name", self.name.as_str())?;
        validate_required("version", self.version.as_str())?;
        Ok(())
    }

    pub fn to_json(&self) -> (r: Result<String, MetadataError>)
        ensures
            match metadata_check(self.name@, self.version@) {
                Ok(()) => r matches Ok(s) && s@ == metadata_json(*self),
                Err(msg) => r matches Err(e) && e@ == msg,
            },
    {
        self.validate()?;
        let mut out = String::new();
        push_char(&mut out, '{');
        let f = json_field("name", self.name.as_str());
        out.append(f.as_str());
        push_char(&mut out, ',');
        let f = json_field("version", self.version.as_str());
        out.append(f.as_str());
        push_char(&mut out, ',');
        let f = json_field("category", self.category.as_str());
        out.append(f.as_str());
        if let Some(value) = &self.display_name {
            push_char(&mut out, ',');
            let f = json_field("display_name", value.as_str());
            out.append(f.as_str());
        }
        if let Some(value) = &self.description {
            push_char(&mut out, ',');
            let f = json_field("description", value.as_str());
            out.append(f.as_str());
        }
        push_char(&mut out, '}');
        proof {
            reveal_strlit("{");
            reveal_strlit("}");
            reveal_strlit(",");
        }
        assert(out@ =~= metadata_json(*self));
        Ok(out)
    }
}

/// Lowercase ASCII letters are written into JSON strings as they are.
proof fn lemma_escape_plain(s: Seq<char>)
    requires
        forall|i: int| 0 <= i < s.len() ==> 'a' <= #[trigger] s[i] <= 'z',
    ensures
        escape_json_spec(s) == s,
    decreases s.len(),
{
    if s.len() > 0 {
        lemma_escape_plain(s.drop_last());
        assert(escape_char(s.last()) == seq![s.last()]);
        assert(escape_json_spec(s) =~= s.drop_last().push(s.last()));
    }
}

/// A text that holds `"key":"value"` for a plain key holds the quoted key.
proof fn lemma_field_holds_key(prefix: Seq<char>, key: Seq<char>, value: Seq<char>, suffix: Seq<char>)
    requires
        forall|i: int| 0 <= i < key.len() ==> 'a' <= #[trigger] key[i] <= 'z',
    ensures
        contains_seq(prefix + json_field_spec(key, value) + suffix, "\""@ + key + "\""@),
{
    reveal_strlit("\"");
    reveal_strlit("\":\"");
    lemma_escape_plain(key);
    let s = prefix + json_field_spec(key, value) + suffix;
    let needle = "\""@ + key + "\""@;
    let at = prefix.len() as int;
    assert(s.subrange(at, at + needle.len()) =~= needle);
    assert(crate::text::occurs_at(s, needle, at));
}

/// What `to_json` writes for valid metadata is accepted by
/// `validate_metadata_json`: it is not blank and it names `name`,
/// `version` and `category`.
pub proof fn law_metadata_json_passes_validation(m: PluginMetadata)
    ensures
        !is_blank(metadata_json(m)),
        contains_seq(metadata_json(m), "\"name\""@),
        contains_seq(metadata_json(m), "\"version\""@),
        contains_seq(metadata_json(m), "\"category\""@),
{
    reveal_strlit("{");
    reveal_strlit("}");
    reveal_strlit(",");
    reveal_strlit("name");
    reveal_strlit("version");
    reveal_strlit("category");
    reveal_strlit("\"name\"");
    reveal_strlit("\"version\"");
    reveal_strlit("\"category\"");
    reveal_strlit("\"");
    let json = metadata_json(m);
    assert(json[0] == '{');
    assert(!crate::text::is_whitespace_char(json[0]));
    let name = json_field_spec("name"@, m.name@);
    let version = json_field_spec("version"@, m.version@);
    let category = json_field_spec("category"@, category_name(m.category));
    let tail = optional_field("display_name"@, m.display_name) + optional_field("description"@, m.description)
        + "}"@;
    assert(json =~= "{"@ + name + (","@ + version + ","@ + category + tail));
    lemma_field_holds_key("{"@, "name"@, m.name@, ","@ + version + ","@ + category + tail);
    assert("\""@ + "name"@ + "\""@ =~= "\"name\""@);
    assert(json =~= ("{"@ + name + ","@) + version + (","@ + category + tail));
    lemma_field_holds_key("{"@ + name + ","@, "version"@, m.version@, ","@ + category + tail);
    assert("\""@ + "version"@ + "\""@ =~= "\"version\""@);
    assert(json =~= ("{"@ + name + ","@ + version + ","@) + category + tail);
    lemma_field_holds_key("{"@ + name + ","@ + version + ","@, "category"@, category_name(m.category), tail);
    assert("\""@ + "category"@ + "\""@ =~= "\"category\""@);
}

/// A plugin: reports its metadata and reacts to its lifecycle.
pub trait MmPlugin {
    fn metadata(&self) -> PluginMetadata;

    fn initialize(&mut self) {
    }

    fn shutdown(&mut self) {
    }
}

/// Checks that a metadata JSON document is non-blank and names the required keys.
pub fn validate_metadata_json(json: &str) -> (r: Result<(), MetadataError>)
    ensures
        if is_blank(json@) {
            r matches Err(e) && e@ == required_message("metadata"@)
        } else if !contains_seq(json@, "\"name\""@) {
            r matches Err(e) && e@ == missing_message("name"@)
        } else if !contains_seq(json@, "\"version\""@) {
            r matches Err(e) && e@ == missing_message("version"@)
        } else if !contains_seq(json@, "\"category\""@) {
            r matches Err(e) && e@ == missing_message("category"@)
        } else {
            r is Ok
        },
{
    validate_required("metadata", json)?;
    if !contains_str(json, "\"name\"") {
        return Err(MetadataError::new(missing("name")));
    }
    if !contains_str(json, "\"version\"") {
        return Err(MetadataError::new(missing("version")));
    }
    if !contains_str(json, "\"category\"") {
        return Err(MetadataError::new(missing("category")));
    }
    Ok(())
}

fn missing(field: &str) -> (r: String)
    ensures
        r@ == missing_message(field@),
{
    let mut s = String::from_str("metadata missing `");
    s.append(field);
    push_char(&mut s, '`');
    proof {
        reveal_strlit("`");
    }
    assert(s@ =~= missing_message(field@));
    s
}

fn validate_required(field: &str, value: &str) -> (r: Result<(), MetadataError>)
    ensures
        is_blank(value@) ==> (r matches Err(e) && e@ == required_message(field@)),
        !is_blank(value@) ==> r is Ok,
{
    if is_blank_str(value) {
        let mut s = String::from_str("metadata `");
        s.append(field);
        s.append("` is required");
        assert(s@ =~= required_message(field@));
        Err(MetadataError::new(s))
    } else {
        Ok(())
    }
}

fn json_field(key: &str, value: &str) -> (r: String)
    ensures
        r@ == json_field_spec(key@, value@),
{
    let mut s = String::new();
    push_char(&mut s, '"');
    let k = escape_json(key);
    s.append(k.as_str());
    s.append("\":\"");
    let v = escape_json(value);
    s.append(v.as_str());
    push_char(&mut s, '"');
    proof {
        reveal_strlit("\"");
    }
    assert(s@ =~= json_field_spec(key@, value@));
    s
}

/// Escapes a text for use inside a JSON string literal.
pub fn escape_json(value: &str) -> (r: String)
    ensures
        r@ == escape_json_spec(value@),
{
    let mut escaped = String::new();
    let len = value.unicode_len();
    let mut i: usize = 0;
    while i < len
        invariant
            len == value@.len(),
            i <= len,
            escaped@ == escape_json_spec(value@.take(i as int)),
        decreases len - i,
    {
        let c = value.get_char(i);
        let ghost before = escaped@;
        if c == '"' {
            push_char(&mut escaped, '\\');
            push_char(&mut escaped, '"');
        } else if c == '\\' {
            push_char(&mut escaped, '\\');
            push_char(&mut escaped, '\\');
        } else if c == '\n' {
            push_char(&mut escaped, '\\');
            push_char(&mut escaped, 'n');
        } else if c == '\r' {
            push_char(&mut escaped, '\\');
            push_char(&mut escaped, 'r');
        } else if c == '\t' {
            push_char(&mut escaped, '\\');
            push_char(&mut escaped, 't');
        } else if (c as u32) <= 0x1f || (0x7f <= (c as u32) && (c as u32) <= 0x9f) {
            let n = c as u32;
            push_char(&mut escaped, '\\');
            push_char(&mut escaped, 'u');
            push_char(&mut escaped, hex_digit_exec(n / 4096 % 16));
            push_char(&mut escaped, hex_digit_exec(n / 256 % 16));
            push_char(&mut escaped, hex_digit_exec(n / 16 % 16));
            push_char(&mut escaped, hex_digit_exec(n % 16));
        } else {
            push_char(&mut escaped, c);
        }
        assert(escaped@ =~= before + escape_char(c));
        assert(value@.take(i + 1).drop_last() =~= value@.take(i as int));
        i = i + 1;
    }
    assert(value@.take(len as int) =~= value@);
    escaped
}

/// The value of a lowercase hexadecimal digit.
pub open spec fn hex_value(c: char) -> int {
    let n = c as u32;
    if n <= 57 {
        n - 48
    } else {
        n - 87
    }
}

/// Reads the body of a JSON string back into its text: `\"`, `\\`, `\n`,
/// `\r`, `\t` and `\uXXXX` stand for the character they escape; every other
/// character stands for itself.
pub open spec fn unescape_json(e: Seq<char>) -> Seq<char>
    decreases e.len(),
{
    if e.len() == 0 {
        Seq::empty()
    } else if e[0] == '\\' && e.len() >= 6 && e[1] == 'u' {
        seq![
            (4096 * hex_value(e[2]) + 256 * hex_value(e[3]) + 16 * hex_value(e[4]) + hex_value(e[5])) as char,
        ] + unescape_json(e.skip(6))
    } else if e[0] == '\\' && e.len() >= 2 {
        let k = e[1];
        seq![
            if k == 'n' {
                '\n'
            } else if k == 'r' {
                '\r'
            } else if k == 't' {
                '\t'
            } else {
                k
            },
        ] + unescape_json(e.skip(2))
    } else {
        seq![e[0]] + unescape_json(e.skip(1))
    }
}

/// Escaping a text that starts with `c` writes the escape of `c` first.
proof fn lemma_escape_front(c: char, s: Seq<char>)
    ensures
        escape_json_spec(seq![c] + s) == escape_char(c) + escape_json_spec(s),
    decreases s.len(),
{
    let cs = seq![c] + s;
    if s.len() == 0 {
        assert(cs.drop_last() =~= Seq::<char>::empty());
        assert(escape_json_spec(cs) == escape_json_spec(cs.drop_last()) + escape_char(cs.last()));
        assert(escape_json_spec(cs) =~= escape_char(c));
        assert(escape_char(c) + escape_json_spec(s) =~= escape_char(c));
    } else {
        lemma_escape_front(c, s.drop_last());
        assert(cs.drop_last() =~= seq![c] + s.drop_last());
        assert(cs.last() == s.last());
        assert(escape_json_spec(cs) == escape_json_spec(cs.drop_last()) + escape_char(cs.last()));
        assert(escape_char(c) + escape_json_spec(s.drop_last()) + escape_char(s.last()) =~= escape_char(c)
            + (escape_json_spec(s.drop_last()) + escape_char(s.last())));
    }
}

proof fn lemma_hex_value(d: nat)
    requires
        d < 16,
    ensures
        hex_value(hex_digit(d)) == d,
{
}

/// Reading back the escape of one character gives that character.
proof fn lemma_unescape_char(c: char, t: Seq<char>)
    ensures
        unescape_json(escape_char(c) + t) == seq![c] + unescape_json(t),
{
    let e = escape_char(c) + t;
    if c == '"' || c == '\\' || c == '\n' || c == '\r' || c == '\t' {
        assert(e.skip(2) =~= t);
    } else if is_control_char(c) {
        let n = c as u32 as nat;
        assert(n <= 0x9f);
        lemma_hex_value(n / 4096 % 16);
        lemma_hex_value(n / 256 % 16);
        lemma_hex_value(n / 16 % 16);
        lemma_hex_value(n % 16);
        assert(n / 4096 % 16 == 0);
        assert(n / 256 % 16 == 0);
        assert(16 * (n / 16 % 16) + n % 16 == n);
        assert(e[2] == hex_digit(n / 4096 % 16));
        assert(e[3] == hex_digit(n / 256 % 16));
        assert(e[4] == hex_digit(n / 16 % 16));
        assert(e[5] == hex_digit(n % 16));
        assert(((n as int) as char) == c);
        assert(e.skip(6) =~= t);
    } else {
        assert(e[0] == c);
        assert(e.skip(1) =~= t);
    }
}

proof fn lemma_unescape_escaped(s: Seq<char>, t: Seq<char>)
    ensures
        unescape_json(escape_json_spec(s) + t) == s + unescape_json(t),
    decreases s.len(),
{
    if s.len() > 0 {
        let c = s[0];
        let rest = s.skip(1);
        assert(s =~= seq![c] + rest);
        lemma_escape_front(c, rest);
        lemma_unescape_escaped(rest, t);
        lemma_unescape_char(c, escape_json_spec(rest) + t);
        assert(escape_json_spec(s) + t =~= escape_char(c) + (escape_json_spec(rest) + t));
        assert(seq![c] + (rest + unescape_json(t)) =~= s + unescape_json(t));
    } else {
        assert(escape_json_spec(s) + t =~= t);
        assert(s + unescape_json(t) =~= unescape_json(t));
    }
}

/// JSON escaping loses nothing: reading an escaped text back as the body of
/// a JSON string gives the text itself. In particular a backslash is written
/// as two, and each control character as its `\uXXXX` escape.
pub proof fn law_escape_json_round_trip(s: Seq<char>)
    ensures
        unescape_json(escape_json_spec(s)) == s,
{
    lemma_unescape_escaped(s, Seq::empty());
    assert(escape_json_spec(s) + Seq::<char>::empty() =~= escape_json_spec(s));
    assert(s + unescape_json(Seq::<char>::empty()) =~= s);
}

/// The template plugin: tracks whether it has been initialized.
pub struct RustBasicPlugin {
    pub initialized: bool,
}

impl Default for RustBasicPlugin {
    fn default() -> (r: Self)
        ensures
            !r.initialized,
    {
        RustBasicPlugin { initialized: false }
    }
}

impl MmPlugin for RustBasicPlugin {
    fn metadata(&self) -> (r: PluginMetadata)
        ensures
            r.name@ == "rust-basic"@,
            r.version@ == "0.1.0"@,
            r.category == PluginCategory::Utility,
            r.display_name matches Some(d) && d@ == "Rust Basic"@,
            r.description matches Some(d) && d@ == "Rust plugin template"@,
    {
        PluginMetadata::new("rust-basic", "0.1.0", PluginCategory::Utility).display_name(
            "Rust Basic",
        ).description("Rust plugin template")
    }

    fn initialize(&mut self)
        ensures
            final(self).initialized,
    {
        self.initialized = true;
    }

    fn shutdown(&mut self)
        ensures
            !final(self).initialized,
    {
        self.initialized = false;
    }
}

} // verus!
