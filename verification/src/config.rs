//! The settings of the reporter and their `KEY=value` text form.

use crate::text::{
    bool_text, chars_of, decimal, find_char, index_of, is_trimmed, is_whitespace,
    lemma_decimal_round_trip, lemma_index_of_is, lemma_parse_decimal, lemma_trim_of_trimmed,
    lemma_trim_properties, parse_bool, parse_bool_range, parse_u64, parse_u64_range,
    push_decimal, range_equals, substring, trim, trim_range,
};
use vstd::prelude::*;

verus! {

/// The settings that the reporter runs with.
#[derive(Debug)]
pub struct Config {
    pub api_url: String,
    pub api_key: String,
    pub watch_time: u64,
    pub media_enable: bool,
    pub log_enable: bool,
}

/// The settings as mathematical values.
pub struct ConfigView {
    pub api_url: Seq<char>,
    pub api_key: Seq<char>,
    pub watch_time: u64,
    pub media_enable: bool,
    pub log_enable: bool,
}

impl View for Config {
    type V = ConfigView;

    open spec fn view(&self) -> ConfigView {
        ConfigView {
            api_url: self.api_url@,
            api_key: self.api_key@,
            watch_time: self.watch_time,
            media_enable: self.media_enable,
            log_enable: self.log_enable,
        }
    }
}

/// The settings before any line has been read: no endpoint, no key, a watch
/// interval of five seconds, media detection and logging switched on.
pub open spec fn default_settings() -> ConfigView {
    ConfigView {
        api_url: Seq::empty(),
        api_key: Seq::empty(),
        watch_time: 5,
        media_enable: true,
        log_enable: true,
    }
}

impl Default for Config {
    fn default() -> (r: Self)
        ensures
            r@ == default_settings(),
    {
        Config {
            api_url: String::new(),
            api_key: String::new(),
            watch_time: 5,
            media_enable: true,
            log_enable: true,
        }
    }
}

impl Clone for Config {
    fn clone(&self) -> (r: Self)
        ensures
            r@ == self@,
    {
        Config {
            api_url: self.api_url.clone(),
            api_key: self.api_key.clone(),
            watch_time: self.watch_time,
            media_enable: self.media_enable,
            log_enable: self.log_enable,
        }
    }
}

/// Why the settings could not be had.
#[derive(Debug)]
pub enum ConfigError {
    /// No file at the given path.
    NotFound(String),
    /// A required setting is empty once all lines are read.
    MissingField(String),
    /// The text could not be read as settings.
    Parse(String),
}

impl ConfigError {
    /// The text that `message` returns.
    pub open spec fn message_text(self) -> Seq<char> {
        match self {
            ConfigError::NotFound(path) => "Config file not found at "@ + path@,
            ConfigError::MissingField(field) => "Missing required field: "@ + field@,
            ConfigError::Parse(detail) => "Failed to parse config: "@ + detail@,
        }
    }

    /// A sentence for the user.
    pub fn message(&self) -> (r: String)
        ensures
            r@ == self.message_text(),
    {
        match self {
            ConfigError::NotFound(path) => {
                let mut r = "Config file not found at ".to_owned();
                r.append(path.as_str());
                r
            },
            ConfigError::MissingField(field) => {
                let mut r = "Missing required field: ".to_owned();
                r.append(field.as_str());
                r
            },
            ConfigError::Parse(detail) => {
                let mut r = "Failed to parse config: ".to_owned();
                r.append(detail.as_str());
                r
            },
        }
    }
}

/// The settings after `key` has been given `value`. An unknown key changes
/// nothing, and neither does a number or a truth value that cannot be read.
pub open spec fn assign(cfg: ConfigView, key: Seq<char>, value: Seq<char>) -> ConfigView {
    if key == "API_URL"@ {
        ConfigView { api_url: value, ..cfg }
    } else if key == "API_KEY"@ {
        ConfigView { api_key: value, ..cfg }
    } else if key == "WATCH_TIME"@ {
        match parse_u64(value) {
            Some(n) => ConfigView { watch_time: n, ..cfg },
            None => cfg,
        }
    } else if key == "MEDIA_ENABLE"@ {
        match parse_bool(value) {
            Some(b) => ConfigView { media_enable: b, ..cfg },
            None => cfg,
        }
    } else if key == "LOG_ENABLE"@ {
        match parse_bool(value) {
            Some(b) => ConfigView { log_enable: b, ..cfg },
            None => cfg,
        }
    } else {
        cfg
    }
}

/// The settings after one line has been read. The line is trimmed; a blank
/// line, a line that starts with `#` and a line without `=` change nothing.
/// Otherwise the key is what stands before the first `=`, as it is, and the
/// value is what follows it, trimmed.
pub open spec fn apply_line(cfg: ConfigView, line: Seq<char>) -> ConfigView {
    let t = trim(line);
    let eq = index_of(t, '=');
    if t.len() == 0 || t[0] == '#' || eq >= t.len() {
        cfg
    } else {
        assign(cfg, t.subrange(0, eq), trim(t.subrange(eq + 1, t.len() as int)))
    }
}

/// The settings after every line of `text` has been read, in order. Lines end
/// at a line feed.
pub open spec fn apply_lines(cfg: ConfigView, text: Seq<char>) -> ConfigView
    decreases text.len(),
{
    let n = index_of(text, '\n');
    let next = apply_line(cfg, text.subrange(0, n));
    if 0 <= n < text.len() {
        apply_lines(next, text.subrange(n + 1, text.len() as int))
    } else {
        next
    }
}

/// What loading `text` gives: the settings that its lines leave, or the name
/// of the first required setting that they leave empty.
pub open spec fn load_outcome(text: Seq<char>) -> Result<ConfigView, Seq<char>> {
    let cfg = apply_lines(default_settings(), text);
    if cfg.api_url.len() == 0 {
        Err("API_URL"@)
    } else if cfg.api_key.len() == 0 {
        Err("API_KEY"@)
    } else {
        Ok(cfg)
    }
}

/// One line of the text form, with its line feed.
pub open spec fn entry(key: Seq<char>, value: Seq<char>) -> Seq<char> {
    key + seq!['='] + value + seq!['\n']
}

/// The text form of the settings: one line for each, the endpoint and the key
/// trimmed.
pub open spec fn rendered(cfg: ConfigView) -> Seq<char> {
    entry("API_URL"@, trim(cfg.api_url)) + (entry("API_KEY"@, trim(cfg.api_key)) + (entry(
        "WATCH_TIME"@,
        decimal(cfg.watch_time as nat),
    ) + (entry("MEDIA_ENABLE"@, bool_text(cfg.media_enable)) + entry(
        "LOG_ENABLE"@,
        bool_text(cfg.log_enable),
    ))))
}

/// Reads the line `chars[from..to]` into `cfg`.
fn read_line(cfg: &mut Config, text: &str, chars: &Vec<char>, from: usize, to: usize)
    requires
        chars@ == text@,
        from <= to <= chars.len(),
    ensures
        final(cfg)@ == apply_line(old(cfg)@, chars@.subrange(from as int, to as int)),
{
    let (a, b) = trim_range(chars, from, to);
    let ghost t = chars@.subrange(a as int, b as int);
    if a == b || chars[a] == '#' {
        return ;
    }
    let e = find_char(chars, a, b, '=');
    if e >= b {
        return ;
    }
    let (va, vb) = trim_range(chars, e + 1, b);
    proof {
        assert(t.subrange(0, e - a) =~= chars@.subrange(a as int, e as int));
        assert(t.subrange(e - a + 1, t.len() as int) =~= chars@.subrange(e + 1, b as int));
    }
    if range_equals(chars, a, e, &chars_of("API_URL")) {
        cfg.api_url = substring(text, va, vb);
    } else if range_equals(chars, a, e, &chars_of("API_KEY")) {
        cfg.api_key = substring(text, va, vb);
    } else if range_equals(chars, a, e, &chars_of("WATCH_TIME")) {
        match parse_u64_range(chars, va, vb) {
            Some(n) => {
                cfg.watch_time = n;
            },
            None => {},
        }
    } else if range_equals(chars, a, e, &chars_of("MEDIA_ENABLE")) {
        match parse_bool_range(chars, va, vb) {
            Some(b) => {
                cfg.media_enable = b;
            },
            None => {},
        }
    } else if range_equals(chars, a, e, &chars_of("LOG_ENABLE")) {
        match parse_bool_range(chars, va, vb) {
            Some(b) => {
                cfg.log_enable = b;
            },
            None => {},
        }
    }
}

/// Reads the settings from the text of a settings file. Every line is read in
/// order, a later line overriding an earlier one. Fails when the endpoint is
/// empty in the end, or else when the key is.
pub fn load_config(text: &str) -> (r: Result<Config, ConfigError>)
    ensures
        match load_outcome(text@) {
            Ok(cfg) => r matches Ok(c) && c@ == cfg,
            Err(field) => r matches Err(ConfigError::MissingField(f)) && f@ == field,
        },
{
    let chars = chars_of(text);
    let n = chars.len();
    let mut cfg = Config::default();
    let mut pos: usize = 0;
    proof {
        assert(chars@.subrange(0, n as int) =~= text@);
    }
    loop
        invariant_except_break
            pos <= n,
            apply_lines(default_settings(), text@) == apply_lines(
                cfg@,
                chars@.subrange(pos as int, n as int),
            ),
        invariant
            chars@ == text@,
            n == chars.len(),
        ensures
            cfg@ == apply_lines(default_settings(), text@),
        decreases n - pos,
    {
        let e = find_char(&chars, pos, n, '\n');
        let ghost rest = chars@.subrange(pos as int, n as int);
        proof {
            assert(rest.subrange(0, e - pos) =~= chars@.subrange(pos as int, e as int));
        }
        read_line(&mut cfg, text, &chars, pos, e);
        if e >= n {
            break ;
        }
        proof {
            assert(rest.subrange(e - pos + 1, rest.len() as int) =~= chars@.subrange(
                e + 1,
                n as int,
            ));
        }
        pos = e + 1;
    }
    if cfg.api_url.as_str().is_empty() {
        Err(ConfigError::MissingField("API_URL".to_owned()))
    } else if cfg.api_key.as_str().is_empty() {
        Err(ConfigError::MissingField("API_KEY".to_owned()))
    } else {
        Ok(cfg)
    }
}

/// Appends the line `key=value` to `out`, where the value is `text[from..to]`.
fn push_entry(out: &mut String, key: &str, value: &str)
    ensures
        final(out)@ == old(out)@ + entry(key@, value@),
{
    proof {
        reveal_strlit("=");
        reveal_strlit("\n");
        assert("="@ =~= seq!['=']);
        assert("\n"@ =~= seq!['\n']);
    }
    out.append(key);
    out.append("=");
    out.append(value);
    out.append("\n");
    proof {
        assert(final(out)@ =~= old(out)@ + entry(key@, value@));
    }
}

/// The trimmed text of `s`.
fn trimmed(s: &str) -> (r: String)
    ensures
        r@ == trim(s@),
{
    let chars = chars_of(s);
    let (a, b) = trim_range(&chars, 0, chars.len());
    proof {
        assert(chars@.subrange(0, chars.len() as int) =~= chars@);
    }
    substring(s, a, b)
}

/// The text form of the settings, as it is written to a settings file.
pub fn save_config(cfg: &Config) -> (r: String)
    ensures
        r@ == rendered(cfg@),
{
    let mut out = String::new();
    let url = trimmed(cfg.api_url.as_str());
    let key = trimmed(cfg.api_key.as_str());
    let mut watch = String::new();
    push_decimal(&mut watch, cfg.watch_time);
    let media = if cfg.media_enable {
        "true"
    } else {
        "false"
    };
    let log = if cfg.log_enable {
        "true"
    } else {
        "false"
    };
    push_entry(&mut out, "API_URL", url.as_str());
    push_entry(&mut out, "API_KEY", key.as_str());
    push_entry(&mut out, "WATCH_TIME", watch.as_str());
    push_entry(&mut out, "MEDIA_ENABLE", media);
    push_entry(&mut out, "LOG_ENABLE", log);
    proof {
        assert(watch@ =~= decimal(cfg.watch_time as nat));
        assert(out@ =~= rendered(cfg@));
    }
    out
}

/// True when `key` is a name made of capital letters and underscores.
pub open spec fn is_name(key: Seq<char>) -> bool {
    &&& key.len() > 0
    &&& forall|i: int|
        0 <= i < key.len() ==> {
            let n = #[trigger] key[i] as u32;
            0x41 <= n <= 0x5A || n == 0x5F
        }
}

/// The names of the five settings are names, and no two are the same.
proof fn lemma_setting_names()
    ensures
        is_name("API_URL"@),
        is_name("API_KEY"@),
        is_name("WATCH_TIME"@),
        is_name("MEDIA_ENABLE"@),
        is_name("LOG_ENABLE"@),
        "API_URL"@ != "API_KEY"@,
        "API_URL"@.len() == 7,
        "API_KEY"@.len() == 7,
        "WATCH_TIME"@.len() == 10,
        "MEDIA_ENABLE"@.len() == 12,
        "LOG_ENABLE"@.len() == 10,
        "WATCH_TIME"@ != "LOG_ENABLE"@,
{
    reveal_strlit("API_URL");
    reveal_strlit("API_KEY");
    reveal_strlit("WATCH_TIME");
    reveal_strlit("MEDIA_ENABLE");
    reveal_strlit("LOG_ENABLE");
    assert("API_URL"@[4] != "API_KEY"@[4]);
    assert("WATCH_TIME"@[0] != "LOG_ENABLE"@[0]);
    assert forall|i: int| 0 <= i < "API_URL"@.len() implies {
        let n = #[trigger] "API_URL"@[i] as u32;
        0x41 <= n <= 0x5A || n == 0x5F
    } by {
        let k = "API_URL"@;
        assert(k[0] == 'A' && k[1] == 'P' && k[2] == 'I' && k[3] == '_' && k[4] == 'U' && k[5]
            == 'R' && k[6] == 'L');
    }
    assert forall|i: int| 0 <= i < "API_KEY"@.len() implies {
        let n = #[trigger] "API_KEY"@[i] as u32;
        0x41 <= n <= 0x5A || n == 0x5F
    } by {
        let k = "API_KEY"@;
        assert(k[0] == 'A' && k[1] == 'P' && k[2] == 'I' && k[3] == '_' && k[4] == 'K' && k[5]
            == 'E' && k[6] == 'Y');
    }
    assert forall|i: int| 0 <= i < "WATCH_TIME"@.len() implies {
        let n = #[trigger] "WATCH_TIME"@[i] as u32;
        0x41 <= n <= 0x5A || n == 0x5F
    } by {
        let k = "WATCH_TIME"@;
        assert(k[0] == 'W' && k[1] == 'A' && k[2] == 'T' && k[3] == 'C' && k[4] == 'H' && k[5]
            == '_' && k[6] == 'T' && k[7] == 'I' && k[8] == 'M' && k[9] == 'E');
    }
    assert forall|i: int| 0 <= i < "MEDIA_ENABLE"@.len() implies {
        let n = #[trigger] "MEDIA_ENABLE"@[i] as u32;
        0x41 <= n <= 0x5A || n == 0x5F
    } by {
        let k = "MEDIA_ENABLE"@;
        assert(k[0] == 'M' && k[1] == 'E' && k[2] == 'D' && k[3] == 'I' && k[4] == 'A' && k[5]
            == '_' && k[6] == 'E' && k[7] == 'N' && k[8] == 'A' && k[9] == 'B' && k[10] == 'L'
            && k[11] == 'E');
    }
    assert forall|i: int| 0 <= i < "LOG_ENABLE"@.len() implies {
        let n = #[trigger] "LOG_ENABLE"@[i] as u32;
        0x41 <= n <= 0x5A || n == 0x5F
    } by {
        let k = "LOG_ENABLE"@;
        assert(k[0] == 'L' && k[1] == 'O' && k[2] == 'G' && k[3] == '_' && k[4] == 'E' && k[5]
            == 'N' && k[6] == 'A' && k[7] == 'B' && k[8] == 'L' && k[9] == 'E');
    }
}

/// The spelling of a truth value is read back as that value; it is not empty
/// and holds neither white space nor a line feed.
proof fn lemma_bool_text(b: bool)
    ensures
        parse_bool(bool_text(b)) == Some(b),
        bool_text(b).len() > 0,
        forall|i: int| 0 <= i < bool_text(b).len() ==> !is_whitespace(#[trigger] bool_text(b)[i]),
{
    reveal_strlit("true");
    reveal_strlit("false");
    let t = "true"@;
    let f = "false"@;
    assert(t[0] == 't' && t[1] == 'r' && t[2] == 'u' && t[3] == 'e');
    assert(f[0] == 'f' && f[1] == 'a' && f[2] == 'l' && f[3] == 's' && f[4] == 'e');
    assert(t.len() != f.len());
}

/// The line that ends at the first line feed is read first, and what follows
/// the line feed after it.
pub proof fn lemma_apply_lines_step(cfg: ConfigView, line: Seq<char>, rest: Seq<char>)
    requires
        forall|i: int| 0 <= i < line.len() ==> line[i] != '\n',
    ensures
        apply_lines(cfg, line + seq!['\n'] + rest) == apply_lines(apply_line(cfg, line), rest),
{
    let text = line + seq!['\n'] + rest;
    lemma_index_of_is(text, '\n', line.len() as int);
    assert(text.subrange(0, line.len() as int) =~= line);
    assert(text.subrange(line.len() as int + 1, text.len() as int) =~= rest);
}

/// A line made of a name, `=` and a trimmed value that is not empty gives the
/// name that value.
pub proof fn lemma_apply_setting(cfg: ConfigView, key: Seq<char>, value: Seq<char>)
    requires
        is_name(key),
        value.len() > 0,
        is_trimmed(value),
    ensures
        apply_line(cfg, key + seq!['='] + value) == assign(cfg, key, value),
{
    let line = key + seq!['='] + value;
    assert(line[0] == key[0]);
    assert(line.last() == value.last());
    lemma_trim_of_trimmed(line);
    assert forall|i: int| 0 <= i < key.len() implies line[i] != '=' by {
        assert(line[i] == key[i]);
    }
    lemma_index_of_is(line, '=', key.len() as int);
    assert(line.subrange(0, key.len() as int) =~= key);
    assert(line.subrange(key.len() as int + 1, line.len() as int) =~= value);
    lemma_trim_of_trimmed(value);
}

/// Reading one rendered line, then the rest.
proof fn lemma_apply_entry(cfg: ConfigView, key: Seq<char>, value: Seq<char>, rest: Seq<char>)
    requires
        is_name(key),
        value.len() > 0,
        is_trimmed(value),
        forall|i: int| 0 <= i < value.len() ==> value[i] != '\n',
    ensures
        apply_lines(cfg, entry(key, value) + rest) == apply_lines(assign(cfg, key, value), rest),
{
    let line = key + seq!['='] + value;
    assert forall|i: int| 0 <= i < line.len() implies line[i] != '\n' by {
        if i < key.len() {
            assert(line[i] == key[i]);
        } else if i > key.len() {
            assert(line[i] == value[i - key.len() - 1]);
        }
    }
    lemma_apply_lines_step(cfg, line, rest);
    lemma_apply_setting(cfg, key, value);
}

/// Loading what was saved gives the settings back, with the endpoint and the
/// key trimmed as they were written. This holds when both are not empty once
/// trimmed and hold no line feed.
pub proof fn lemma_save_then_load(cfg: ConfigView)
    requires
        trim(cfg.api_url).len() > 0,
        trim(cfg.api_key).len() > 0,
        forall|i: int| 0 <= i < trim(cfg.api_url).len() ==> trim(cfg.api_url)[i] != '\n',
        forall|i: int| 0 <= i < trim(cfg.api_key).len() ==> trim(cfg.api_key)[i] != '\n',
    ensures
        load_outcome(rendered(cfg)) == Ok::<ConfigView, Seq<char>>(
            ConfigView { api_url: trim(cfg.api_url), api_key: trim(cfg.api_key), ..cfg },
        ),
{
    let url = trim(cfg.api_url);
    let key = trim(cfg.api_key);
    let watch = decimal(cfg.watch_time as nat);
    let media = bool_text(cfg.media_enable);
    let log = bool_text(cfg.log_enable);
    lemma_setting_names();
    lemma_trim_properties(cfg.api_url);
    lemma_trim_properties(cfg.api_key);
    lemma_decimal_round_trip(cfg.watch_time as nat);
    lemma_parse_decimal(cfg.watch_time);
    lemma_bool_text(cfg.media_enable);
    lemma_bool_text(cfg.log_enable);
    let e5 = entry("LOG_ENABLE"@, log);
    let e4 = entry("MEDIA_ENABLE"@, media) + e5;
    let e3 = entry("WATCH_TIME"@, watch) + e4;
    let e2 = entry("API_KEY"@, key) + e3;
    let c0 = default_settings();
    let c1 = assign(c0, "API_URL"@, url);
    let c2 = assign(c1, "API_KEY"@, key);
    let c3 = assign(c2, "WATCH_TIME"@, watch);
    let c4 = assign(c3, "MEDIA_ENABLE"@, media);
    let c5 = assign(c4, "LOG_ENABLE"@, log);
    lemma_apply_entry(c0, "API_URL"@, url, e2);
    lemma_apply_entry(c1, "API_KEY"@, key, e3);
    lemma_apply_entry(c2, "WATCH_TIME"@, watch, e4);
    lemma_apply_entry(c3, "MEDIA_ENABLE"@, media, e5);
    lemma_apply_entry(c4, "LOG_ENABLE"@, log, Seq::empty());
    assert(e5 + Seq::<char>::empty() =~= e5);
    let none = Seq::<char>::empty();
    assert(none.subrange(0, 0) =~= none);
    assert(trim(none) =~= none);
    assert(apply_lines(c5, none) == c5);
    assert(c5 == ConfigView { api_url: url, api_key: key, ..cfg });
}

/// Loading fails with the name of the endpoint exactly when the lines leave
/// the endpoint empty, and with the name of the key exactly when they leave
/// the endpoint set and the key empty. It fails in no other way.
pub proof fn lemma_missing_field_is_named(text: Seq<char>)
    ensures
        load_outcome(text) == Err::<ConfigView, Seq<char>>("API_URL"@) <==> apply_lines(
            default_settings(),
            text,
        ).api_url.len() == 0,
        load_outcome(text) == Err::<ConfigView, Seq<char>>("API_KEY"@) <==> apply_lines(
            default_settings(),
            text,
        ).api_url.len() != 0 && apply_lines(default_settings(), text).api_key.len() == 0,
        load_outcome(text) is Err ==> load_outcome(text) == Err::<ConfigView, Seq<char>>(
            "API_URL"@,
        ) || load_outcome(text) == Err::<ConfigView, Seq<char>>("API_KEY"@),
{
    lemma_setting_names();
}

} // verus!
