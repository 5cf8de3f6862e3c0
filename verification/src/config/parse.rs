//! Parsing of the configuration format: one `key = value` per line, `#`
//! comments outside double-quoted strings, and basic string escapes.

use vstd::prelude::*;

use crate::bytes::{chars_of, string_from_chars};
use crate::config::error::{ConfigError, ConfigErrorView};
use crate::config::model::{empty_config, ConfigView, EtleConfig};
use crate::net::{ipv4_text, parse_ipv4, parse_ipv4_spec};
use crate::net6::{parse_socket, parse_socket_spec};
use crate::text::{is_white, leading_white, lemma_trimmed_exact, parse_unsigned, split_chars, split_on, str_equal, trailing_white, trim_chars, trimmed, unsigned_value};

verus! {

/// A line without the carriage return that ends it, if any.
pub open spec fn strip_cr(line: Seq<char>) -> Seq<char> {
    if line.len() > 0 && line.last() == '\r' {
        line.drop_last()
    } else {
        line
    }
}

/// The lines of a text as `str::lines` gives them: split at `\n`, a `\r`
/// before a `\n` dropped, and no empty line after a final line ending.
pub open spec fn text_lines(s: Seq<char>) -> Seq<Seq<char>> {
    let parts = split_on(s, '\n');
    let terminated = Seq::new((parts.len() - 1) as nat, |i: int| strip_cr(parts[i]));
    if parts.last().len() == 0 {
        terminated
    } else {
        terminated.push(parts.last())
    }
}

proof fn lemma_split_nonempty(s: Seq<char>, c: char)
    ensures
        split_on(s, c).len() >= 1,
    decreases s.len(),
{
    if s.len() > 0 {
        lemma_split_nonempty(s.drop_last(), c);
    }
}

fn strip_cr_exec(line: &Vec<char>) -> (r: Vec<char>)
    ensures
        r@ == strip_cr(line@),
{
    let mut out: Vec<char> = Vec::new();
    let n = if line.len() > 0 && line[line.len() - 1] == '\r' { line.len() - 1 } else { line.len() };
    let mut i: usize = 0;
    while i < n
        invariant
            i <= n <= line@.len(),
            out@ == line@.take(i as int),
        decreases n - i,
    {
        out.push(line[i]);
        i = i + 1;
        assert(out@ =~= line@.take(i as int));
    }
    assert(line@.take(line@.len() as int) =~= line@);
    out
}

/// The lines of a text.
pub fn text_lines_exec(s: &[char]) -> (r: Vec<Vec<char>>)
    ensures
        r@.len() == text_lines(s@).len(),
        forall|i: int| 0 <= i < r@.len() ==> (#[trigger] r@[i])@ == text_lines(s@)[i],
{
    let parts = split_chars(s, '\n');
    proof {
        lemma_split_nonempty(s@, '\n');
    }
    let ghost expected = text_lines(s@);
    let mut out: Vec<Vec<char>> = Vec::new();
    let mut i: usize = 0;
    while i < parts.len() - 1
        invariant
            parts@.len() == split_on(s@, '\n').len(),
            parts@.len() >= 1,
            forall|k: int| 0 <= k < parts@.len() ==> (#[trigger] parts@[k])@ == split_on(s@, '\n')[k],
            i + 1 <= parts@.len(),
            out@.len() == i,
            forall|k: int| 0 <= k < i ==> (#[trigger] out@[k])@ == strip_cr(split_on(s@, '\n')[k]),
        decreases parts@.len() - i,
    {
        out.push(strip_cr_exec(&parts[i]));
        i = i + 1;
    }
    let last = parts.len() - 1;
    if parts[last].len() > 0 {
        let mut copy: Vec<char> = Vec::new();
        crate::text::extend_chars(&mut copy, parts[last].as_slice());
        out.push(copy);
    }
    out
}

/// The scan that removes a comment: characters are kept up to a `#` outside a
/// double-quoted string; a backslash inside a string escapes the next
/// character. The state is (kept, inside a string, after a backslash, stopped).
pub open spec fn comment_scan(line: Seq<char>) -> (Seq<char>, bool, bool, bool)
    decreases line.len(),
{
    if line.len() == 0 {
        (Seq::empty(), false, false, false)
    } else {
        let (out, in_string, escaped, stopped) = comment_scan(line.drop_last());
        let ch = line.last();
        if stopped {
            (out, in_string, escaped, true)
        } else if escaped {
            (out.push(ch), in_string, false, false)
        } else if ch == '\\' && in_string {
            (out.push(ch), in_string, true, false)
        } else if ch == '"' {
            (out.push(ch), !in_string, false, false)
        } else if ch == '#' && !in_string {
            (out, in_string, escaped, true)
        } else {
            (out.push(ch), in_string, false, false)
        }
    }
}

/// A line without its comment.
pub open spec fn without_comment(line: Seq<char>) -> Seq<char> {
    comment_scan(line).0
}

/// Removes the comment from a line.
pub fn strip_comment(line: &[char]) -> (r: Vec<char>)
    ensures
        r@ == without_comment(line@),
{
    let mut output: Vec<char> = Vec::new();
    let mut in_string = false;
    let mut escaped = false;
    let mut i: usize = 0;
    while i < line.len()
        invariant
            i <= line@.len(),
            comment_scan(line@.take(i as int)) == (output@, in_string, escaped, false),
        decreases line@.len() - i,
    {
        let ch = line[i];
        proof {
            assert(line@.take(i + 1).drop_last() =~= line@.take(i as int));
            assert(line@.take(i + 1).last() == ch);
        }
        if escaped {
            output.push(ch);
            escaped = false;
        } else if ch == '\\' && in_string {
            output.push(ch);
            escaped = true;
        } else if ch == '"' {
            in_string = !in_string;
            output.push(ch);
        } else if ch == '#' && !in_string {
            proof {
                lemma_comment_stops(line@, i as int);
            }
            return output;
        } else {
            output.push(ch);
        }
        i = i + 1;
    }
    assert(line@.take(line@.len() as int) =~= line@);
    output
}

/// Once the scan stops, the rest of the line changes nothing.
proof fn lemma_comment_stops(line: Seq<char>, i: int)
    requires
        0 <= i < line.len(),
        comment_scan(line.take(i + 1)).3,
    ensures
        comment_scan(line).0 == comment_scan(line.take(i + 1)).0,
        comment_scan(line).3,
    decreases line.len(),
{
    if i + 1 < line.len() {
        assert(line.drop_last().take(i + 1) =~= line.take(i + 1));
        lemma_comment_stops(line.drop_last(), i);
    } else {
        assert(line.take(i + 1) =~= line);
    }
}

/// A string with its escapes resolved: `\"`, `\\`, `\n` and `\t` stand for
/// their characters; a backslash before any other character stays with it,
/// and a final lone backslash stays.
pub open spec fn unescaped(s: Seq<char>) -> Seq<char>
    decreases s.len(),
{
    if s.len() == 0 {
        Seq::empty()
    } else if s[0] != '\\' {
        seq![s[0]] + unescaped(s.skip(1))
    } else if s.len() == 1 {
        seq!['\\']
    } else {
        let c = s[1];
        let e = if c == '"' {
            seq!['"']
        } else if c == '\\' {
            seq!['\\']
        } else if c == 'n' {
            seq!['\n']
        } else if c == 't' {
            seq!['\t']
        } else {
            seq!['\\', c]
        };
        e + unescaped(s.skip(2))
    }
}

/// Resolves the escapes of a basic string.
pub fn unescape_basic_string(value: &[char]) -> (r: Vec<char>)
    ensures
        r@ == unescaped(value@),
{
    let mut output: Vec<char> = Vec::new();
    let mut i: usize = 0;
    assert(value@.skip(0) =~= value@);
    while i < value.len()
        invariant
            i <= value@.len(),
            unescaped(value@) == output@ + unescaped(value@.skip(i as int)),
        decreases value@.len() - i,
    {
        let ghost rest = value@.skip(i as int);
        let ch = value[i];
        assert(rest[0] == ch);
        if ch != '\\' {
            output.push(ch);
            assert(rest.skip(1) =~= value@.skip(i + 1));
            i = i + 1;
            assert(unescaped(value@) =~= output@ + unescaped(value@.skip(i as int)));
        } else if i + 1 == value.len() {
            output.push('\\');
            i = i + 1;
            assert(value@.skip(i as int) =~= Seq::<char>::empty());
            assert(unescaped(value@) =~= output@ + unescaped(value@.skip(i as int)));
        } else {
            let c = value[i + 1];
            assert(rest[1] == c);
            if c == '"' {
                output.push('"');
            } else if c == '\\' {
                output.push('\\');
            } else if c == 'n' {
                output.push('\n');
            } else if c == 't' {
                output.push('\t');
            } else {
                output.push('\\');
                output.push(c);
            }
            assert(rest.skip(2) =~= value@.skip(i + 2));
            i = i + 2;
            assert(unescaped(value@) =~= output@ + unescaped(value@.skip(i as int)));
        }
    }
    assert(value@.skip(i as int) =~= Seq::<char>::empty());
    assert(output@ =~= unescaped(value@));
    output
}

/// The string a value stands for: trimmed, and when double-quoted, the
/// unescaped text between the quotes.
pub open spec fn string_value(value: Seq<char>) -> Seq<char> {
    let t = trimmed(value);
    if t.len() >= 2 && t[0] == '"' && t.last() == '"' {
        unescaped(t.subrange(1, t.len() - 1))
    } else {
        t
    }
}

/// The string a value stands for.
pub fn parse_string_value(value: &[char]) -> (r: Vec<char>)
    ensures
        r@ == string_value(value@),
{
    let t = trim_chars(value);
    if t.len() >= 2 && t[0] == '"' && t[t.len() - 1] == '"' {
        let inner = &t.as_slice()[1..t.len() - 1];
        assert(inner@ =~= t@.subrange(1, t@.len() - 1));
        return unescape_basic_string(inner);
    }
    t
}

/// The position of the first `c` in `s`, or its length when there is none.
pub open spec fn find_char(s: Seq<char>, c: char) -> int
    decreases s.len(),
{
    if s.len() == 0 {
        0
    } else if s[0] == c {
        0
    } else {
        1 + find_char(s.skip(1), c)
    }
}

proof fn lemma_find_char_is(s: Seq<char>, c: char, i: int)
    requires
        0 <= i <= s.len(),
        forall|k: int| 0 <= k < i ==> s[k] != c,
        i == s.len() || s[i] == c,
    ensures
        find_char(s, c) == i,
    decreases s.len(),
{
    if s.len() > 0 && i > 0 {
        lemma_find_char_is(s.skip(1), c, i - 1);
    }
}

/// A number of a `usize` setting.
pub open spec fn usize_setting(value: Seq<char>) -> Option<usize> {
    match unsigned_value(value) {
        Some(v) => if v <= usize::MAX { Some(v as usize) } else { None },
        None => None,
    }
}

/// The error of a value that does not parse.
pub open spec fn invalid_value(line: nat, key: Seq<char>, value: Seq<char>) -> ConfigErrorView {
    ConfigErrorView::InvalidValue { line, key, value }
}

/// What setting `key` to `value` on line `line` does to the settings.
pub open spec fn apply_setting(cfg: ConfigView, line: nat, key: Seq<char>, value: Seq<char>) -> Result<ConfigView, ConfigErrorView> {
    if key == "library_root"@ {
        Ok(ConfigView { library_root: Some(string_value(value)), ..cfg })
    } else if key == "ipc_socket"@ {
        Ok(ConfigView { ipc_socket: Some(string_value(value)), ..cfg })
    } else if key == "listen"@ {
        match parse_socket_spec(string_value(value)) {
            Some(a) => Ok(ConfigView { listen: Some(a), ..cfg }),
            None => Err(invalid_value(line, key, string_value(value))),
        }
    } else if key == "discovery_port"@ {
        match unsigned_value(value) {
            Some(v) => if v <= 65535 { Ok(ConfigView { discovery_port: Some(v as u16), ..cfg }) } else { Err(invalid_value(line, key, value)) },
            None => Err(invalid_value(line, key, value)),
        }
    } else if key == "discovery_multicast"@ {
        match parse_ipv4_spec(string_value(value)) {
            Some(m) => if m.spec_is_multicast() {
                Ok(ConfigView { discovery_multicast: Some(m), ..cfg })
            } else {
                Err(invalid_value(line, key, ipv4_text(m)))
            },
            None => Err(invalid_value(line, key, string_value(value))),
        }
    } else if key == "discovery_timeout_ms"@ {
        match unsigned_value(value) {
            Some(v) => if v <= u64::MAX { Ok(ConfigView { discovery_timeout_ms: Some(v as u64), ..cfg }) } else { Err(invalid_value(line, key, value)) },
            None => Err(invalid_value(line, key, value)),
        }
    } else if key == "request_window"@ {
        match usize_setting(value) {
            Some(v) => Ok(ConfigView { request_window: Some(v), ..cfg }),
            None => Err(invalid_value(line, key, value)),
        }
    } else if key == "parallel"@ {
        match usize_setting(value) {
            Some(v) => Ok(ConfigView { parallel: Some(v), ..cfg }),
            None => Err(invalid_value(line, key, value)),
        }
    } else if key == "auth_psk"@ {
        Ok(ConfigView { auth_psk: Some(string_value(value)), ..cfg })
    } else {
        Err(ConfigErrorView::UnknownKey { line, key })
    }
}

/// What line `line` (counted from 1) with text `raw` does to the settings.
pub open spec fn apply_line(cfg: ConfigView, line: nat, raw: Seq<char>) -> Result<ConfigView, ConfigErrorView> {
    let text = trimmed(without_comment(raw));
    if text.len() == 0 {
        Ok(cfg)
    } else {
        let eq = find_char(text, '=');
        if eq == text.len() {
            Err(ConfigErrorView::InvalidLine { line, message: "expected `key = value`"@ })
        } else {
            let key = trimmed(text.take(eq));
            let value = trimmed(text.skip(eq + 1));
            if key.len() == 0 || value.len() == 0 {
                Err(ConfigErrorView::InvalidLine { line, message: "key and value must be non-empty"@ })
            } else {
                apply_setting(cfg, line, key, value)
            }
        }
    }
}

proof fn lemma_no_comment(line: Seq<char>)
    requires
        forall|i: int| 0 <= i < line.len() ==> #[trigger] line[i] != '#',
    ensures
        comment_scan(line).0 == line,
        !comment_scan(line).3,
    decreases line.len(),
{
    if line.len() > 0 {
        let init = line.drop_last();
        assert forall|i: int| 0 <= i < init.len() implies #[trigger] init[i] != '#' by {
            assert(init[i] == line[i]);
        }
        lemma_no_comment(init);
        assert(init.push(line.last()) =~= line);
    }
}

/// The three settings whose values are strings.
pub open spec fn string_key(key: Seq<char>) -> bool {
    key == "library_root"@ || key == "ipc_socket"@ || key == "auth_psk"@
}

/// A key with no white space at its ends, no `=` and no `#`.
spec fn plain_key(key: Seq<char>) -> bool {
    &&& key.len() > 0
    &&& !is_white(key[0])
    &&& !is_white(key.last())
    &&& forall|i: int| 0 <= i < key.len() ==> #[trigger] key[i] != '=' && key[i] != '#'
}

proof fn lemma_string_keys_plain(key: Seq<char>)
    requires
        string_key(key),
    ensures
        plain_key(key),
{
    reveal_strlit("library_root");
    reveal_strlit("ipc_socket");
    reveal_strlit("auth_psk");
}

/// A value with no white space at its ends and no `#`.
spec fn plain_value(value: Seq<char>) -> bool {
    &&& value.len() > 0
    &&& !is_white(value[0])
    &&& !is_white(value.last())
    &&& forall|i: int| 0 <= i < value.len() ==> #[trigger] value[i] != '#'
}

proof fn lemma_line_text(key: Seq<char>, value: Seq<char>)
    requires
        plain_key(key),
        plain_value(value),
    ensures
        trimmed(without_comment(key + " = "@ + value)) == key + " = "@ + value,
        find_char(key + " = "@ + value, '=') == key.len() + 1,
{
    reveal_strlit(" = ");
    let raw = key + " = "@ + value;
    let n = key.len() as int;
    assert forall|i: int| 0 <= i < raw.len() implies #[trigger] raw[i] != '#' by {
        if i < n {
            assert(raw[i] == key[i]);
        } else if i >= n + 3 {
            assert(raw[i] == value[i - n - 3]);
        }
    }
    lemma_no_comment(raw);
    assert(raw[0] == key[0]);
    assert(raw.last() == value.last());
    lemma_trimmed_exact(raw);
    assert forall|k: int| 0 <= k < n + 1 implies raw[k] != '=' by {
        if k < n {
            assert(raw[k] == key[k]);
        }
    }
    assert(raw[n + 1] == '=');
    lemma_find_char_is(raw, '=', n + 1);
}

proof fn lemma_line_sides(key: Seq<char>, value: Seq<char>)
    requires
        plain_key(key),
        plain_value(value),
    ensures
        trimmed((key + " = "@ + value).take(key.len() as int + 1)) == key,
        trimmed((key + " = "@ + value).skip(key.len() as int + 2)) == value,
{
    reveal_strlit(" = ");
    let raw = key + " = "@ + value;
    let n = key.len() as int;
    assert(is_white(' '));
    let before = raw.take(n + 1);
    assert(before =~= key.push(' '));
    assert(trailing_white(key) == 0);
    assert(before.drop_last() =~= key);
    assert(trailing_white(before) == 1);
    assert(leading_white(before) == 0);
    assert(before.skip(0) =~= before);
    assert(before.take(before.len() - 1) =~= key);
    let after = raw.skip(n + 2);
    assert(after =~= seq![' '] + value);
    assert(after.drop_first() =~= value);
    assert(leading_white(value) == 0);
    assert(leading_white(after) == 1);
    assert(after.skip(1) =~= value);
    assert(trailing_white(value) == 0);
    assert(value.take(value.len() as int) =~= value);
}

/// A line `key = value` for a string setting sets it to the string that the
/// whole value stands for, `=` signs and all: everything after the first `=`
/// is the value. (The value is taken without white space at its ends and
/// without a `#`, which would begin a comment.)
pub proof fn lemma_string_setting_line(cfg: ConfigView, line: nat, key: Seq<char>, value: Seq<char>)
    requires
        string_key(key),
        value.len() > 0,
        !is_white(value[0]),
        !is_white(value.last()),
        forall|i: int| 0 <= i < value.len() ==> #[trigger] value[i] != '#',
    ensures
        apply_line(cfg, line, key + " = "@ + value) == Ok::<ConfigView, ConfigErrorView>(
            if key == "library_root"@ {
                ConfigView { library_root: Some(string_value(value)), ..cfg }
            } else if key == "ipc_socket"@ {
                ConfigView { ipc_socket: Some(string_value(value)), ..cfg }
            } else {
                ConfigView { auth_psk: Some(string_value(value)), ..cfg }
            },
        ),
{
    lemma_string_keys_plain(key);
    lemma_line_text(key, value);
    lemma_line_sides(key, value);
    reveal_strlit("library_root");
    reveal_strlit("ipc_socket");
    reveal_strlit("auth_psk");
    reveal_strlit("listen");
    reveal_strlit("discovery_port");
    reveal_strlit("discovery_multicast");
    reveal_strlit("discovery_timeout_ms");
    reveal_strlit("request_window");
    reveal_strlit("parallel");
    let raw = key + " = "@ + value;
    let text = trimmed(without_comment(raw));
    let eq = find_char(text, '=');
    assert(eq == key.len() + 1);
    assert(trimmed(text.take(eq)) == key);
    assert(trimmed(text.skip(eq + 1)) == value);
    assert(apply_line(cfg, line, raw) == apply_setting(cfg, line, key, value));
    if key == "auth_psk"@ {
        assert(key != "listen"@ && key != "discovery_port"@ && key != "discovery_multicast"@);
        assert(key != "discovery_timeout_ms"@ && key != "request_window"@ && key != "parallel"@);
        assert(key != "library_root"@ && key != "ipc_socket"@);
    }
}

/// The settings that the lines give, or the error of the first bad line.
pub open spec fn parse_lines(lines: Seq<Seq<char>>) -> Result<ConfigView, ConfigErrorView>
    decreases lines.len(),
{
    if lines.len() == 0 {
        Ok(empty_config())
    } else {
        match parse_lines(lines.drop_last()) {
            Err(e) => Err(e),
            Ok(cfg) => apply_line(cfg, lines.len(), lines.last()),
        }
    }
}

/// The settings that a configuration text gives, or the error of its first
/// bad line.
pub open spec fn parse_config_spec(source: Seq<char>) -> Result<ConfigView, ConfigErrorView> {
    parse_lines(text_lines(source))
}

fn chars_string(chars: &[char]) -> (s: String)
    ensures
        s@ == chars@,
{
    string_from_chars(chars)
}

fn invalid_value_error(line: usize, key: &[char], value: &[char]) -> (e: ConfigError)
    ensures
        e@ == invalid_value(line as nat, key@, value@),
{
    ConfigError::InvalidValue { line, key: chars_string(key), value: chars_string(value) }
}

/// Applies one setting.
fn apply_setting_exec(config: &mut EtleConfig, line: usize, key: &[char], value: &[char]) -> (r: Result<(), ConfigError>)
    ensures
        match apply_setting(old(config)@, line as nat, key@, value@) {
            Ok(c) => r is Ok && final(config)@ == c,
            Err(e) => r matches Err(x) && x@ == e,
        },
{
    let key_text = chars_string(key);
    let k = key_text.as_str();
    if str_equal(k, "library_root") {
        config.library_root = Some(chars_string(parse_string_value(value).as_slice()));
        Ok(())
    } else if str_equal(k, "ipc_socket") {
        config.ipc_socket = Some(chars_string(parse_string_value(value).as_slice()));
        Ok(())
    } else if str_equal(k, "listen") {
        let s = parse_string_value(value);
        match parse_socket(s.as_slice()) {
            Some(a) => {
                config.listen = Some(a);
                Ok(())
            },
            None => Err(invalid_value_error(line, key, s.as_slice())),
        }
    } else if str_equal(k, "discovery_port") {
        match parse_unsigned(value, 65535) {
            Some(v) => {
                config.discovery_port = Some(v as u16);
                Ok(())
            },
            None => Err(invalid_value_error(line, key, value)),
        }
    } else if str_equal(k, "discovery_multicast") {
        let s = parse_string_value(value);
        match parse_ipv4(s.as_slice()) {
            Some(m) => {
                if m.is_multicast() {
                    config.discovery_multicast = Some(m);
                    Ok(())
                } else {
                    let text = m.to_string();
                    Err(ConfigError::InvalidValue { line, key: key_text, value: text })
                }
            },
            None => Err(invalid_value_error(line, key, s.as_slice())),
        }
    } else if str_equal(k, "discovery_timeout_ms") {
        match parse_unsigned(value, u64::MAX) {
            Some(v) => {
                config.discovery_timeout_ms = Some(v);
                Ok(())
            },
            None => Err(invalid_value_error(line, key, value)),
        }
    } else if str_equal(k, "request_window") {
        match parse_unsigned(value, usize::MAX as u64) {
            Some(v) => {
                config.request_window = Some(v as usize);
                Ok(())
            },
            None => Err(invalid_value_error(line, key, value)),
        }
    } else if str_equal(k, "parallel") {
        match parse_unsigned(value, usize::MAX as u64) {
            Some(v) => {
                config.parallel = Some(v as usize);
                Ok(())
            },
            None => Err(invalid_value_error(line, key, value)),
        }
    } else if str_equal(k, "auth_psk") {
        config.auth_psk = Some(chars_string(parse_string_value(value).as_slice()));
        Ok(())
    } else {
        Err(ConfigError::UnknownKey { line, key: key_text })
    }
}

/// Applies one line.
fn apply_line_exec(config: &mut EtleConfig, line: usize, raw: &[char]) -> (r: Result<(), ConfigError>)
    ensures
        match apply_line(old(config)@, line as nat, raw@) {
            Ok(c) => r is Ok && final(config)@ == c,
            Err(e) => r matches Err(x) && x@ == e,
        },
{
    let stripped = strip_comment(raw);
    let text = trim_chars(stripped.as_slice());
    if text.len() == 0 {
        return Ok(());
    }
    let mut eq: usize = 0;
    while eq < text.len() && text[eq] != '='
        invariant
            eq <= text@.len(),
            forall|k: int| 0 <= k < eq ==> text@[k] != '=',
        decreases text@.len() - eq,
    {
        eq = eq + 1;
    }
    proof {
        lemma_find_char_is(text@, '=', eq as int);
    }
    if eq == text.len() {
        return Err(ConfigError::InvalidLine { line, message: "expected `key = value`".to_string() });
    }
    let key = trim_chars(&text.as_slice()[0..eq]);
    let value = trim_chars(&text.as_slice()[eq + 1..text.len()]);
    proof {
        assert(text@.subrange(0, eq as int) =~= text@.take(eq as int));
        assert(text@.subrange(eq + 1, text@.len() as int) =~= text@.skip(eq + 1));
    }
    if key.len() == 0 || value.len() == 0 {
        return Err(ConfigError::InvalidLine { line, message: "key and value must be non-empty".to_string() });
    }
    apply_setting_exec(config, line, key.as_slice(), value.as_slice())
}

/// Parses a configuration text: each non-blank line, without its comment, is
/// `key = value` for a known key with a value that parses; the first bad line
/// fails the whole text with its line number.
pub fn parse(source: &str) -> (r: Result<EtleConfig, ConfigError>)
    ensures
        match parse_config_spec(source@) {
            Ok(c) => r matches Ok(x) && x@ == c,
            Err(e) => r matches Err(x) && x@ == e,
        },
{
    let chars = chars_of(source);
    let lines = text_lines_exec(chars.as_slice());
    let ghost all = text_lines(source@);
    let mut config = EtleConfig::default();
    let mut i: usize = 0;
    while i < lines.len()
        invariant
            lines@.len() == all.len(),
            all == text_lines(source@),
            forall|k: int| 0 <= k < lines@.len() ==> (#[trigger] lines@[k])@ == all[k],
            i <= lines@.len(),
            parse_lines(all.take(i as int)) matches Ok(c) && c == config@,
        decreases lines@.len() - i,
    {
        proof {
            assert(all.take(i + 1).drop_last() =~= all.take(i as int));
            assert(all.take(i + 1).last() == lines@[i as int]@);
        }
        match apply_line_exec(&mut config, i + 1, lines[i].as_slice()) {
            Ok(()) => {},
            Err(e) => {
                proof {
                    lemma_parse_lines_failed(all, i as int + 1);
                }
                return Err(e);
            },
        }
        i = i + 1;
    }
    assert(all.take(i as int) =~= all);
    Ok(config)
}

/// A failure on a line fails all the text.
proof fn lemma_parse_lines_failed(lines: Seq<Seq<char>>, k: int)
    requires
        0 < k <= lines.len(),
        parse_lines(lines.take(k)) is Err,
    ensures
        parse_lines(lines) == parse_lines(lines.take(k)),
    decreases lines.len(),
{
    if k < lines.len() {
        assert(lines.drop_last().take(k) =~= lines.take(k));
        lemma_parse_lines_failed(lines.drop_last(), k);
    } else {
        assert(lines.take(k) =~= lines);
    }
}

} // verus!
