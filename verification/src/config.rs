//! The persisted configuration record and its JSON encoding.
//!
//! The record holds at most one field, the last generated seed. It is
//! persisted as a small JSON document with a single `"seed"` member, either a
//! string or `null`. The renderer and the parser here fix that document
//! format exactly, and parsing undoes rendering: loading a saved record gives
//! the record back. Anything that is not a document in this shape parses to
//! the default (empty) record, never to an error.

use vstd::prelude::*;
use crate::hex::{hex_digit, hex_val, is_lower_hex_char};
use crate::text::{chars_to_string, str_to_chars};

verus! {

/// The configuration record: the last generated seed, if any.
#[derive(Debug)]
pub struct Config {
    /// The persisted seed value.
    pub seed: Option<String>,
}

impl View for Config {
    type V = Option<Seq<char>>;

    open spec fn view(&self) -> Option<Seq<char>> {
        match self.seed {
            Some(s) => Some(s@),
            None => None,
        }
    }
}

impl Default for Config {
    /// The empty record: no seed stored yet.
    fn default() -> (c: Config)
        ensures
            c@ is None,
    {
        Config { seed: None }
    }
}

impl Config {
    /// Replaces the stored seed, keeping nothing of the old value.
    pub fn set_seed(&mut self, seed: String)
        ensures
            final(self)@ == Some(seed@),
    {
        self.seed = Some(seed);
    }
}

/// The document up to the seed member's value: an opening brace, a line
/// break, two spaces of indentation, the quoted member name, a colon and a
/// space.
pub open spec fn json_open() -> Seq<char> {
    seq!['{', '\n', ' ', ' ', '"', 's', 'e', 'e', 'd', '"', ':', ' ']
}

/// The document after a string value: its closing quote, a line break and
/// the closing brace.
pub open spec fn json_str_close() -> Seq<char> {
    seq!['"', '\n', '}']
}

/// The escape letters of the control characters JSON gives a short escape.
pub open spec fn is_short_escape(e: char) -> bool {
    e == 'b' || e == 't' || e == 'n' || e == 'f' || e == 'r'
}

/// The control character a short escape letter stands for.
pub open spec fn short_escape_char(e: char) -> char {
    if e == 'b' {
        '\u{8}'
    } else if e == 't' {
        '\u{9}'
    } else if e == 'n' {
        '\u{a}'
    } else if e == 'f' {
        '\u{c}'
    } else {
        '\u{d}'
    }
}

/// The escaping of one character inside the value's quotes, as JSON asks: a
/// backslash before a quote or a backslash, the short escape for the control
/// characters that have one, a `\u00` escape with two lowercase digits for
/// the other control characters, and everything else unchanged.
pub open spec fn esc_char(c: char) -> Seq<char> {
    if c == '"' {
        seq!['\\', '"']
    } else if c == '\\' {
        seq!['\\', '\\']
    } else if c == '\u{8}' {
        seq!['\\', 'b']
    } else if c == '\u{9}' {
        seq!['\\', 't']
    } else if c == '\u{a}' {
        seq!['\\', 'n']
    } else if c == '\u{c}' {
        seq!['\\', 'f']
    } else if c == '\u{d}' {
        seq!['\\', 'r']
    } else if (c as u32) < 0x20 {
        seq!['\\', 'u', '0', '0', hex_digit(c as u32 as int / 16), hex_digit(c as u32 as int % 16)]
    } else {
        seq![c]
    }
}

/// The escaping applied to a whole seed value.
pub open spec fn escape(s: Seq<char>) -> Seq<char>
    decreases s.len(),
{
    if s.len() == 0 {
        seq![]
    } else {
        esc_char(s[0]) + escape(s.drop_first())
    }
}

/// Prepends a read character to the rest of an unescaped value, keeping a
/// failure a failure.
pub open spec fn unescape_cons(c: char, rest: Option<Seq<char>>) -> Option<Seq<char>> {
    match rest {
        Some(r) => Some(seq![c] + r),
        None => None,
    }
}

/// The inverse reading of an escaped value. `None` where the characters are
/// not something [`esc_char`] emits: a lone trailing backslash, a backslash
/// before anything but the escapes above, an unescaped quote, or a raw
/// control character — such a document is not valid JSON and parses to
/// nothing.
pub open spec fn unescape(s: Seq<char>) -> Option<Seq<char>>
    decreases s.len(),
{
    if s.len() == 0 {
        Some(seq![])
    } else if s[0] == '\\' {
        if s.len() >= 2 && (s[1] == '"' || s[1] == '\\') {
            unescape_cons(s[1], unescape(s.skip(2)))
        } else if s.len() >= 2 && is_short_escape(s[1]) {
            unescape_cons(short_escape_char(s[1]), unescape(s.skip(2)))
        } else if s.len() >= 6 && s[1] == 'u' && s[2] == '0' && s[3] == '0'
            && is_lower_hex_char(s[4]) && is_lower_hex_char(s[5])
            && 16 * hex_val(s[4]) + hex_val(s[5]) < 0x20 {
            unescape_cons(
                ((16 * hex_val(s[4]) + hex_val(s[5])) as u32) as char,
                unescape(s.skip(6)),
            )
        } else {
            None
        }
    } else if s[0] == '"' || (s[0] as u32) < 0x20 {
        None
    } else {
        unescape_cons(s[0], unescape(s.drop_first()))
    }
}

/// The rendered document for a record: a quoted, escaped string value for a
/// stored seed, `null` for an empty record.
pub open spec fn render_spec(v: Option<Seq<char>>) -> Seq<char> {
    match v {
        None => json_open() + seq!['n', 'u', 'l', 'l', '\n', '}'],
        Some(s) => json_open() + seq!['"'] + escape(s) + json_str_close(),
    }
}

/// The seed a document parses to: the unescaped value between the quotes of
/// a document in exactly the rendered string shape, and nothing otherwise.
pub open spec fn parsed_seed(s: Seq<char>) -> Option<Seq<char>> {
    if s.len() >= 16 && s.subrange(0, 12) == json_open() && s[12] == '"' && s.subrange(
        s.len() - 3,
        s.len() as int,
    ) == json_str_close() {
        unescape(s.subrange(13, s.len() - 3))
    } else {
        None
    }
}

/// Reading an escaped value back undoes the escaping.
pub proof fn lemma_unescape_escape(s: Seq<char>)
    ensures
        unescape(escape(s)) == Some(s),
    decreases s.len(),
{
    if s.len() > 0 {
        let c = s[0];
        let rest = s.drop_first();
        lemma_unescape_escape(rest);
        let es = esc_char(c) + escape(rest);
        assert(seq![c] + rest =~= s);
        if c == '"' || c == '\\' {
            assert(es.skip(2) =~= escape(rest));
        } else if c == '\u{8}' || c == '\u{9}' || c == '\u{a}' || c == '\u{c}' || c == '\u{d}' {
            assert(es.skip(2) =~= escape(rest));
            assert(short_escape_char(es[1]) == c);
        } else if (c as u32) < 0x20 {
            let k = c as u32 as int;
            crate::hex::lemma_hex_val_digit(k / 16);
            crate::hex::lemma_hex_val_digit(k % 16);
            assert(es.skip(6) =~= escape(rest));
            assert(16 * hex_val(es[4]) + hex_val(es[5]) == k);
            assert(((k as u32) as char) == c) by {
                vstd::utf8::char_u32_cast(c, c as u32);
            }
        } else {
            assert(es.drop_first() =~= escape(rest));
        }
    }
}

/// Parsing undoes rendering: the document written for a record parses back
/// to exactly that record's seed.
pub proof fn lemma_config_round_trip(v: Option<Seq<char>>)
    ensures
        parsed_seed(render_spec(v)) == v,
{
    let r = render_spec(v);
    match v {
        None => {
            assert(r[12] == 'n');
        },
        Some(s) => {
            lemma_escape_len(s);
            assert(r.len() == 16 + escape(s).len());
            assert(r.subrange(0, 12) =~= json_open());
            assert(r[12] == '"');
            assert(r.subrange(r.len() - 3, r.len() as int) =~= json_str_close());
            assert(r.subrange(13, r.len() - 3) =~= escape(s));
            lemma_unescape_escape(s);
        },
    }
}

/// Escaping treats one appended character independently of what stands
/// before it.
proof fn lemma_escape_snoc(s: Seq<char>, c: char)
    ensures
        escape(s.push(c)) == escape(s) + esc_char(c),
    decreases s.len(),
{
    if s.len() == 0 {
        assert(s.push(c) =~= seq![c]);
        assert(s.push(c)[0] == c);
        assert(s.push(c).drop_first() =~= Seq::<char>::empty());
        assert(escape(s.push(c).drop_first()) =~= Seq::<char>::empty());
        assert(escape(s.push(c)) =~= esc_char(c));
        assert(escape(s) + esc_char(c) =~= esc_char(c));
    } else {
        let t = s.push(c);
        assert(t[0] == s[0]);
        assert(t.drop_first() =~= s.drop_first().push(c));
        lemma_escape_snoc(s.drop_first(), c);
        assert(escape(t) =~= escape(s) + esc_char(c));
    }
}

/// Appends the escaped form of the characters of `v` to `out`.
fn escape_into(out: &mut Vec<char>, v: &Vec<char>)
    ensures
        final(out)@ == old(out)@ + escape(v@),
{
    let n = v.len();
    for i in 0..n
        invariant
            n == v@.len(),
            out@ =~= old(out)@ + escape(v@.take(i as int)),
    {
        let c = v[i];
        if c == '"' || c == '\\' {
            out.push('\\');
            out.push(c);
        } else if c == '\u{8}' {
            out.push('\\');
            out.push('b');
        } else if c == '\u{9}' {
            out.push('\\');
            out.push('t');
        } else if c == '\u{a}' {
            out.push('\\');
            out.push('n');
        } else if c == '\u{c}' {
            out.push('\\');
            out.push('f');
        } else if c == '\u{d}' {
            out.push('\\');
            out.push('r');
        } else {
            let u = c as u32;
            if u < 0x20 {
                out.push('\\');
                out.push('u');
                out.push('0');
                out.push('0');
                out.push(crate::hex::hex_digit_char((u / 16) as u8));
                out.push(crate::hex::hex_digit_char((u % 16) as u8));
            } else {
                out.push(c);
            }
        }
        proof {
            lemma_escape_snoc(v@.take(i as int), v@[i as int]);
            assert(v@.take(i as int).push(v@[i as int]) =~= v@.take(i + 1));
            assert(out@ =~= old(out)@ + escape(v@.take(i as int)) + esc_char(c));
        }
    }
    assert(v@.take(n as int) =~= v@);
}

/// Renders a record as its JSON document.
pub fn render_config(c: &Config) -> (r: String)
    ensures
        r@ == render_spec(c@),
{
    let mut out: Vec<char> = Vec::new();
    out.push('{');
    out.push('\n');
    out.push(' ');
    out.push(' ');
    out.push('"');
    out.push('s');
    out.push('e');
    out.push('e');
    out.push('d');
    out.push('"');
    out.push(':');
    out.push(' ');
    assert(out@ =~= json_open());
    match &c.seed {
        None => {
            out.push('n');
            out.push('u');
            out.push('l');
            out.push('l');
            out.push('\n');
            out.push('}');
            assert(out@ =~= render_spec(c@));
        },
        Some(s) => {
            out.push('"');
            let sv = str_to_chars(s.as_str());
            escape_into(&mut out, &sv);
            out.push('"');
            out.push('\n');
            out.push('}');
            assert(out@ =~= render_spec(c@));
        },
    }
    chars_to_string(&out)
}

/// Reads a record back from a JSON document.
///
/// A document in exactly the rendered string shape gives the record with
/// that seed; everything else, the rendered `null` document included, gives
/// the default record.
pub fn parse_config(s: &str) -> (c: Config)
    ensures
        c@ == parsed_seed(s@),
{
    let v = str_to_chars(s);
    let n = v.len();
    if n < 16 {
        return Config { seed: None };
    }
    let pre_ok = v[0] == '{' && v[1] == '\n' && v[2] == ' ' && v[3] == ' ' && v[4] == '"'
        && v[5] == 's' && v[6] == 'e' && v[7] == 'e' && v[8] == 'd' && v[9] == '"'
        && v[10] == ':' && v[11] == ' ' && v[12] == '"';
    let suf_ok = v[n - 3] == '"' && v[n - 2] == '\n' && v[n - 1] == '}';
    if !pre_ok || !suf_ok {
        proof {
            if s@.subrange(0, 12) == json_open() && s@.subrange(n - 3, n as int)
                == json_str_close() {
                assert(s@.subrange(0, 12)[0] == s@[0]);
                assert(s@.subrange(0, 12)[1] == s@[1]);
                assert(s@.subrange(0, 12)[2] == s@[2]);
                assert(s@.subrange(0, 12)[3] == s@[3]);
                assert(s@.subrange(0, 12)[4] == s@[4]);
                assert(s@.subrange(0, 12)[5] == s@[5]);
                assert(s@.subrange(0, 12)[6] == s@[6]);
                assert(s@.subrange(0, 12)[7] == s@[7]);
                assert(s@.subrange(0, 12)[8] == s@[8]);
                assert(s@.subrange(0, 12)[9] == s@[9]);
                assert(s@.subrange(0, 12)[10] == s@[10]);
                assert(s@.subrange(0, 12)[11] == s@[11]);
                assert(s@.subrange(n - 3, n as int)[0] == s@[n - 3]);
                assert(s@.subrange(n - 3, n as int)[1] == s@[n - 2]);
                assert(s@.subrange(n - 3, n as int)[2] == s@[n - 1]);
            }
        }
        return Config { seed: None };
    }
    let end = n - 3;
    let ghost mid = s@.subrange(13, end as int);
    let mut acc: Vec<char> = Vec::new();
    let mut i: usize = 13;
    while i < end
        invariant
            13 <= i <= end,
            end == n - 3,
            n == s@.len(),
            n >= 16,
            v@ == s@,
            mid == s@.subrange(13, end as int),
            unescape(mid) == match unescape(s@.subrange(i as int, end as int)) {
                Some(r) => Some(acc@ + r),
                None => None::<Seq<char>>,
            },
        decreases end - i,
    {
        let ghost sub = s@.subrange(i as int, end as int);
        assert(sub.len() == end - i);
        assert(sub[0] == s@[i as int]);
        let c = v[i];
        if c == '\\' {
            if i + 1 >= end {
                assert(sub.len() == 1);
                assert(unescape(sub) is None);
                return Config { seed: None };
            }
            let d = v[i + 1];
            assert(sub[1] == s@[i + 1]);
            if d == '"' || d == '\\' {
                assert(sub.skip(2) =~= s@.subrange(i + 2, end as int));
                acc.push(d);
                i = i + 2;
            } else if d == 'b' || d == 't' || d == 'n' || d == 'f' || d == 'r' {
                assert(sub.skip(2) =~= s@.subrange(i + 2, end as int));
                if d == 'b' {
                    acc.push('\u{8}');
                } else if d == 't' {
                    acc.push('\u{9}');
                } else if d == 'n' {
                    acc.push('\u{a}');
                } else if d == 'f' {
                    acc.push('\u{c}');
                } else {
                    acc.push('\u{d}');
                }
                i = i + 2;
            } else if d == 'u' {
                if end - i < 6 {
                    assert(sub.len() < 6);
                    assert(unescape(sub) is None);
                    return Config { seed: None };
                }
                assert(sub[2] == s@[i + 2]);
                assert(sub[3] == s@[i + 3]);
                assert(sub[4] == s@[i + 4]);
                assert(sub[5] == s@[i + 5]);
                let h1 = v[i + 4];
                let h2 = v[i + 5];
                if v[i + 2] == '0' && v[i + 3] == '0' && crate::hex::is_lower_hex(h1)
                    && crate::hex::is_lower_hex(h2) {
                    let code: u8 = 16 * crate::hex::hex_char_val(h1) + crate::hex::hex_char_val(h2);
                    if code < 0x20 {
                        assert(sub.skip(6) =~= s@.subrange(i + 6, end as int));
                        proof {
                            let a = code as char;
                            assert(a as u32 == code as u32);
                            vstd::utf8::char_u32_cast(a, code as u32);
                        }
                        acc.push(code as char);
                        i = i + 6;
                    } else {
                        assert(unescape(sub) is None);
                        return Config { seed: None };
                    }
                } else {
                    assert(unescape(sub) is None);
                    return Config { seed: None };
                }
            } else {
                assert(unescape(sub) is None);
                return Config { seed: None };
            }
        } else if c == '"' {
            assert(unescape(sub) is None);
            return Config { seed: None };
        } else if (c as u32) < 0x20 {
            assert(unescape(sub) is None);
            return Config { seed: None };
        } else {
            assert(sub.drop_first() =~= s@.subrange(i + 1, end as int));
            acc.push(c);
            i = i + 1;
        }
    }
    assert(s@.subrange(i as int, end as int) =~= Seq::<char>::empty());
    assert(unescape(mid) == Some(acc@ + Seq::<char>::empty()));
    assert(acc@ + Seq::<char>::empty() =~= acc@);
    proof {
        assert(s@.subrange(0, 12) =~= json_open());
        assert(s@.subrange(n - 3, n as int) =~= json_str_close());
    }
    let seed_string = chars_to_string(&acc);
    Config { seed: Some(seed_string) }
}

/// Builds the record a load yields, from the configuration file's contents
/// when one was readable.
///
/// A missing or unreadable file is no error: the load succeeds and yields
/// the default record, exactly as a readable document in no recognizable
/// shape does.
pub fn load_config(contents: Option<String>) -> (c: Config)
    ensures
        contents matches Some(d) ==> c@ == parsed_seed(d@),
        contents is None ==> c@ is None,
{
    match contents {
        Some(d) => parse_config(d.as_str()),
        None => Config { seed: None },
    }
}

/// Escaping grows a value by at most a factor of six, and never shortens it.
pub proof fn lemma_escape_len(s: Seq<char>)
    ensures
        s.len() <= escape(s).len() <= 6 * s.len(),
    decreases s.len(),
{
    if s.len() > 0 {
        lemma_escape_len(s.drop_first());
    }
}

} // verus!
