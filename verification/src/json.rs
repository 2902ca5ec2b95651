//! Character-level JSON machinery for the settings document: string
//! escaping, whitespace, and the primitive parsers, each an executable
//! function proved against a specification-level parser over character
//! sequences.  Escaped strings round-trip exactly: parsing the escape of a
//! string followed by a closing quote yields the string back.

use vstd::prelude::*;

verus! {

broadcast use vstd::string::group_string_axioms;

/// JSON insignificant whitespace.
pub open spec fn is_ws_char(c: char) -> bool {
    c == ' ' || c == '\n' || c == '\r' || c == '\t'
}

/// The sequence with its leading whitespace removed.
pub open spec fn skip_ws(t: Seq<char>) -> Seq<char>
    decreases t.len(),
{
    if t.len() > 0 && is_ws_char(t[0]) {
        skip_ws(t.drop_first())
    } else {
        t
    }
}

/// The character for a hexadecimal digit value (lower case).
pub open spec fn hex_digit(d: int) -> char {
    if d < 10 {
        (48 + d) as char
    } else {
        (87 + d) as char
    }
}

/// The value of a hexadecimal digit character, upper or lower case.
pub open spec fn hex_val(c: char) -> Option<int> {
    let ci = c as int;
    if 48 <= ci <= 57 {
        Some(ci - 48)
    } else if 97 <= ci <= 102 {
        Some(ci - 87)
    } else if 65 <= ci <= 70 {
        Some(ci - 55)
    } else {
        None
    }
}

/// How one character is written inside a JSON string: quote, backslash and
/// the named control characters get a two-character escape, the remaining
/// control characters a unicode escape, everything else stands literally.
pub open spec fn esc_char(c: char) -> Seq<char> {
    if c == '"' {
        seq!['\\', '"']
    } else if c == '\\' {
        seq!['\\', '\\']
    } else if c == '\n' {
        seq!['\\', 'n']
    } else if c == '\r' {
        seq!['\\', 'r']
    } else if c == '\t' {
        seq!['\\', 't']
    } else if c == '\u{8}' {
        seq!['\\', 'b']
    } else if c == '\u{c}' {
        seq!['\\', 'f']
    } else if (c as int) < 32 {
        seq!['\\', 'u', '0', '0', hex_digit((c as int) / 16), hex_digit((c as int) % 16)]
    } else {
        seq![c]
    }
}

/// How a whole string is written inside JSON quotes.
pub open spec fn esc(s: Seq<char>) -> Seq<char>
    decreases s.len(),
{
    if s.len() == 0 {
        Seq::empty()
    } else {
        esc_char(s[0]) + esc(s.drop_first())
    }
}

/// A string with its quotes: how a string value appears in the document.
pub open spec fn jstr(s: Seq<char>) -> Seq<char> {
    seq!['"'] + esc(s) + seq!['"']
}

/// Escaping distributes over concatenation.
pub proof fn lemma_esc_add(a: Seq<char>, b: Seq<char>)
    ensures
        esc(a + b) == esc(a) + esc(b),
    decreases a.len(),
{
    if a.len() == 0 {
        assert(a + b =~= b);
        assert(esc(a) + esc(b) =~= esc(b));
    } else {
        assert((a + b).drop_first() =~= a.drop_first() + b);
        lemma_esc_add(a.drop_first(), b);
        assert(esc(a + b) =~= esc_char(a[0]) + (esc(a.drop_first()) + esc(b)));
        assert(esc(a) + esc(b) =~= esc_char(a[0]) + (esc(a.drop_first()) + esc(b)));
    }
}

/// The meaning of one escape sequence, entered just after the backslash.
pub open spec fn parse_escape(t: Seq<char>) -> Option<(char, Seq<char>)> {
    if t.len() == 0 {
        None
    } else if t[0] == '"' {
        Some(('"', t.drop_first()))
    } else if t[0] == '\\' {
        Some(('\\', t.drop_first()))
    } else if t[0] == '/' {
        Some(('/', t.drop_first()))
    } else if t[0] == 'n' {
        Some(('\n', t.drop_first()))
    } else if t[0] == 'r' {
        Some(('\r', t.drop_first()))
    } else if t[0] == 't' {
        Some(('\t', t.drop_first()))
    } else if t[0] == 'b' {
        Some(('\u{8}', t.drop_first()))
    } else if t[0] == 'f' {
        Some(('\u{c}', t.drop_first()))
    } else if t[0] == 'u' && t.len() >= 5 {
        if hex_val(t[1]) is Some && hex_val(t[2]) is Some && hex_val(t[3]) is Some && hex_val(
            t[4],
        ) is Some {
            let code = hex_val(t[1])->0 * 4096 + hex_val(t[2])->0 * 256 + hex_val(t[3])->0 * 16
                + hex_val(t[4])->0;
            if code < 32 {
                Some((code as char, t.skip(5)))
            } else {
                None
            }
        } else {
            None
        }
    } else {
        None
    }
}

/// The body of a JSON string, entered just after the opening quote:
/// everything up to the unescaped closing quote, with escapes decoded, and
/// what follows that quote.  Control characters standing literally are
/// accepted.
pub open spec fn parse_string_body(t: Seq<char>) -> Option<(Seq<char>, Seq<char>)>
    decreases t.len(),
{
    if t.len() == 0 {
        None
    } else if t[0] == '"' {
        Some((Seq::empty(), t.drop_first()))
    } else if t[0] == '\\' {
        match parse_escape(t.drop_first()) {
            Some(p) => if p.1.len() < t.len() {
                match parse_string_body(p.1) {
                    Some(q) => Some((seq![p.0] + q.0, q.1)),
                    None => None,
                }
            } else {
                None
            },
            None => None,
        }
    } else {
        match parse_string_body(t.drop_first()) {
            Some(q) => Some((seq![t[0]] + q.0, q.1)),
            None => None,
        }
    }
}

/// A quoted string value: the opening quote, then the body.
pub open spec fn parse_string(t: Seq<char>) -> Option<(Seq<char>, Seq<char>)> {
    if t.len() > 0 && t[0] == '"' {
        parse_string_body(t.drop_first())
    } else {
        None
    }
}

/// Parsing the escape of a character is that character.
proof fn lemma_parse_esc_char(c: char, rest: Seq<char>)
    ensures
        parse_escape(esc_char(c).drop_first() + rest) == Some((c, rest)) || (esc_char(c).len() == 1
            && esc_char(c)[0] == c && c != '"' && c != '\\'),
{
    let e = esc_char(c);
    if c == '"' || c == '\\' || c == '\n' || c == '\r' || c == '\t' || c == '\u{8}' || c
        == '\u{c}' {
        let t = e.drop_first() + rest;
        assert(t[0] == e[1]);
        assert(t.drop_first() =~= rest);
    } else if (c as int) < 32 {
        let t = e.drop_first() + rest;
        assert(t.len() == 5 + rest.len());
        assert(t[0] == 'u');
        assert(t[1] == '0');
        assert(t[2] == '0');
        assert(t[3] == hex_digit((c as int) / 16));
        assert(t[4] == hex_digit((c as int) % 16));
        let hi = (c as int) / 16;
        let lo = (c as int) % 16;
        assert(0 <= hi < 2);
        assert(0 <= lo < 16);
        assert(hex_val(hex_digit(hi)) == Some(hi));
        assert(hex_val(hex_digit(lo)) == Some(lo));
        assert(hex_val('0') == Some(0int));
        let code = 0 * 4096 + 0 * 256 + hi * 16 + lo;
        assert(code == c as int);
        assert(code < 32);
        assert((code as char) == c);
        assert(t.skip(5) =~= rest);
    } else {
        assert(e =~= seq![c]);
    }
}

/// The string round trip: parsing the escape of `s`, closed by a quote,
/// yields `s` and what follows the quote.
#[verifier::rlimit(60)]
pub proof fn lemma_parse_esc(s: Seq<char>, rest: Seq<char>)
    ensures
        parse_string_body(esc(s) + seq!['"'] + rest) == Some((s, rest)),
    decreases s.len(),
{
    let t = esc(s) + seq!['"'] + rest;
    if s.len() == 0 {
        assert(esc(s) =~= Seq::<char>::empty());
        assert(t =~= seq!['"'] + rest);
        assert(t[0] == '"');
        assert(t.drop_first() =~= rest);
    } else {
        let c = s[0];
        let tail = s.drop_first();
        lemma_parse_esc(tail, rest);
        let t2 = esc(tail) + seq!['"'] + rest;
        assert(t =~= esc_char(c) + t2);
        lemma_parse_esc_char(c, t2);
        if esc_char(c).len() == 1 && esc_char(c)[0] == c && c != '"' && c != '\\' {
            assert(t[0] == c);
            assert(t.drop_first() =~= t2);
            assert(parse_string_body(t) == Some((seq![c] + tail, rest)));
            assert(seq![c] + tail =~= s);
        } else {
            assert(esc_char(c)[0] == '\\');
            assert(t[0] == '\\');
            assert(t.drop_first() =~= esc_char(c).drop_first() + t2);
            assert(parse_escape(t.drop_first()) == Some((c, t2)));
            assert(t2.len() < t.len());
            assert(parse_string_body(t) == Some((seq![c] + tail, rest)));
            assert(seq![c] + tail =~= s);
        }
    }
}

/// Skipping whitespace before a non-whitespace head changes nothing.
pub proof fn lemma_skip_ws_noop(t: Seq<char>)
    requires
        t.len() == 0 || !is_ws_char(t[0]),
    ensures
        skip_ws(t) == t,
{
}

/// Whether this character is JSON whitespace.
pub fn is_ws(c: char) -> (r: bool)
    ensures
        r == is_ws_char(c),
{
    c == ' ' || c == '\n' || c == '\r' || c == '\t'
}

/// Advance past whitespace.
pub fn scan_ws(v: &Vec<char>, i: usize) -> (j: usize)
    requires
        i <= v.len(),
    ensures
        i <= j <= v.len(),
        v@.skip(j as int) == skip_ws(v@.skip(i as int)),
{
    let mut j = i;
    while j < v.len() && is_ws(v[j])
        invariant
            i <= j <= v.len(),
            skip_ws(v@.skip(i as int)) == skip_ws(v@.skip(j as int)),
        decreases v.len() - j,
    {
        proof {
            assert(v@.skip(j as int)[0] == v@[j as int]);
            assert(v@.skip(j as int).drop_first() =~= v@.skip(j + 1 as int));
        }
        j = j + 1;
    }
    proof {
        if j < v.len() {
            assert(v@.skip(j as int)[0] == v@[j as int]);
            lemma_skip_ws_noop(v@.skip(j as int));
        } else {
            assert(v@.skip(j as int).len() == 0);
            lemma_skip_ws_noop(v@.skip(j as int));
        }
    }
    j
}

/// The value of one hexadecimal digit character.
fn hex_char_val(c: char) -> (r: Option<u8>)
    ensures
        match r {
            Some(d) => hex_val(c) == Some(d as int),
            None => hex_val(c) is None,
        },
{
    let cu = c as u32;
    if 48 <= cu && cu <= 57 {
        Some((cu - 48) as u8)
    } else if 97 <= cu && cu <= 102 {
        Some((cu - 87) as u8)
    } else if 65 <= cu && cu <= 70 {
        Some((cu - 55) as u8)
    } else {
        None
    }
}

/// Scan a JSON string body beginning at `start` (just after the opening
/// quote): the decoded characters and the position after the closing quote.
pub fn scan_string_body(v: &Vec<char>, start: usize) -> (r: Option<(Vec<char>, usize)>)
    requires
        start <= v.len(),
    ensures
        match r {
            None => parse_string_body(v@.skip(start as int)) is None,
            Some(p) => start < p.1 <= v@.len() && parse_string_body(v@.skip(start as int))
                == Some((p.0@, v@.skip(p.1 as int))),
        },
{
    let mut i = start;
    let mut acc: Vec<char> = Vec::new();
    loop
        invariant
            start <= i <= v.len(),
            ({
                let full = parse_string_body(v@.skip(start as int));
                match parse_string_body(v@.skip(i as int)) {
                    Some(p) => full == Some((acc@ + p.0, p.1)),
                    None => full is None,
                }
            }),
        decreases v.len() - i,
    {
        if i >= v.len() {
            proof {
                assert(v@.skip(i as int).len() == 0);
            }
            return None;
        }
        let c = v[i];
        proof {
            assert(v@.skip(i as int)[0] == v@[i as int]);
            assert(v@.skip(i as int).drop_first() =~= v@.skip(i + 1 as int));
        }
        if c == '"' {
            proof {
                assert(parse_string_body(v@.skip(i as int)) == Some(
                    (Seq::<char>::empty(), v@.skip(i + 1 as int)),
                ));
                assert(acc@ + Seq::<char>::empty() =~= acc@);
            }
            return Some((acc, i + 1));
        } else if c == '\\' {
            let ghost e = v@.skip(i as int).drop_first();
            if i + 1 >= v.len() {
                proof {
                    assert(e.len() == 0);
                }
                return None;
            }
            let x = v[i + 1];
            proof {
                assert(e[0] == v@[i + 1]);
            }
            let decoded: char;
            let consumed: usize;
            if x == '"' {
                decoded = '"';
                consumed = 2;
            } else if x == '\\' {
                decoded = '\\';
                consumed = 2;
            } else if x == '/' {
                decoded = '/';
                consumed = 2;
            } else if x == 'n' {
                decoded = '\n';
                consumed = 2;
            } else if x == 'r' {
                decoded = '\r';
                consumed = 2;
            } else if x == 't' {
                decoded = '\t';
                consumed = 2;
            } else if x == 'b' {
                decoded = '\u{8}';
                consumed = 2;
            } else if x == 'f' {
                decoded = '\u{c}';
                consumed = 2;
            } else if x == 'u' {
                if v.len() - (i + 2) < 4 {
                    proof {
                        assert(e.len() < 5);
                    }
                    return None;
                }
                let d1 = hex_char_val(v[i + 2]);
                let d2 = hex_char_val(v[i + 3]);
                let d3 = hex_char_val(v[i + 4]);
                let d4 = hex_char_val(v[i + 5]);
                proof {
                    assert(e.len() >= 5);
                    assert(e[1] == v@[i + 2]);
                    assert(e[2] == v@[i + 3]);
                    assert(e[3] == v@[i + 4]);
                    assert(e[4] == v@[i + 5]);
                }
                match (d1, d2, d3, d4) {
                    (Some(a), Some(b), Some(cc), Some(d)) => {
                        let code: u32 = (a as u32) * 4096 + (b as u32) * 256 + (cc as u32) * 16 + (
                        d as u32);
                        if code < 32 {
                            decoded = (code as u8) as char;
                            consumed = 6;
                            proof {
                                assert(e.skip(5) =~= v@.skip(i + 6 as int));
                                assert(parse_escape(e) == Some((decoded, v@.skip(i + 6 as int))));
                            }
                        } else {
                            return None;
                        }
                    },
                    _ => {
                        return None;
                    },
                }
            } else {
                return None;
            }
            proof {
                if consumed == 2 {
                    assert(e.drop_first() =~= v@.skip(i + 2 as int));
                    assert(parse_escape(e) == Some((decoded, v@.skip(i + 2 as int))));
                }
                let after = v@.skip((i + consumed) as int);
                assert(after.len() < v@.skip(i as int).len());
                match parse_string_body(after) {
                    Some(q) => {
                        assert(parse_string_body(v@.skip(i as int)) == Some(
                            (seq![decoded] + q.0, q.1),
                        ));
                        assert(acc@ + (seq![decoded] + q.0) =~= acc@.push(decoded) + q.0);
                    },
                    None => {
                        assert(parse_string_body(v@.skip(i as int)) is None);
                    },
                }
            }
            acc.push(decoded);
            i = i + consumed;
        } else {
            proof {
                match parse_string_body(v@.skip(i + 1 as int)) {
                    Some(q) => {
                        assert(acc@ + (seq![c] + q.0) =~= acc@.push(c) + q.0);
                    },
                    None => {},
                }
            }
            acc.push(c);
            i = i + 1;
        }
    }
}

/// Scan a quoted string value beginning at `start`.
pub fn scan_string(v: &Vec<char>, start: usize) -> (r: Option<(Vec<char>, usize)>)
    requires
        start <= v.len(),
    ensures
        match r {
            None => parse_string(v@.skip(start as int)) is None,
            Some(p) => start + 1 < p.1 <= v@.len() && parse_string(v@.skip(start as int)) == Some(
                (p.0@, v@.skip(p.1 as int)),
            ),
        },
{
    if start < v.len() && v[start] == '"' {
        proof {
            assert(v@.skip(start as int)[0] == v@[start as int]);
            assert(v@.skip(start as int).drop_first() =~= v@.skip(start + 1 as int));
        }
        scan_string_body(v, start + 1)
    } else {
        proof {
            if start < v.len() {
                assert(v@.skip(start as int)[0] == v@[start as int]);
            } else {
                assert(v@.skip(start as int).len() == 0);
            }
        }
        None
    }
}

/// Append the characters of a string slice.
pub fn push_str_chars(out: &mut Vec<char>, s: &str)
    ensures
        final(out)@ == old(out)@ + s@,
{
    let len = s.unicode_len();
    let mut i: usize = 0;
    while i < len
        invariant
            0 <= i <= len,
            len == s@.len(),
            out@ == old(out)@ + s@.subrange(0, i as int),
        decreases len - i,
    {
        out.push(s.get_char(i));
        proof {
            assert(old(out)@ + s@.subrange(0, i + 1 as int) =~= (old(out)@ + s@.subrange(
                0,
                i as int,
            )).push(s@[i as int]));
        }
        i = i + 1;
    }
    proof {
        assert(s@.subrange(0, len as int) =~= s@);
    }
}

/// Write the two hexadecimal digits of a control character code.
fn push_hex_pair(out: &mut Vec<char>, code: u32)
    requires
        code < 32,
    ensures
        final(out)@ == old(out)@ + seq![hex_digit(code as int / 16), hex_digit(code as int % 16)],
{
    let hi = code / 16;
    let lo = code % 16;
    let hc: char = if hi < 10 {
        ((48 + hi) as u8) as char
    } else {
        ((87 + hi) as u8) as char
    };
    let lc: char = if lo < 10 {
        ((48 + lo) as u8) as char
    } else {
        ((87 + lo) as u8) as char
    };
    out.push(hc);
    out.push(lc);
    proof {
        assert(out@ =~= old(out)@ + seq![hex_digit(code as int / 16), hex_digit(code as int % 16)]);
    }
}

/// Write a string as a quoted, escaped JSON string.
pub fn push_json_string(out: &mut Vec<char>, s: &str)
    ensures
        final(out)@ == old(out)@ + jstr(s@),
{
    let len = s.unicode_len();
    out.push('"');
    let mut i: usize = 0;
    while i < len
        invariant
            0 <= i <= len,
            len == s@.len(),
            out@ == old(out)@ + seq!['"'] + esc(s@.subrange(0, i as int)),
        decreases len - i,
    {
        let c = s.get_char(i);
        let ghost prefix = s@.subrange(0, i as int);
        proof {
            assert(s@.subrange(0, i + 1 as int) =~= prefix + seq![c]);
            lemma_esc_add(prefix, seq![c]);
            assert(seq![c].drop_first() =~= Seq::<char>::empty());
            assert(esc(seq![c]) =~= esc_char(c) + esc(Seq::<char>::empty()));
            assert(esc(seq![c]) =~= esc_char(c));
        }
        if c == '"' {
            out.push('\\');
            out.push('"');
        } else if c == '\\' {
            out.push('\\');
            out.push('\\');
        } else if c == '\n' {
            out.push('\\');
            out.push('n');
        } else if c == '\r' {
            out.push('\\');
            out.push('r');
        } else if c == '\t' {
            out.push('\\');
            out.push('t');
        } else if c == '\u{8}' {
            out.push('\\');
            out.push('b');
        } else if c == '\u{c}' {
            out.push('\\');
            out.push('f');
        } else if (c as u32) < 32 {
            out.push('\\');
            out.push('u');
            out.push('0');
            out.push('0');
            push_hex_pair(out, c as u32);
        } else {
            out.push(c);
        }
        proof {
            assert(out@ =~= old(out)@ + seq!['"'] + esc(s@.subrange(0, i + 1 as int)));
        }
        i = i + 1;
    }
    out.push('"');
    proof {
        assert(s@.subrange(0, len as int) =~= s@);
        assert(out@ =~= old(out)@ + jstr(s@));
    }
}

} // verus!
