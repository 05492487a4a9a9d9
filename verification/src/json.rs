//! A small JSON codec for the two file shapes this tool persists: quoted
//! strings with backslash escapes, rendered and parsed against one spec, so
//! that what `save` writes is exactly what `load` reads back.

use vstd::prelude::*;
use vstd::string::*;
use crate::text::{lit_at, match_lit, push_char};

verus! {

/// How one character is written inside a JSON string.
pub open spec fn esc_char(c: char) -> Seq<char> {
    if c == '"' {
        seq!['\\', '"']
    } else if c == '\\' {
        seq!['\\', '\\']
    } else if c == '\n' {
        seq!['\\', 'n']
    } else if c == '\r' {
        seq!['\\', 'r']
    } else if c == '\t' {
        seq!['\\', 't']
    } else if 0 <= (c as int) && (c as int) < 32 {
        seq!['\\', 'u', '0', '0', hex_char((c as int) / 16), hex_char((c as int) % 16)]
    } else {
        seq![c]
    }
}

/// The character an escape code stands for, if the code is one we accept.
pub open spec fn unesc_char(c: char) -> Option<char> {
    if c == '"' {
        Some('"')
    } else if c == '\\' {
        Some('\\')
    } else if c == '/' {
        Some('/')
    } else if c == 'n' {
        Some('\n')
    } else if c == 'r' {
        Some('\r')
    } else if c == 't' {
        Some('\t')
    } else {
        None
    }
}

/// The hexadecimal digit character for a value below sixteen, lower case.
pub open spec fn hex_char(v: int) -> char {
    if v == 0 {
        '0'
    } else if v == 1 {
        '1'
    } else if v == 2 {
        '2'
    } else if v == 3 {
        '3'
    } else if v == 4 {
        '4'
    } else if v == 5 {
        '5'
    } else if v == 6 {
        '6'
    } else if v == 7 {
        '7'
    } else if v == 8 {
        '8'
    } else if v == 9 {
        '9'
    } else if v == 10 {
        'a'
    } else if v == 11 {
        'b'
    } else if v == 12 {
        'c'
    } else if v == 13 {
        'd'
    } else if v == 14 {
        'e'
    } else {
        'f'
    }
}

/// The value of one hexadecimal digit, either case.
pub open spec fn hex_val(c: char) -> Option<u8> {
    if '0' <= c && c <= '9' {
        Some(((c as int) - 48) as u8)
    } else if 'a' <= c && c <= 'f' {
        Some(((c as int) - 87) as u8)
    } else if 'A' <= c && c <= 'F' {
        Some(((c as int) - 55) as u8)
    } else {
        None
    }
}

/// The body of a JSON string holding the characters of `s`.
pub open spec fn esc(s: Seq<char>) -> Seq<char>
    decreases s.len(),
{
    if s.len() == 0 {
        Seq::empty()
    } else {
        esc_char(s[0]) + esc(s.skip(1))
    }
}

/// A complete JSON string: the escaped characters between double quotes.
pub open spec fn quoted(s: Seq<char>) -> Seq<char> {
    seq!['"'] + esc(s) + seq!['"']
}

/// Scanning a JSON string body from `i` (just past the opening quote):
/// the decoded contents and the position just past the closing quote.
pub open spec fn scan_string(s: Seq<char>, i: int) -> Option<(Seq<char>, int)>
    decreases s.len() - i,
{
    if i < 0 || i >= s.len() {
        None
    } else if s[i] == '"' {
        Some((Seq::empty(), i + 1))
    } else if s[i] == '\\' {
        if i + 1 >= s.len() {
            None
        } else if s[i + 1] == 'u' {
            if i + 6 > s.len() {
                None
            } else if s[i + 2] == '0' && s[i + 3] == '0' {
                match (hex_val(s[i + 4]), hex_val(s[i + 5])) {
                    (Option::Some(h), Option::Some(l)) => match scan_string(s, i + 6) {
                        Option::None => None,
                        Option::Some((rest, j)) => Some(
                            (seq![(((16 * (h as int) + (l as int)) as u8) as char)] + rest, j),
                        ),
                    },
                    _ => None,
                }
            } else {
                None
            }
        } else {
            match unesc_char(s[i + 1]) {
                Option::None => None,
                Option::Some(c) => match scan_string(s, i + 2) {
                    Option::None => None,
                    Option::Some((rest, j)) => Some((seq![c] + rest, j)),
                },
            }
        }
    } else {
        match scan_string(s, i + 1) {
            Option::None => None,
            Option::Some((rest, j)) => Some((seq![s[i]] + rest, j)),
        }
    }
}

/// Parsing a complete JSON string at `i`: an opening quote, then the body.
pub open spec fn spec_parse_string(s: Seq<char>, i: int) -> Option<(Seq<char>, int)> {
    if 0 <= i < s.len() && s[i] == '"' {
        scan_string(s, i + 1)
    } else {
        None
    }
}

pub proof fn lemma_scan_string_bounds(s: Seq<char>, i: int)
    requires
        0 <= i <= s.len(),
    ensures
        scan_string(s, i) is Some ==> i < scan_string(s, i).unwrap().1 <= s.len(),
    decreases s.len() - i,
{
    if i < s.len() && s[i] != '"' {
        if s[i] == '\\' {
            if i + 1 < s.len() {
                if s[i + 1] == 'u' {
                    if i + 6 <= s.len() {
                        lemma_scan_string_bounds(s, i + 6);
                    }
                } else if unesc_char(s[i + 1]) is Some {
                    lemma_scan_string_bounds(s, i + 2);
                }
            }
        } else {
            lemma_scan_string_bounds(s, i + 1);
        }
    }
}

/// Scanning a rendered string body finds exactly the original characters and
/// stops just past the closing quote, whatever stands before and after.
pub proof fn lemma_scan_esc(prefix: Seq<char>, x: Seq<char>, tail: Seq<char>)
    ensures
        scan_string(prefix + esc(x) + seq!['"'] + tail, prefix.len() as int) == Some(
            (x, (prefix.len() + esc(x).len() + 1) as int),
        ),
    decreases x.len(),
{
    let s = prefix + esc(x) + seq!['"'] + tail;
    if x.len() == 0 {
        assert(esc(x) == Seq::<char>::empty());
        assert(s[prefix.len() as int] == '"');
        assert(scan_string(s, prefix.len() as int) == Some(
            (Seq::<char>::empty(), (prefix.len() + 1) as int),
        ));
        assert(x =~= Seq::<char>::empty());
    } else {
        let c = x[0];
        let x1 = x.skip(1);
        assert(esc(x) == esc_char(c) + esc(x1));
        if c == '"' || c == '\\' || c == '\n' || c == '\r' || c == '\t' {
            let code: char = if c == '"' {
                '"'
            } else if c == '\\' {
                '\\'
            } else if c == '\n' {
                'n'
            } else if c == '\r' {
                'r'
            } else {
                't'
            };
            assert(esc_char(c) == seq!['\\', code]);
            let prefix2 = prefix + seq!['\\', code];
            lemma_scan_esc(prefix2, x1, tail);
            assert(prefix2 + esc(x1) + seq!['"'] + tail =~= s);
            assert(s[prefix.len() as int] == '\\');
            assert(s[prefix.len() + 1 as int] == code);
            assert(unesc_char(code) == Some(c));
            assert(scan_string(s, prefix.len() + 2 as int) == Some(
                (x1, (prefix.len() + 2 + esc(x1).len() + 1) as int),
            ));
            assert(scan_string(s, prefix.len() as int) == Some(
                (seq![c] + x1, (prefix.len() + 2 + esc(x1).len() + 1) as int),
            ));
            assert(seq![c] + x1 =~= x);
            assert(esc(x).len() == 2 + esc(x1).len());
        } else if 0 <= (c as int) && (c as int) < 32 {
            let v = c as int;
            let hi = v / 16;
            let lo = v % 16;
            vstd::arithmetic::div_mod::lemma_fundamental_div_mod(v, 16);
            vstd::arithmetic::div_mod::lemma_mod_pos_bound(v, 16);
            vstd::arithmetic::div_mod::lemma_div_pos_is_pos(v, 16);
            assert(v == 16 * hi + lo && 0 <= lo < 16 && 0 <= hi < 2);
            let code_hi = hex_char(hi);
            let code_lo = hex_char(lo);
            assert(esc_char(c) == seq!['\\', 'u', '0', '0', code_hi, code_lo]);
            let prefix2 = prefix + seq!['\\', 'u', '0', '0', code_hi, code_lo];
            lemma_scan_esc(prefix2, x1, tail);
            assert(prefix2 + esc(x1) + seq!['"'] + tail =~= s);
            assert(s[prefix.len() as int] == '\\');
            assert(s[prefix.len() + 1 as int] == 'u');
            assert(s[prefix.len() + 2 as int] == '0');
            assert(s[prefix.len() + 3 as int] == '0');
            assert(s[prefix.len() + 4 as int] == code_hi);
            assert(s[prefix.len() + 5 as int] == code_lo);
            assert(hex_val(code_hi) == Some(hi as u8));
            assert(hex_val(code_lo) == Some(lo as u8));
            assert((((16 * ((hi as u8) as int) + ((lo as u8) as int)) as u8) as char) == c);
            assert(scan_string(s, prefix.len() + 6 as int) == Some(
                (x1, (prefix.len() + 6 + esc(x1).len() + 1) as int),
            ));
            assert(scan_string(s, prefix.len() as int) == Some(
                (seq![c] + x1, (prefix.len() + 6 + esc(x1).len() + 1) as int),
            ));
            assert(seq![c] + x1 =~= x);
            assert(esc(x).len() == 6 + esc(x1).len());
        } else {
            assert(esc_char(c) == seq![c]);
            let prefix2 = prefix + seq![c];
            lemma_scan_esc(prefix2, x1, tail);
            assert(prefix2 + esc(x1) + seq!['"'] + tail =~= s);
            assert(s[prefix.len() as int] == c);
            assert(scan_string(s, prefix.len() + 1 as int) == Some(
                (x1, (prefix.len() + 1 + esc(x1).len() + 1) as int),
            ));
            assert(scan_string(s, prefix.len() as int) == Some(
                (seq![c] + x1, (prefix.len() + 1 + esc(x1).len() + 1) as int),
            ));
            assert(seq![c] + x1 =~= x);
            assert(esc(x).len() == 1 + esc(x1).len());
        }
    }
}

/// Parsing at the opening quote of a rendered string gives back exactly the
/// characters that were rendered, wherever the string stands in a larger
/// text: rendering loses nothing and parsing undoes it.
pub proof fn lemma_parse_quoted(prefix: Seq<char>, x: Seq<char>, tail: Seq<char>)
    ensures
        spec_parse_string(prefix + quoted(x) + tail, prefix.len() as int) == Some(
            (x, (prefix.len() + quoted(x).len()) as int),
        ),
{
    let s = prefix + quoted(x) + tail;
    assert(s[prefix.len() as int] == '"');
    let prefix2 = prefix + seq!['"'];
    lemma_scan_esc(prefix2, x, tail);
    assert(prefix2 + esc(x) + seq!['"'] + tail =~= s);
    assert(quoted(x).len() == esc(x).len() + 2);
}

/// The hexadecimal digit character for a value below sixteen.
fn hex_digit(v: u8) -> (c: char)
    requires
        v < 16,
    ensures
        c == hex_char(v as int),
{
    if v == 0 {
        '0'
    } else if v == 1 {
        '1'
    } else if v == 2 {
        '2'
    } else if v == 3 {
        '3'
    } else if v == 4 {
        '4'
    } else if v == 5 {
        '5'
    } else if v == 6 {
        '6'
    } else if v == 7 {
        '7'
    } else if v == 8 {
        '8'
    } else if v == 9 {
        '9'
    } else if v == 10 {
        'a'
    } else if v == 11 {
        'b'
    } else if v == 12 {
        'c'
    } else if v == 13 {
        'd'
    } else if v == 14 {
        'e'
    } else {
        'f'
    }
}

/// The value of one hexadecimal digit, either case.
fn hex_value(c: char) -> (r: Option<u8>)
    ensures
        r == hex_val(c),
        r matches Some(v) ==> v < 16,
{
    if '0' <= c && c <= '9' {
        Some((c as u32 - 48) as u8)
    } else if 'a' <= c && c <= 'f' {
        Some((c as u32 - 87) as u8)
    } else if 'A' <= c && c <= 'F' {
        Some((c as u32 - 55) as u8)
    } else {
        None
    }
}

/// Appends the escaped form of `s` from position `i` on.
fn escape_from(s: &str, i: usize, out: &mut String)
    requires
        i <= s@.len(),
    ensures
        final(out)@ == old(out)@ + esc(s@.skip(i as int)),
    decreases s@.len() - i,
{
    let n = s.unicode_len();
    if i < n {
        let c = s.get_char(i);
        if c == '"' {
            push_char(out, '\\');
            push_char(out, '"');
        } else if c == '\\' {
            push_char(out, '\\');
            push_char(out, '\\');
        } else if c == '\n' {
            push_char(out, '\\');
            push_char(out, 'n');
        } else if c == '\r' {
            push_char(out, '\\');
            push_char(out, 'r');
        } else if c == '\t' {
            push_char(out, '\\');
            push_char(out, 't');
        } else if (c as u32) < 32 {
            let v = c as u32;
            push_char(out, '\\');
            push_char(out, 'u');
            push_char(out, '0');
            push_char(out, '0');
            push_char(out, hex_digit((v / 16) as u8));
            push_char(out, hex_digit((v % 16) as u8));
        } else {
            push_char(out, c);
        }
        assert(out@ =~= old(out)@ + esc_char(s@.skip(i as int)[0]));
        escape_from(s, i + 1, out);
        proof {
            assert(s@.skip(i as int).skip(1) =~= s@.skip(i + 1));
            assert(out@ =~= old(out)@ + esc(s@.skip(i as int)));
        }
    } else {
        assert(out@ =~= old(out)@ + esc(s@.skip(i as int)));
    }
}

/// Appends the JSON string form of `s`: quotes around its escaped characters.
pub fn render_string_into(s: &str, out: &mut String)
    ensures
        final(out)@ == old(out)@ + quoted(s@),
{
    push_char(out, '"');
    escape_from(s, 0, out);
    push_char(out, '"');
    proof {
        assert(s@.skip(0) =~= s@);
        assert(out@ =~= old(out)@ + quoted(s@));
    }
}

/// The decoded character for one escape code, if any.
fn unescape_char(c: char) -> (r: Option<char>)
    ensures
        r == unesc_char(c),
{
    if c == '"' {
        Some('"')
    } else if c == '\\' {
        Some('\\')
    } else if c == '/' {
        Some('/')
    } else if c == 'n' {
        Some('\n')
    } else if c == 'r' {
        Some('\r')
    } else if c == 't' {
        Some('\t')
    } else {
        None
    }
}

/// Scans a JSON string body from `i`, appending the decoded characters to
/// `out`; returns the position just past the closing quote.
fn scan_string_exec(s: &str, i: usize, out: &mut String) -> (r: Option<usize>)
    requires
        i <= s@.len(),
    ensures
        (r is Some) == (scan_string(s@, i as int) is Some),
        r is Some ==> (scan_string(s@, i as int) matches Some((content, j))
            && r.unwrap() == j && final(out)@ == old(out)@ + content),
    decreases s@.len() - i,
{
    let n = s.unicode_len();
    if i >= n {
        return None;
    }
    let c = s.get_char(i);
    if c == '"' {
        return Some(i + 1);
    }
    if c == '\\' {
        if i + 1 >= n {
            return None;
        }
        let e = s.get_char(i + 1);
        if e == 'u' {
            if n - i < 6 {
                return None;
            }
            if s.get_char(i + 2) != '0' || s.get_char(i + 3) != '0' {
                return None;
            }
            let h = hex_value(s.get_char(i + 4));
            let l = hex_value(s.get_char(i + 5));
            return match (h, l) {
                (Some(hv), Some(lv)) => {
                    let d: u8 = 16 * hv + lv;
                    push_char(out, d as char);
                    let r = scan_string_exec(s, i + 6, out);
                    proof {
                        if r is Some {
                            let (rest, j) = scan_string(s@, i + 6 as int).unwrap();
                            assert(out@ =~= old(out)@ + (seq![d as char] + rest));
                        }
                    }
                    r
                },
                _ => None,
            };
        }
        match unescape_char(e) {
            None => None,
            Some(d) => {
                push_char(out, d);
                let r = scan_string_exec(s, i + 2, out);
                proof {
                    if r is Some {
                        let (rest, j) = scan_string(s@, i + 2).unwrap();
                        assert(out@ =~= old(out)@ + (seq![d] + rest));
                    }
                }
                r
            },
        }
    } else {
        push_char(out, c);
        let r = scan_string_exec(s, i + 1, out);
        proof {
            if r is Some {
                let (rest, j) = scan_string(s@, i + 1).unwrap();
                assert(out@ =~= old(out)@ + (seq![s@[i as int]] + rest));
            }
        }
        r
    }
}

/// Parses a complete JSON string at `i`: the decoded contents and the
/// position just past the closing quote.
pub fn parse_string(s: &str, i: usize) -> (r: Option<(String, usize)>)
    requires
        i <= s@.len(),
    ensures
        (r is Some) == (spec_parse_string(s@, i as int) is Some),
        r is Some ==> (spec_parse_string(s@, i as int) matches Some((content, j))
            && r.unwrap().0@ == content && r.unwrap().1 == j),
        r is Some ==> i < r.unwrap().1 <= s@.len(),
    decreases s@.len() - i,
{
    let n = s.unicode_len();
    if i >= n {
        return None;
    }
    if s.get_char(i) != '"' {
        return None;
    }
    let mut out = String::new();
    let r = scan_string_exec(s, i + 1, &mut out);
    proof {
        lemma_scan_string_bounds(s@, i + 1);
    }
    match r {
        Some(j) => Some((out, j)),
        None => None,
    }
}

/// Whether the fixed text `lit` stands at `i`; used for object punctuation.
pub fn parse_lit(s: &str, i: usize, lit: &str) -> (r: Option<usize>)
    ensures
        (r is Some) == lit_at(s@, i as int, lit@),
        r is Some ==> r.unwrap() == i + lit@.len() && i + lit@.len() <= s@.len(),
{
    if match_lit(s, i, lit) {
        let n = s.unicode_len();
        let m = lit.unicode_len();
        assert(i + m <= n);
        Some(i + m)
    } else {
        None
    }
}

} // verus!
