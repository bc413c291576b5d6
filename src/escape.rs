//! Escaping of text for the output syntax: quoted string literals, and the
//! percent-encoding of link titles.
use vstd::prelude::*;
use crate::text::{digit, push_char};
use vstd::utf8::encode_utf8;

verus! {

/// The lower-case hexadecimal digit for `d` (`d < 16`).
pub open spec fn hex_lower(d: nat) -> char {
    if d < 10 {
        digit(d)
    } else {
        ((d + 87) as u8) as char
    }
}

/// How one character stands inside a quoted string literal.
pub open spec fn escape_char(c: char) -> Seq<char> {
    if c == '"' {
        seq!['\\', '"']
    } else if c == '\\' {
        seq!['\\', '\\']
    } else if c == '\u{8}' {
        seq!['\\', 'b']
    } else if c == '\t' {
        seq!['\\', 't']
    } else if c == '\n' {
        seq!['\\', 'n']
    } else if c == '\u{c}' {
        seq!['\\', 'f']
    } else if c == '\r' {
        seq!['\\', 'r']
    } else if (c as u32) < 0x20 {
        seq!['\\', 'u', '0', '0', hex_lower((c as u32) as nat / 16), hex_lower((c as u32) as nat % 16)]
    } else {
        seq![c]
    }
}

/// The escaped form of `s`, character by character.
pub open spec fn escaped(s: Seq<char>) -> Seq<char>
    decreases s.len(),
{
    if s.len() == 0 {
        Seq::empty()
    } else {
        escape_char(s[0]) + escaped(s.drop_first())
    }
}

/// `s` as a quoted string literal.
pub open spec fn string_literal(s: Seq<char>) -> Seq<char> {
    seq!['"'] + escaped(s) + seq!['"']
}

/// Relies on `json::JsonValue::dump` of a string value: a double quote, the
/// string with `"`, `\` and the control characters below 0x20 escaped, and a
/// double quote.
#[verifier::external_body]
pub(crate) fn quote(s: &str) -> (r: String)
    ensures
        r@ == string_literal(s@),
{
    json::JsonValue::from(s).dump()
}

/// The value of a hexadecimal digit.
pub open spec fn hex_value(c: char) -> Option<nat> {
    if '0' <= c && c <= '9' {
        Some(((c as u32) - 48) as nat)
    } else if 'a' <= c && c <= 'f' {
        Some(((c as u32) - 87) as nat)
    } else if 'A' <= c && c <= 'F' {
        Some(((c as u32) - 55) as nat)
    } else {
        None
    }
}

/// The code point written by the four hexadecimal digits that start `t`.
pub open spec fn hex4(t: Seq<char>) -> Option<nat> {
    match (hex_value(t[0]), hex_value(t[1]), hex_value(t[2]), hex_value(t[3])) {
        (Some(a), Some(b), Some(c), Some(d)) => Some(((a * 16 + b) * 16 + c) * 16 + d),
        _ => None,
    }
}

/// Reads the inside of a quoted string literal back into the characters it
/// stands for. A bare `"` or an unknown escape gives `None`; of the `\u`
/// escapes, those of code points below 0x80 are read.
pub open spec fn unescape(t: Seq<char>) -> Option<Seq<char>>
    decreases t.len(),
{
    if t.len() == 0 {
        Some(Seq::empty())
    } else if t[0] == '"' {
        None
    } else if t[0] != '\\' {
        match unescape(t.skip(1)) {
            Some(r) => Some(seq![t[0]] + r),
            None => None,
        }
    } else if t.len() < 2 {
        None
    } else {
        let e = t[1];
        let one = if e == '"' {
            Some('"')
        } else if e == '\\' {
            Some('\\')
        } else if e == '/' {
            Some('/')
        } else if e == 'b' {
            Some('\u{8}')
        } else if e == 't' {
            Some('\t')
        } else if e == 'n' {
            Some('\n')
        } else if e == 'f' {
            Some('\u{c}')
        } else if e == 'r' {
            Some('\r')
        } else {
            None
        };
        if one is Some {
            match unescape(t.skip(2)) {
                Some(r) => Some(seq![one->0] + r),
                None => None,
            }
        } else if e == 'u' && t.len() >= 6 {
            match hex4(t.skip(2)) {
                Some(code) => if code < 0x80 {
                    match unescape(t.skip(6)) {
                        Some(r) => Some(seq![((code as u8) as char)] + r),
                        None => None,
                    }
                } else {
                    None
                },
                None => None,
            }
        } else {
            None
        }
    }
}

/// Reads a quoted string literal back into the string it stands for.
pub open spec fn parse_string_literal(t: Seq<char>) -> Option<Seq<char>> {
    if t.len() >= 2 && t[0] == '"' && t.last() == '"' {
        unescape(t.subrange(1, t.len() - 1))
    } else {
        None
    }
}

proof fn lemma_unescape_one(c: char, rest: Seq<char>)
    ensures
        unescape(escape_char(c) + rest) == match unescape(rest) {
            Some(r) => Some(seq![c] + r),
            None => None,
        },
{
    let t = escape_char(c) + rest;
    let n = escape_char(c).len() as int;
    assert(t.skip(n) == rest);
    if (c as u32) < 0x20 && c != '\u{8}' && c != '\t' && c != '\n' && c != '\u{c}' && c != '\r' {
        let x = (c as u32) as nat;
        assert(hex4(t.skip(2)) == Some(x)) by {
            assert(t.skip(2)[0] == '0');
            assert(t.skip(2)[1] == '0');
            assert(t.skip(2)[2] == hex_lower(x / 16));
            assert(t.skip(2)[3] == hex_lower(x % 16));
        }
        assert(((x as u8) as char) == c);
    }
}

/// A quoted string literal reads back as the string it was made from.
pub proof fn lemma_string_literal_round_trip(s: Seq<char>)
    ensures
        parse_string_literal(string_literal(s)) == Some(s),
    decreases s.len(),
{
    lemma_unescape_escaped(s);
    let t = string_literal(s);
    assert(t.subrange(1, t.len() - 1) == escaped(s));
}

proof fn lemma_unescape_escaped(s: Seq<char>)
    ensures
        unescape(escaped(s)) == Some(s),
    decreases s.len(),
{
    if s.len() == 0 {
    } else {
        lemma_unescape_escaped(s.drop_first());
        lemma_unescape_one(s[0], escaped(s.drop_first()));
        assert(seq![s[0]] + s.drop_first() == s);
    }
}


/// The upper-case hexadecimal digit for `d` (`d < 16`).
pub open spec fn hex_upper(d: nat) -> char {
    if d < 10 {
        digit(d)
    } else {
        ((d + 55) as u8) as char
    }
}

/// The characters that a link title never holds as they are: `;@$!*(),/~:#`.
pub open spec fn is_reserved_byte(b: u8) -> bool {
    ||| b == 0x3b
    ||| b == 0x40
    ||| b == 0x24
    ||| b == 0x21
    ||| b == 0x2a
    ||| b == 0x28
    ||| b == 0x29
    ||| b == 0x2c
    ||| b == 0x2f
    ||| b == 0x7e
    ||| b == 0x3a
    ||| b == 0x23
}

/// A byte that a link title holds as `%XX`: the reserved characters, control
/// characters, and every byte of a non-ASCII character.
pub open spec fn must_percent_encode(b: u8) -> bool {
    b >= 0x80 || b < 0x20 || b == 0x7f || is_reserved_byte(b)
}

/// How one byte stands in a link title.
pub open spec fn percent_byte(b: u8) -> Seq<char> {
    if must_percent_encode(b) {
        seq!['%', hex_upper(b as nat / 16), hex_upper(b as nat % 16)]
    } else {
        seq![b as char]
    }
}

/// The percent-encoded form of a byte string.
pub open spec fn percent_encoded(bs: Seq<u8>) -> Seq<char>
    decreases bs.len(),
{
    if bs.len() == 0 {
        Seq::empty()
    } else {
        percent_encoded(bs.drop_last()) + percent_byte(bs.last())
    }
}

/// `s` with each space turned into `_`.
pub open spec fn underscored(s: Seq<char>) -> Seq<char> {
    s.map_values(|c: char| if c == ' ' { '_' } else { c })
}

/// A page title as it stands in a link: spaces become `_`, and the UTF-8
/// bytes are percent-encoded.
pub open spec fn title_in_link(s: Seq<char>) -> Seq<char> {
    percent_encoded(encode_utf8(underscored(s)))
}

fn hex_upper_exec(d: u8) -> (r: char)
    requires
        d < 16,
    ensures
        r == hex_upper(d as nat),
{
    if d < 10 {
        (d + 48) as char
    } else {
        (d + 55) as char
    }
}

fn must_percent_encode_exec(b: u8) -> (r: bool)
    ensures
        r == must_percent_encode(b),
{
    b >= 0x80 || b < 0x20 || b == 0x7f || b == 0x3b || b == 0x40 || b == 0x24 || b == 0x21
        || b == 0x2a || b == 0x28 || b == 0x29 || b == 0x2c || b == 0x2f || b == 0x7e
        || b == 0x3a || b == 0x23
}

/// The form that a page title takes in a link.
pub fn encode_title(title: &[char]) -> (r: String)
    ensures
        r@ == title_in_link(title@),
{
    let mut u = String::new();
    let mut i: usize = 0;
    while i < title.len()
        invariant
            i <= title@.len(),
            u@ == underscored(title@.take(i as int)),
        decreases title@.len() - i,
    {
        let c = title[i];
        push_char(&mut u, if c == ' ' { '_' } else { c });
        i += 1;
        assert(underscored(title@.take(i as int)) == underscored(title@.take(i - 1)).push(
            if c == ' ' { '_' } else { c },
        ));
    }
    assert(title@.take(i as int) == title@);
    let bytes = u.as_str().as_bytes();
    let mut r = String::new();
    let mut k: usize = 0;
    while k < bytes.len()
        invariant
            k <= bytes@.len(),
            bytes@ == encode_utf8(u@),
            r@ == percent_encoded(bytes@.take(k as int)),
        decreases bytes@.len() - k,
    {
        let b = bytes[k];
        if must_percent_encode_exec(b) {
            push_char(&mut r, '%');
            push_char(&mut r, hex_upper_exec(b / 16));
            push_char(&mut r, hex_upper_exec(b % 16));
        } else {
            push_char(&mut r, b as char);
        }
        k += 1;
        assert(bytes@.take(k as int).drop_last() == bytes@.take(k - 1));
    }
    assert(bytes@.take(k as int) == bytes@);
    r
}

} // verus!
