//! JSON string-literal escaping.
//!
//! An error message is emitted as a JSON string literal, so the
//! characters `"` and `\` and the control characters below `0x20`
//! must be escaped. [`escaped`] gives the exact escaped form of a
//! character sequence; [`push_escaped`] appends that form to a
//! `String`; [`unescaped`] reads an escaped sequence back, and
//! [`lemma_unescape_escape`] shows that escaping loses nothing.

use vstd::prelude::*;
use vstd::string::StrSliceExecFns;

verus! {

/// Appends the given character to the end of the string.
/// Relies on `String::push`, which the standard library documents
/// to append exactly that character.
pub assume_specification[ String::push ](s: &mut String, c: char)
    ensures
        final(s)@ == old(s)@.push(c),
;

/// The lowercase hexadecimal digit for a value below sixteen.
pub open spec fn hex_digit(n: nat) -> char {
    if n == 0 {
        '0'
    } else if n == 1 {
        '1'
    } else if n == 2 {
        '2'
    } else if n == 3 {
        '3'
    } else if n == 4 {
        '4'
    } else if n == 5 {
        '5'
    } else if n == 6 {
        '6'
    } else if n == 7 {
        '7'
    } else if n == 8 {
        '8'
    } else if n == 9 {
        '9'
    } else if n == 10 {
        'a'
    } else if n == 11 {
        'b'
    } else if n == 12 {
        'c'
    } else if n == 13 {
        'd'
    } else if n == 14 {
        'e'
    } else {
        'f'
    }
}

/// The value of a lowercase hexadecimal digit, if it is one.
pub open spec fn hex_val(c: char) -> Option<nat> {
    if c == '0' {
        Some(0 as nat)
    } else if c == '1' {
        Some(1 as nat)
    } else if c == '2' {
        Some(2 as nat)
    } else if c == '3' {
        Some(3 as nat)
    } else if c == '4' {
        Some(4 as nat)
    } else if c == '5' {
        Some(5 as nat)
    } else if c == '6' {
        Some(6 as nat)
    } else if c == '7' {
        Some(7 as nat)
    } else if c == '8' {
        Some(8 as nat)
    } else if c == '9' {
        Some(9 as nat)
    } else if c == 'a' {
        Some(10 as nat)
    } else if c == 'b' {
        Some(11 as nat)
    } else if c == 'c' {
        Some(12 as nat)
    } else if c == 'd' {
        Some(13 as nat)
    } else if c == 'e' {
        Some(14 as nat)
    } else if c == 'f' {
        Some(15 as nat)
    } else {
        None
    }
}

/// How one character appears inside a JSON string literal: `"` and
/// `\` get a backslash, the control characters with short escapes use
/// them, the remaining control characters become `\u00XX` with
/// lowercase hex, and every other character stands for itself.
pub open spec fn escaped_char(c: char) -> Seq<char> {
    if c == '"' {
        seq!['\\', '"']
    } else if c == '\\' {
        seq!['\\', '\\']
    } else if c == '\u{8}' {
        seq!['\\', 'b']
    } else if c == '\u{9}' {
        seq!['\\', 't']
    } else if c == '\u{A}' {
        seq!['\\', 'n']
    } else if c == '\u{C}' {
        seq!['\\', 'f']
    } else if c == '\u{D}' {
        seq!['\\', 'r']
    } else if (c as u32) < 0x20 {
        seq!['\\', 'u', '0', '0', hex_digit((c as u32 / 16) as nat), hex_digit(
            (c as u32 % 16) as nat,
        )]
    } else {
        seq![c]
    }
}

/// A character that appears inside a JSON string literal unchanged.
pub open spec fn plain_char(c: char) -> bool {
    c != '"' && c != '\\' && c as u32 >= 0x20
}

/// The escaped form of a whole character sequence.
pub open spec fn escaped(s: Seq<char>) -> Seq<char>
    decreases s.len(),
{
    if s.len() == 0 {
        Seq::empty()
    } else {
        escaped_char(s[0]) + escaped(s.skip(1))
    }
}

/// The character that a short escape `\c` stands for, if `c` is one.
pub open spec fn short_unescape(c: char) -> Option<char> {
    if c == '"' {
        Some('"')
    } else if c == '\\' {
        Some('\\')
    } else if c == 'b' {
        Some('\u{8}')
    } else if c == 't' {
        Some('\u{9}')
    } else if c == 'n' {
        Some('\u{A}')
    } else if c == 'f' {
        Some('\u{C}')
    } else if c == 'r' {
        Some('\u{D}')
    } else {
        None
    }
}

/// Reads the content of a JSON string literal back: the inverse of
/// [`escaped`] on the escape forms that [`escaped_char`] produces.
pub open spec fn unescaped(s: Seq<char>) -> Option<Seq<char>>
    decreases s.len(),
{
    if s.len() == 0 {
        Some(Seq::empty())
    } else if s[0] != '\\' {
        match unescaped(s.skip(1)) {
            Some(t) => Some(seq![s[0]] + t),
            None => None,
        }
    } else if s.len() >= 2 && short_unescape(s[1]) is Some {
        match unescaped(s.skip(2)) {
            Some(t) => Some(seq![short_unescape(s[1]).unwrap()] + t),
            None => None,
        }
    } else if s.len() >= 6 && s[1] == 'u' && s[2] == '0' && s[3] == '0' && hex_val(s[4]) is Some
        && hex_val(s[5]) is Some {
        match unescaped(s.skip(6)) {
            Some(t) => Some(
                seq![(((16 * hex_val(s[4]).unwrap() + hex_val(s[5]).unwrap())) as u32) as char] + t,
            ),
            None => None,
        }
    } else {
        None
    }
}

/// Escaping one more character at the end extends the escaped text.
pub proof fn lemma_escaped_push(s: Seq<char>, c: char)
    ensures
        escaped(s.push(c)) == escaped(s) + escaped_char(c),
    decreases s.len(),
{
    if s.len() == 0 {
        assert(s.push(c)[0] == c);
        assert(s.push(c).skip(1) =~= Seq::<char>::empty());
        assert(escaped(Seq::<char>::empty()) == Seq::<char>::empty());
        assert(escaped(s.push(c)) =~= escaped(s) + escaped_char(c));
    } else {
        assert(s.push(c)[0] == s[0]);
        assert(s.push(c).len() == s.len() + 1);
        assert(s.push(c).skip(1) =~= s.skip(1).push(c));
        lemma_escaped_push(s.skip(1), c);
        assert(escaped(s.push(c)) == escaped_char(s[0]) + (escaped(s.skip(1)) + escaped_char(c)));
        assert(escaped(s.push(c)) =~= escaped(s) + escaped_char(c));
    }
}

/// A sequence of plain characters is its own escaped form.
pub proof fn lemma_plain_escaped(s: Seq<char>)
    requires
        forall|i: int| 0 <= i < s.len() ==> plain_char(#[trigger] s[i]),
    ensures
        escaped(s) == s,
    decreases s.len(),
{
    if s.len() > 0 {
        assert(plain_char(s[0]));
        lemma_plain_escaped(s.skip(1));
        assert(escaped(s) =~= s);
    }
}

/// The digit functions invert each other below sixteen.
proof fn lemma_hex_digit_val(n: nat)
    requires
        n < 16,
    ensures
        hex_val(hex_digit(n)) == Some(n),
{
}

/// Escaping loses nothing: reading the escaped text back yields the
/// original character sequence.
pub proof fn lemma_unescape_escape(s: Seq<char>)
    ensures
        unescaped(escaped(s)) == Some(s),
    decreases s.len(),
{
    if s.len() == 0 {
        assert(escaped(s) =~= Seq::<char>::empty());
    } else {
        let c = s[0];
        let rest = s.skip(1);
        lemma_unescape_escape(rest);
        let es = escaped(s);
        assert(seq![c] + rest =~= s);
        if c == '"' || c == '\\' || c == '\u{8}' || c == '\u{9}' || c == '\u{A}' || c == '\u{C}'
            || c == '\u{D}' {
            assert(es.skip(2) =~= escaped(rest));
            assert(short_unescape(es[1]) == Some(c));
        } else if (c as u32) < 0x20 {
            let code = c as u32;
            assert(es.skip(6) =~= escaped(rest));
            lemma_hex_digit_val((code / 16) as nat);
            lemma_hex_digit_val((code % 16) as nat);
            assert(16 * (code / 16) + code % 16 == code) by (nonlinear_arith);
            vstd::utf8::char_u32_cast(c, code);
        } else {
            assert(es[0] == c);
            assert(es.skip(1) =~= escaped(rest));
        }
    }
}

/// The lowercase hexadecimal digit character for a value below sixteen.
fn hex_char(n: u32) -> (c: char)
    requires
        n < 16,
    ensures
        c == hex_digit(n as nat),
{
    if n == 0 {
        '0'
    } else if n == 1 {
        '1'
    } else if n == 2 {
        '2'
    } else if n == 3 {
        '3'
    } else if n == 4 {
        '4'
    } else if n == 5 {
        '5'
    } else if n == 6 {
        '6'
    } else if n == 7 {
        '7'
    } else if n == 8 {
        '8'
    } else if n == 9 {
        '9'
    } else if n == 10 {
        'a'
    } else if n == 11 {
        'b'
    } else if n == 12 {
        'c'
    } else if n == 13 {
        'd'
    } else if n == 14 {
        'e'
    } else {
        'f'
    }
}

/// Appends the escaped form of one character.
fn push_escaped_char(out: &mut String, c: char)
    ensures
        final(out)@ == old(out)@ + escaped_char(c),
{
    if c == '"' {
        out.push('\\');
        out.push('"');
        assert(old(out)@.push('\\').push('"') =~= old(out)@ + escaped_char(c));
    } else if c == '\\' {
        out.push('\\');
        out.push('\\');
        assert(old(out)@.push('\\').push('\\') =~= old(out)@ + escaped_char(c));
    } else if c == '\u{8}' {
        out.push('\\');
        out.push('b');
        assert(old(out)@.push('\\').push('b') =~= old(out)@ + escaped_char(c));
    } else if c == '\u{9}' {
        out.push('\\');
        out.push('t');
        assert(old(out)@.push('\\').push('t') =~= old(out)@ + escaped_char(c));
    } else if c == '\u{A}' {
        out.push('\\');
        out.push('n');
        assert(old(out)@.push('\\').push('n') =~= old(out)@ + escaped_char(c));
    } else if c == '\u{C}' {
        out.push('\\');
        out.push('f');
        assert(old(out)@.push('\\').push('f') =~= old(out)@ + escaped_char(c));
    } else if c == '\u{D}' {
        out.push('\\');
        out.push('r');
        assert(old(out)@.push('\\').push('r') =~= old(out)@ + escaped_char(c));
    } else {
        let n = c as u32;
        if n < 0x20 {
            out.push('\\');
            out.push('u');
            out.push('0');
            out.push('0');
            out.push(hex_char(n / 16));
            out.push(hex_char(n % 16));
            assert(old(out)@.push('\\').push('u').push('0').push('0').push(
                hex_digit((n / 16) as nat),
            ).push(hex_digit((n % 16) as nat)) =~= old(out)@ + escaped_char(c));
        } else {
            out.push(c);
            assert(old(out)@.push(c) =~= old(out)@ + escaped_char(c));
        }
    }
}

/// Appends the escaped form of a whole string.
pub fn push_escaped(out: &mut String, s: &str)
    ensures
        final(out)@ == old(out)@ + escaped(s@),
{
    let len = s.unicode_len();
    let mut i: usize = 0;
    while i < len
        invariant
            len == s@.len(),
            i <= len,
            out@ == old(out)@ + escaped(s@.subrange(0, i as int)),
        decreases len - i,
    {
        let c = s.get_char(i);
        push_escaped_char(out, c);
        proof {
            assert(s@.subrange(0, i as int).push(s@[i as int]) =~= s@.subrange(
                0,
                i + 1 as int,
            ));
            lemma_escaped_push(s@.subrange(0, i as int), s@[i as int]);
        }
        i = i + 1;
    }
    proof {
        assert(s@.subrange(0, len as int) =~= s@);
    }
}

} // verus!
