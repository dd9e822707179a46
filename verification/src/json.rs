//! Low-level JSON text building: decimal rendering, string escaping, and
//! comma-joining, each with an exact spec-level description of the produced
//! character sequence.
//!
//! Output is accumulated in a `Vec<char>` so that every append is verified;
//! `chars_to_string` turns the finished buffer into the `String` that is
//! written out.

use vstd::prelude::*;

verus! {

/// The decimal digit character for `d` in 0..=9.
pub open spec fn digit_char(d: int) -> char {
    if d == 0 {
        '0'
    } else if d == 1 {
        '1'
    } else if d == 2 {
        '2'
    } else if d == 3 {
        '3'
    } else if d == 4 {
        '4'
    } else if d == 5 {
        '5'
    } else if d == 6 {
        '6'
    } else if d == 7 {
        '7'
    } else if d == 8 {
        '8'
    } else {
        '9'
    }
}

/// The lowercase hexadecimal digit character for `d` in 0..=15.
pub open spec fn hex_char(d: int) -> char {
    if d < 10 {
        digit_char(d)
    } else if d == 10 {
        'a'
    } else if d == 11 {
        'b'
    } else if d == 12 {
        'c'
    } else if d == 13 {
        'd'
    } else if d == 14 {
        'e'
    } else {
        'f'
    }
}

/// Decimal rendering of a non-negative integer, most significant digit
/// first, with no leading zeros (`0` renders as "0").
pub open spec fn dec_str(n: nat) -> Seq<char>
    decreases n,
{
    if n < 10 {
        seq![digit_char(n as int)]
    } else {
        dec_str(n / 10) + seq![digit_char((n % 10) as int)]
    }
}

/// JSON escape of one character: the two-character short escapes for
/// quote, backslash and the common control characters, `\u00XX` for the
/// remaining control characters, and the character itself otherwise.
pub open spec fn esc_char(c: char) -> Seq<char> {
    if c == '"' {
        seq!['\\', '"']
    } else if c == '\\' {
        seq!['\\', '\\']
    } else if c == '\u{8}' {
        seq!['\\', 'b']
    } else if c == '\u{c}' {
        seq!['\\', 'f']
    } else if c == '\n' {
        seq!['\\', 'n']
    } else if c == '\r' {
        seq!['\\', 'r']
    } else if c == '\t' {
        seq!['\\', 't']
    } else if (c as u32) < 0x20 {
        seq!['\\', 'u', '0', '0', hex_char(c as u32 as int / 16), hex_char(c as u32 as int % 16)]
    } else {
        seq![c]
    }
}

/// JSON escape of a whole text, character by character.
pub open spec fn escape_text(s: Seq<char>) -> Seq<char>
    decreases s.len(),
{
    if s.len() == 0 {
        Seq::empty()
    } else {
        escape_text(s.drop_last()) + esc_char(s.last())
    }
}

/// A JSON string literal: the escaped text between double quotes.
pub open spec fn json_string(s: Seq<char>) -> Seq<char> {
    seq!['"'] + escape_text(s) + seq!['"']
}

/// The items joined by single commas, in order, with no trailing comma.
pub open spec fn join_comma(items: Seq<Seq<char>>) -> Seq<char>
    decreases items.len(),
{
    if items.len() == 0 {
        Seq::empty()
    } else if items.len() == 1 {
        items[0]
    } else {
        join_comma(items.drop_last()) + seq![','] + items.last()
    }
}

/// Joining one more item appends it after a comma, unless it is the first.
pub proof fn lemma_join_comma_push(items: Seq<Seq<char>>, item: Seq<char>)
    ensures
        items.len() == 0 ==> join_comma(items.push(item)) == item,
        items.len() > 0 ==> join_comma(items.push(item)) == join_comma(items) + seq![','] + item,
{
    let pushed = items.push(item);
    assert(pushed.drop_last() =~= items);
    assert(pushed.last() == item);
    if items.len() == 0 {
        assert(join_comma(pushed) == pushed[0]);
    }
}

/// The decimal digit character for `d`.
pub fn digit_char_of(d: u32) -> (c: char)
    requires
        d < 10,
    ensures
        c == digit_char(d as int),
{
    if d == 0 {
        '0'
    } else if d == 1 {
        '1'
    } else if d == 2 {
        '2'
    } else if d == 3 {
        '3'
    } else if d == 4 {
        '4'
    } else if d == 5 {
        '5'
    } else if d == 6 {
        '6'
    } else if d == 7 {
        '7'
    } else if d == 8 {
        '8'
    } else {
        '9'
    }
}

/// The lowercase hexadecimal digit character for `d`.
pub fn hex_char_of(d: u32) -> (c: char)
    requires
        d < 16,
    ensures
        c == hex_char(d as int),
{
    if d < 10 {
        digit_char_of(d)
    } else if d == 10 {
        'a'
    } else if d == 11 {
        'b'
    } else if d == 12 {
        'c'
    } else if d == 13 {
        'd'
    } else if d == 14 {
        'e'
    } else {
        'f'
    }
}

/// Appends the decimal rendering of `n`.
pub fn push_dec_u32(out: &mut Vec<char>, n: u32)
    ensures
        final(out)@ == old(out)@ + dec_str(n as nat),
    decreases n,
{
    if n < 10 {
        out.push(digit_char_of(n));
        assert(out@ =~= old(out)@ + dec_str(n as nat));
    } else {
        push_dec_u32(out, n / 10);
        let d = n % 10;
        out.push(digit_char_of(d));
        assert(out@ =~= old(out)@ + dec_str(n as nat));
    }
}

/// Appends the JSON escape of one character.
pub fn push_esc_char(out: &mut Vec<char>, c: char)
    ensures
        final(out)@ == old(out)@ + esc_char(c),
{
    if c == '"' {
        out.push('\\');
        out.push('"');
    } else if c == '\\' {
        out.push('\\');
        out.push('\\');
    } else if c == '\u{8}' {
        out.push('\\');
        out.push('b');
    } else if c == '\u{c}' {
        out.push('\\');
        out.push('f');
    } else if c == '\n' {
        out.push('\\');
        out.push('n');
    } else if c == '\r' {
        out.push('\\');
        out.push('r');
    } else if c == '\t' {
        out.push('\\');
        out.push('t');
    } else {
        let code = c as u32;
        if code < 0x20 {
            out.push('\\');
            out.push('u');
            out.push('0');
            out.push('0');
            out.push(hex_char_of(code / 16));
            out.push(hex_char_of(code % 16));
        } else {
            out.push(c);
        }
    }
    assert(out@ =~= old(out)@ + esc_char(c));
}

/// Appends the escaped text between double quotes, as a JSON string.
pub fn push_json_string(out: &mut Vec<char>, text: &Vec<char>)
    ensures
        final(out)@ == old(out)@ + json_string(text@),
{
    out.push('"');
    let mut i: usize = 0;
    while i < text.len()
        invariant
            i <= text.len(),
            out@ == old(out)@ + seq!['"'] + escape_text(text@.subrange(0, i as int)),
        decreases text.len() - i,
    {
        let ghost prefix = text@.subrange(0, i as int);
        push_esc_char(out, text[i]);
        proof {
            let next = text@.subrange(0, i + 1);
            assert(next.drop_last() =~= prefix);
            assert(next.last() == text@[i as int]);
        }
        i = i + 1;
    }
    proof {
        assert(text@.subrange(0, text@.len() as int) =~= text@);
    }
    out.push('"');
    assert(out@ =~= old(out)@ + json_string(text@));
}

/// Appends every character of a string slice.
pub fn push_str_chars(out: &mut Vec<char>, s: &str)
    ensures
        final(out)@ == old(out)@ + s@,
{
    let len = s.unicode_len();
    let mut i: usize = 0;
    while i < len
        invariant
            len == s@.len(),
            i <= len,
            out@ == old(out)@ + s@.subrange(0, i as int),
        decreases len - i,
    {
        let c = s.get_char(i);
        out.push(c);
        proof {
            assert(s@.subrange(0, i + 1) =~= s@.subrange(0, i as int).push(c));
            assert(out@ =~= old(out)@ + s@.subrange(0, i + 1));
        }
        i = i + 1;
    }
    proof {
        assert(s@.subrange(0, len as int) =~= s@);
    }
}

/// Relies on `String::push`: appends exactly the given character.
#[verifier::external_body]
fn push_char(s: &mut String, c: char)
    ensures
        final(s)@ == old(s)@.push(c),
{
    s.push(c);
}

/// Builds the `String` holding exactly the buffered characters.
pub fn chars_to_string(v: &Vec<char>) -> (r: String)
    ensures
        r@ == v@,
{
    let mut s = String::new();
    let mut i: usize = 0;
    while i < v.len()
        invariant
            i <= v.len(),
            s@ == v@.subrange(0, i as int),
        decreases v.len() - i,
    {
        push_char(&mut s, v[i]);
        proof {
            assert(v@.subrange(0, i + 1) =~= v@.subrange(0, i as int).push(v@[i as int]));
        }
        i = i + 1;
    }
    proof {
        assert(v@.subrange(0, v@.len() as int) =~= v@);
    }
    s
}


/// The character sequences held by a sequence of buffers.
pub open spec fn texts_view(fs: Seq<Vec<char>>) -> Seq<Seq<char>> {
    Seq::new(fs.len(), |i: int| fs[i]@)
}

/// Appends the buffers joined by single commas.
pub fn push_joined(out: &mut Vec<char>, fs: &Vec<Vec<char>>)
    ensures
        final(out)@ == old(out)@ + join_comma(texts_view(fs@)),
{
    let ghost model = texts_view(fs@);
    let mut i: usize = 0;
    while i < fs.len()
        invariant
            i <= fs.len(),
            model == texts_view(fs@),
            out@ == old(out)@ + join_comma(model.subrange(0, i as int)),
        decreases fs.len() - i,
    {
        let ghost prefix = model.subrange(0, i as int);
        if i > 0 {
            out.push(',');
        }
        let field = &fs[i];
        let mut j: usize = 0;
        while j < field.len()
            invariant
                j <= field.len(),
                field == fs[i as int],
                i < fs.len(),
                model == texts_view(fs@),
                out@ == old(out)@ + join_comma(model.subrange(0, i as int)) + field_sep(i == 0)
                    + field@.subrange(0, j as int),
            decreases field.len() - j,
        {
            out.push(field[j]);
            proof {
                assert(field@.subrange(0, j + 1) =~= field@.subrange(0, j as int).push(
                    field@[j as int],
                ));
                assert(out@ =~= old(out)@ + join_comma(model.subrange(0, i as int)) + field_sep(
                    i == 0,
                ) + field@.subrange(0, j + 1));
            }
            j = j + 1;
        }
        proof {
            let next = model.subrange(0, i + 1);
            assert(next.drop_last() =~= prefix);
            assert(next.last() == model[i as int]);
            assert(model[i as int] == field@);
            assert(field@.subrange(0, field@.len() as int) =~= field@);
            if i == 0 {
                assert(join_comma(next) == field@);
                assert(out@ =~= old(out)@ + join_comma(next));
            } else {
                assert(join_comma(next) == join_comma(prefix) + seq![','] + field@);
                assert(out@ =~= old(out)@ + join_comma(next));
            }
        }
        i = i + 1;
    }
    proof {
        assert(model.subrange(0, model.len() as int) =~= model);
    }
}

/// The separator written before a joined item: nothing for the first,
/// a comma for every later one.
pub open spec fn field_sep(first: bool) -> Seq<char> {
    if first {
        Seq::empty()
    } else {
        seq![',']
    }
}

} // verus!
