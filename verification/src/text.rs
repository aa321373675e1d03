//! Text building: decimal numerals and JSON string literals.

use vstd::prelude::*;

verus! {

/// `String::push` appends one character and changes nothing else.
pub assume_specification[ String::push ](s: &mut String, ch: char)
    ensures
        final(s)@ == old(s)@.push(ch),
;

/// The character that writes the digit `d`, for `0 <= d < 10`.
pub open spec fn digit(d: int) -> char {
    (d + 48) as char
}

/// The decimal numeral of `n`, without sign or leading zeros.
pub open spec fn decimal(n: nat) -> Seq<char>
    decreases n,
{
    if n < 10 {
        seq![digit(n as int)]
    } else {
        decimal(n / 10).push(digit((n % 10) as int))
    }
}

/// Appends the decimal numeral of `n` to `out`.
pub fn push_decimal(out: &mut String, n: u64)
    ensures
        final(out)@ == old(out)@ + decimal(n as nat),
    decreases n,
{
    if n >= 10 {
        push_decimal(out, n / 10);
    }
    let d: u8 = (n % 10) as u8;
    out.push((d + 48) as char);
}

/// The number that a sequence of decimal digits writes.
pub open spec fn numeral_value(digits: Seq<char>) -> nat
    decreases digits.len(),
{
    if digits.len() == 0 {
        0
    } else {
        (numeral_value(digits.drop_last()) * 10 + (digits.last() as int - 48)) as nat
    }
}

/// The decimal numeral of `n` is made of digits, has no leading zero unless
/// `n` is zero, and writes `n`.
pub proof fn lemma_decimal_writes(n: nat)
    ensures
        decimal(n).len() >= 1,
        forall|i: int| 0 <= i < decimal(n).len() ==> '0' <= #[trigger] decimal(n)[i] <= '9',
        n > 0 ==> decimal(n)[0] != '0',
        numeral_value(decimal(n)) == n,
    decreases n,
{
    let last = decimal(n).last();
    if n < 10 {
        assert(decimal(n).drop_last() =~= Seq::<char>::empty());
        assert(numeral_value(decimal(n).drop_last()) == 0);
        assert(last as int - 48 == n);
    } else {
        lemma_decimal_writes(n / 10);
        assert(decimal(n).drop_last() =~= decimal(n / 10));
        assert(decimal(n)[0] == decimal(n / 10)[0]);
        assert(last as int - 48 == n % 10);
    }
}

/// The character that writes the hexadecimal digit `d` in lower case, for
/// `0 <= d < 16`.
pub open spec fn hex_digit(d: int) -> char {
    if d < 10 {
        (d + 48) as char
    } else {
        (d + 87) as char
    }
}

/// A character that stands for itself inside a JSON string literal: neither
/// a quotation mark, nor a backslash, nor a control character below the space.
pub open spec fn plain(c: char) -> bool {
    c != '"' && c != '\\' && c as u32 >= 0x20
}

/// How one character is written inside a JSON string literal: a quotation
/// mark and a backslash behind a backslash, a control character below the
/// space by its short escape where JSON has one and as `\u00XX` where it has
/// none, every other character as itself.
pub open spec fn escape(c: char) -> Seq<char> {
    if c == '"' {
        seq!['\\', '"']
    } else if c == '\\' {
        seq!['\\', '\\']
    } else if c == '\u{8}' {
        seq!['\\', 'b']
    } else if c == '\t' {
        seq!['\\', 't']
    } else if c == '\n' {
        seq!['\\', 'n']
    } else if c == '\u{c}' {
        seq!['\\', 'f']
    } else if c == '\r' {
        seq!['\\', 'r']
    } else if (c as u32) < 0x20 {
        seq!['\\', 'u', '0', '0', hex_digit(c as int / 16), hex_digit(c as int % 16)]
    } else {
        seq![c]
    }
}

/// The characters of `text`, each written as [`escape`] says.
pub open spec fn escaped(text: Seq<char>) -> Seq<char>
    decreases text.len(),
{
    if text.len() == 0 {
        Seq::empty()
    } else {
        escaped(text.drop_last()) + escape(text.last())
    }
}

/// The JSON string literal that denotes `text`.
pub open spec fn quoted(text: Seq<char>) -> Seq<char> {
    seq!['"'] + escaped(text) + seq!['"']
}

/// Appends to `out` how `c` is written inside a JSON string literal.
pub fn push_escape(out: &mut String, c: char)
    ensures
        final(out)@ == old(out)@ + escape(c),
{
    if c == '"' {
        out.push('\\');
        out.push('"');
    } else if c == '\\' {
        out.push('\\');
        out.push('\\');
    } else if c == '\u{8}' {
        out.push('\\');
        out.push('b');
    } else if c == '\t' {
        out.push('\\');
        out.push('t');
    } else if c == '\n' {
        out.push('\\');
        out.push('n');
    } else if c == '\u{c}' {
        out.push('\\');
        out.push('f');
    } else if c == '\r' {
        out.push('\\');
        out.push('r');
    } else if (c as u32) < 0x20 {
        let code: u8 = c as u8;
        let high: u8 = code / 16;
        let low: u8 = code % 16;
        out.push('\\');
        out.push('u');
        out.push('0');
        out.push('0');
        out.push((high + 48) as char);
        if low < 10 {
            out.push((low + 48) as char);
        } else {
            out.push((low + 87) as char);
        }
    } else {
        out.push(c);
    }
}

/// Appends to `out` the JSON string literal that denotes `text`.
pub fn push_quoted(out: &mut String, text: &str)
    ensures
        final(out)@ == old(out)@ + quoted(text@),
{
    out.push('"');
    for c in it: text.chars()
        invariant
            it.seq() == text@,
            out@ == old(out)@.push('"') + escaped(text@.take(it.index())),
    {
        proof {
            let before = text@.take(it.index());
            let after = text@.take(it.index() + 1);
            assert(after.drop_last() =~= before);
            assert(after.last() == c);
        }
        push_escape(out, c);
    }
    assert(text@.take(text@.len() as int) =~= text@);
    out.push('"');
}

/// A text of plain characters is written between the quotation marks as it
/// stands.
pub proof fn lemma_plain_text_quoted(text: Seq<char>)
    requires
        forall|i: int| 0 <= i < text.len() ==> plain(#[trigger] text[i]),
    ensures
        quoted(text) == seq!['"'] + text + seq!['"'],
{
    lemma_plain_text_escaped(text);
}

proof fn lemma_plain_text_escaped(text: Seq<char>)
    requires
        forall|i: int| 0 <= i < text.len() ==> plain(#[trigger] text[i]),
    ensures
        escaped(text) == text,
    decreases text.len(),
{
    if text.len() > 0 {
        let front = text.drop_last();
        assert forall|i: int| 0 <= i < front.len() implies plain(#[trigger] front[i]) by {
            assert(front[i] == text[i]);
        }
        lemma_plain_text_escaped(front);
        assert(escape(text.last()) =~= seq![text.last()]);
        assert(text =~= front + seq![text.last()]);
    }
}

/// Escaping goes character by character: what stands for a text begins with
/// what stands for its first character.
pub proof fn lemma_escaped_first(text: Seq<char>)
    requires
        text.len() > 0,
    ensures
        escaped(text) == escape(text[0]) + escaped(text.drop_first()),
    decreases text.len(),
{
    if text.len() == 1 {
        assert(text.drop_last() =~= Seq::<char>::empty());
        assert(text.drop_first() =~= Seq::<char>::empty());
    } else {
        lemma_escaped_first(text.drop_last());
        assert(text.drop_last().drop_first() =~= text.drop_first().drop_last());
        assert(text.drop_first().last() == text.last());
    }
}

/// What stands for a character tells which character it is, whatever
/// follows it: no escape is the beginning of another.
pub proof fn lemma_escape_prefix_free(c: char, d: char, after_c: Seq<char>, after_d: Seq<char>)
    requires
        escape(c) + after_c == escape(d) + after_d,
    ensures
        c == d,
        after_c == after_d,
{
    let left = escape(c) + after_c;
    let right = escape(d) + after_d;
    // The first character tells a plain character from an escape.
    assert(left[0] == escape(c)[0] && right[0] == escape(d)[0]);
    if !plain(c) {
        // The second tells which escape it is.
        assert(left[1] == escape(c)[1] && right[1] == escape(d)[1]);
        if escape(c)[1] == 'u' {
            // The two digits at the end tell the code.
            assert(left[4] == escape(c)[4] && right[4] == escape(d)[4]);
            assert(left[5] == escape(c)[5] && right[5] == escape(d)[5]);
            assert(c as int / 16 == d as int / 16 && c as int % 16 == d as int % 16);
        }
    }
    assert(c == d);
    assert(after_c =~= left.skip(escape(c).len() as int));
    assert(after_d =~= right.skip(escape(d).len() as int));
}

/// A JSON string literal tells which text it denotes, whatever follows it:
/// the literal ends at its first quotation mark that no backslash escapes.
pub proof fn lemma_quoted_prefix_free(
    a: Seq<char>,
    b: Seq<char>,
    after_a: Seq<char>,
    after_b: Seq<char>,
)
    requires
        quoted(a) + after_a == quoted(b) + after_b,
    ensures
        a == b,
        after_a == after_b,
{
    let tail_a = seq!['"'] + after_a;
    let tail_b = seq!['"'] + after_b;
    assert(escaped(a) + tail_a =~= (quoted(a) + after_a).skip(1));
    assert(escaped(b) + tail_b =~= (quoted(b) + after_b).skip(1));
    lemma_escaped_delimited(a, b, tail_a, tail_b);
    assert(after_a =~= tail_a.skip(1));
    assert(after_b =~= tail_b.skip(1));
}

/// An escaped text that a quotation mark follows tells where it ends: no
/// escape begins with a quotation mark.
proof fn lemma_escaped_delimited(a: Seq<char>, b: Seq<char>, tail_a: Seq<char>, tail_b: Seq<char>)
    requires
        escaped(a) + tail_a == escaped(b) + tail_b,
        tail_a.len() > 0 && tail_a[0] == '"',
        tail_b.len() > 0 && tail_b[0] == '"',
    ensures
        a == b,
        tail_a == tail_b,
    decreases a.len() + b.len(),
{
    let left = escaped(a) + tail_a;
    let right = escaped(b) + tail_b;
    if a.len() == 0 && b.len() == 0 {
        assert(a =~= b);
        assert(tail_a =~= left && tail_b =~= right);
    } else if a.len() == 0 {
        lemma_escaped_first(b);
        assert(left[0] == '"' && right[0] == escape(b[0])[0]);
    } else if b.len() == 0 {
        lemma_escaped_first(a);
        assert(right[0] == '"' && left[0] == escape(a[0])[0]);
    } else {
        lemma_escaped_first(a);
        lemma_escaped_first(b);
        let after_a = escaped(a.drop_first()) + tail_a;
        let after_b = escaped(b.drop_first()) + tail_b;
        assert(left =~= escape(a[0]) + after_a);
        assert(right =~= escape(b[0]) + after_b);
        lemma_escape_prefix_free(a[0], b[0], after_a, after_b);
        lemma_escaped_delimited(a.drop_first(), b.drop_first(), tail_a, tail_b);
        assert(a =~= seq![a[0]] + a.drop_first());
        assert(b =~= seq![b[0]] + b.drop_first());
    }
}

} // verus!
