//! Text: its bytes, its trailing line breaks, and numbers in it.
use vstd::prelude::*;
use vstd::utf8::{decode_utf8, encode_scalar, encode_utf8, is_char_boundary, valid_utf8};

verus! {

/// Calls [`String::from_utf8`], which takes over `bytes` as a text.
///
/// Claimed of it: it succeeds exactly on valid UTF-8, and the text is then the one that the bytes
/// encode.
#[verifier::external_body]
pub(crate) fn string_from_utf8(bytes: Vec<u8>) -> (text: Option<String>)
    ensures
        text is Some <==> valid_utf8(bytes@),
        text matches Some(s) ==> s@ == decode_utf8(bytes@),
{
    String::from_utf8(bytes).ok()
}

/// The text that `bytes` are read as when whatever is not valid UTF-8 in them is replaced by the
/// replacement character.
pub uninterp spec fn utf8_lossy(bytes: Seq<u8>) -> Seq<char>;

/// Calls [`String::from_utf8_lossy`], which reads `bytes` as a text and replaces what is not
/// valid UTF-8 in them.
///
/// Claimed of it: the text depends on the bytes alone, and valid UTF-8 is read as the text that
/// it encodes. How much of an invalid sequence one replacement character stands for is not said.
#[verifier::external_body]
pub(crate) fn string_from_utf8_lossy(bytes: &[u8]) -> (text: String)
    ensures
        text@ == utf8_lossy(bytes@),
        valid_utf8(bytes@) ==> text@ == decode_utf8(bytes@),
{
    String::from_utf8_lossy(bytes).into_owned()
}

/// The bytes of two texts joined are the bytes of both, joined.
pub proof fn lemma_encode_concat(a: Seq<char>, b: Seq<char>)
    ensures
        encode_utf8(a + b) == encode_utf8(a) + encode_utf8(b),
    decreases a.len(),
{
    if a.len() == 0 {
        assert(a + b =~= b);
        assert(encode_utf8(a) + encode_utf8(b) =~= encode_utf8(b));
    } else {
        lemma_encode_concat(a.drop_first(), b);
        assert((a + b).drop_first() =~= a.drop_first() + b);
        assert(encode_utf8(a + b) =~= encode_utf8(a) + encode_utf8(b));
    }
}

/// Two texts with the same bytes are the same text.
pub proof fn lemma_encode_injective(a: Seq<char>, b: Seq<char>)
    requires
        encode_utf8(a) == encode_utf8(b),
    ensures
        a == b,
{
    vstd::utf8::encode_utf8_decode_utf8(a);
    vstd::utf8::encode_utf8_decode_utf8(b);
}

/// Two texts joined can be split where they were joined.
pub proof fn lemma_boundary_concat(a: Seq<char>, b: Seq<char>)
    ensures
        is_char_boundary(encode_utf8(a + b), encode_utf8(a).len() as int),
    decreases a.len(),
{
    vstd::utf8::encode_utf8_valid_utf8(a + b);
    if a.len() == 0 {
        vstd::utf8::is_char_boundary_start_end_of_seq(encode_utf8(a + b));
    } else {
        let rest = a.drop_first();
        lemma_boundary_concat(rest, b);
        lemma_encode_concat(a, b);
        vstd::utf8::encode_utf8_first_scalar(a + b);
        let bytes = encode_utf8(a + b);
        assert((a + b).drop_first() =~= rest + b);
        assert(vstd::utf8::pop_first_scalar(bytes) =~= encode_utf8(rest + b));
    }
}

/// The last byte of a text tells its last character if either of them is ASCII.
pub proof fn lemma_last_ascii(text: Seq<char>)
    requires
        text.len() > 0,
    ensures
        encode_utf8(text).len() > 0,
        encode_utf8(text).last() < 0x80 <==> (text.last() as u32) < 0x80,
        (text.last() as u32) < 0x80 ==> {
            &&& encode_utf8(text).last() == text.last() as u32
            &&& encode_utf8(text).drop_last() == encode_utf8(text.drop_last())
        },
{
    let last = text.last();
    let code = last as u32;
    let front = text.drop_last();
    assert(text =~= front + seq![last]);
    lemma_encode_concat(front, seq![last]);
    assert(seq![last].drop_first() =~= seq![]);
    reveal_with_fuel(encode_utf8, 2);
    assert(encode_utf8(seq![last]) =~= encode_scalar(code));
    assert(code < 0x80 ==> (code & 0x7F) as u8 == code) by (bit_vector);
    let low = (code & 0x3F) as u8;
    assert(0x80u8 | low >= 0x80) by (bit_vector);
    vstd::utf8::char_is_scalar(last);
    if code < 0x80 {
        assert(encode_utf8(text).drop_last() =~= encode_utf8(front));
    }
}

/// The text that an optional string holds.
pub open spec fn opt_text(text: Option<String>) -> Option<Seq<char>> {
    match text {
        Some(s) => Some(s@),
        None => None,
    }
}

/// True for a line break.
pub open spec fn is_line_break(c: char) -> bool {
    c == '\n' || c == '\r'
}

/// A text without the line breaks at its end.
pub open spec fn normalized(text: Seq<char>) -> Seq<char>
    decreases text.len(),
{
    if text.len() > 0 && is_line_break(text.last()) {
        normalized(text.drop_last())
    } else {
        text
    }
}

/// normalize text read from the clipboard so that round-trips through the
/// various tools (which differ in trailing newline handling) compare equal
pub fn normalize(text: String) -> (result: String)
    ensures
        result@ == normalized(text@),
{
    let bytes: &[u8] = text.as_str().as_bytes();
    let mut end: usize = bytes.len();
    let ghost mut kept = text@;
    let ghost mut cut: Seq<char> = seq![];
    proof {
        assert(kept + cut =~= text@);
        assert(bytes@.take(end as int) =~= bytes@);
    }
    while end > 0 && (bytes[end - 1] == 10 || bytes[end - 1] == 13)
        invariant
            end <= bytes@.len(),
            bytes@ == encode_utf8(text@),
            kept + cut == text@,
            encode_utf8(kept) == bytes@.take(end as int),
            normalized(kept) == normalized(text@),
        decreases end,
    {
        proof {
            if kept.len() == 0 {
                assert(encode_utf8(kept).len() == 0);
            }
            lemma_last_ascii(kept);
            assert(bytes@.take(end as int).drop_last() =~= bytes@.take(end - 1));
            assert(encode_utf8(kept).last() == bytes@[end - 1]);
            vstd::utf8::char_u32_cast(kept.last(), kept.last() as u32);
            vstd::utf8::char_u32_cast('\n', 10);
            vstd::utf8::char_u32_cast('\r', 13);
            assert(is_line_break(kept.last()));
            cut = seq![kept.last()] + cut;
            assert(kept =~= kept.drop_last() + seq![kept.last()]);
            assert(kept.drop_last() + cut =~= text@);
            kept = kept.drop_last();
        }
        end -= 1;
    }
    proof {
        if kept.len() > 0 {
            lemma_last_ascii(kept);
        }
        assert(normalized(kept) == kept);
        lemma_boundary_concat(kept, cut);
    }
    let (front, _) = text.as_str().split_at(end);
    proof {
        assert(encode_utf8(front@) =~= encode_utf8(kept));
        lemma_encode_injective(front@, kept);
    }
    front.to_owned()
}

/// Normalizing leaves a beginning of the text, which does not end in a line break, and takes only
/// line breaks away.
pub proof fn law_normalized(text: Seq<char>)
    ensures
        normalized(text).len() <= text.len(),
        normalized(text) == text.take(normalized(text).len() as int),
        normalized(text).len() > 0 ==> !is_line_break(normalized(text).last()),
        forall|i: int| normalized(text).len() <= i < text.len() ==> is_line_break(text[i]),
    decreases text.len(),
{
    if text.len() > 0 && is_line_break(text.last()) {
        law_normalized(text.drop_last());
        let n = normalized(text).len() as int;
        assert(text.drop_last().take(n) =~= text.take(n));
        assert forall|i: int| n <= i < text.len() implies is_line_break(text[i]) by {
            if i < text.len() - 1 {
                assert(is_line_break(text.drop_last()[i]));
            }
        }
    } else {
        assert(text.take(text.len() as int) =~= text);
    }
}

/// What normalizing takes away and what it leaves: of the text a beginning is left that does not
/// end in `'\n'` or `'\r'`, and nothing but these two characters stood behind it.
pub proof fn law_normalized_exactly(text: Seq<char>, front: Seq<char>, breaks: Seq<char>)
    requires
        text == front + breaks,
        front.len() > 0 ==> front.last() != '\n' && front.last() != '\r',
        forall|i: int|
            0 <= i < breaks.len() ==> (#[trigger] breaks[i] == '\n' || breaks[i] == '\r'),
    ensures
        normalized(text) == front,
{
    law_normalized_ignores_line_breaks(front, breaks);
}

/// Normalizing twice is normalizing once.
pub proof fn law_normalized_idempotent(text: Seq<char>)
    ensures
        normalized(normalized(text)) == normalized(text),
{
    law_normalized(text);
}

/// Texts that differ in the line breaks at their end compare equal once normalized.
pub proof fn law_normalized_ignores_line_breaks(text: Seq<char>, breaks: Seq<char>)
    requires
        forall|i: int| 0 <= i < breaks.len() ==> is_line_break(#[trigger] breaks[i]),
    ensures
        normalized(text + breaks) == normalized(text),
    decreases breaks.len(),
{
    if breaks.len() == 0 {
        assert(text + breaks =~= text);
    } else {
        law_normalized_ignores_line_breaks(text, breaks.drop_last());
        assert((text + breaks).drop_last() =~= text + breaks.drop_last());
        assert((text + breaks).last() == breaks.last());
    }
}

/// True when the two texts are the same.
pub(crate) fn same_text(a: &str, b: &str) -> (same: bool)
    ensures
        same == (a@ == b@),
{
    let left: &[u8] = a.as_bytes();
    let right: &[u8] = b.as_bytes();
    if left.len() != right.len() {
        return false;
    }
    let mut i: usize = 0;
    while i < left.len()
        invariant
            i <= left@.len(),
            left@.len() == right@.len(),
            left@ == encode_utf8(a@),
            right@ == encode_utf8(b@),
            forall|j: int| 0 <= j < i ==> left@[j] == right@[j],
        decreases left@.len() - i,
    {
        if left[i] != right[i] {
            return false;
        }
        i += 1;
    }
    proof {
        assert(left@ =~= right@);
        lemma_encode_injective(a@, b@);
    }
    true
}

/// The decimal digit for a number below ten.
pub open spec fn digit(n: nat) -> char {
    if n == 0 {
        '0'
    } else if n == 1 {
        '1'
    } else if n == 2 {
        '2'
    } else if n == 3 {
        '3'
    } else if n == 4 {
        '4'
    } else if n == 5 {
        '5'
    } else if n == 6 {
        '6'
    } else if n == 7 {
        '7'
    } else if n == 8 {
        '8'
    } else {
        '9'
    }
}

/// A number in decimal notation, without leading zeros.
pub open spec fn decimal(n: nat) -> Seq<char>
    decreases n,
{
    if n < 10 {
        seq![digit(n)]
    } else {
        decimal(n / 10).push(digit(n % 10))
    }
}

/// Decimal notation: a number below ten is one character, that many places after `'0'`; a further
/// digit behind a number other than zero multiplies it by ten and adds the digit.
pub proof fn law_decimal(n: nat, d: nat)
    requires
        d < 10,
    ensures
        decimal(d).len() == 1,
        decimal(d)[0] as u32 == 48 + d,
        n > 0 ==> decimal(10 * n + d) == decimal(n) + decimal(d),
{
    if n > 0 {
        assert((10 * n + d) / 10 == n && (10 * n + d) % 10 == d);
        assert(decimal(10 * n + d) =~= decimal(n) + decimal(d));
    }
}

/// An optional string is seen as the text that it holds, if it holds one.
pub proof fn law_opt_text(text: Option<String>)
    ensures
        match text {
            Some(s) => opt_text(text) == Some(s@),
            None => opt_text(text) is None,
        },
{
}

/// Appends a number in decimal notation to `out`.
pub(crate) fn append_decimal(out: &mut String, n: u64)
    ensures
        final(out)@ == old(out)@ + decimal(n as nat),
    decreases n,
{
    if n >= 10 {
        append_decimal(out, n / 10);
    }
    let figure = match n % 10 {
        0 => "0",
        1 => "1",
        2 => "2",
        3 => "3",
        4 => "4",
        5 => "5",
        6 => "6",
        7 => "7",
        8 => "8",
        _ => "9",
    };
    out.append(figure);
    proof {
        reveal_strlit("0");
        reveal_strlit("1");
        reveal_strlit("2");
        reveal_strlit("3");
        reveal_strlit("4");
        reveal_strlit("5");
        reveal_strlit("6");
        reveal_strlit("7");
        reveal_strlit("8");
        reveal_strlit("9");
        assert(figure@ =~= seq![digit((n % 10) as nat)]);
        assert(out@ =~= old(out)@ + decimal(n as nat));
    }
}

} // verus!
