//! The textual building blocks that rendered values are made of: numerals,
//! joined lists and quoted strings.

use itertools::Itertools;
use vstd::prelude::*;
use vstd::string::*;
use vstd::utf8::*;

verus! {

/// The digits of the bases up to sixteen, in order of value.
pub open spec fn digits() -> Seq<char> {
    seq!['0', '1', '2', '3', '4', '5', '6', '7', '8', '9', 'a', 'b', 'c', 'd', 'e', 'f']
}

/// The character that stands for the digit value `d`.
pub open spec fn digit(d: nat) -> char
    recommends
        d < 16,
{
    digits()[d as int]
}

/// The decimal numeral of `n`, without leading zeros.
pub open spec fn decimal(n: nat) -> Seq<char>
    decreases n,
{
    if n < 10 {
        seq![digit(n)]
    } else {
        decimal(n / 10).push(digit(n % 10))
    }
}

/// The decimal numeral of `i`, with a minus sign in front of a negative one.
pub open spec fn signed_decimal(i: int) -> Seq<char> {
    if i < 0 {
        seq!['-'] + decimal((-i) as nat)
    } else {
        decimal(i as nat)
    }
}

/// The lowercase hexadecimal numeral of `n`, without leading zeros.
pub open spec fn hexadecimal(n: nat) -> Seq<char>
    decreases n,
{
    if n < 16 {
        seq![digit(n)]
    } else {
        hexadecimal(n / 16).push(digit(n % 16))
    }
}

/// The lowest `width` binary digits of `n`, most significant first.
pub open spec fn binary(n: nat, width: nat) -> Seq<char>
    decreases width,
{
    if width == 0 {
        Seq::empty()
    } else {
        binary(n / 2, (width - 1) as nat).push(digit(n % 2))
    }
}

/// The two lowercase hexadecimal digits of a byte.
pub open spec fn hex_octet(byte: u8) -> Seq<char> {
    seq![digit(byte as nat / 16), digit(byte as nat % 16)]
}

/// `count` spaces.
pub open spec fn spaces(count: nat) -> Seq<char> {
    Seq::new(count, |i: int| ' ')
}

/// The parts in order, with `separator` between each two neighbours.
pub open spec fn joined(parts: Seq<Seq<char>>, separator: Seq<char>) -> Seq<char>
    decreases parts.len(),
{
    if parts.len() == 0 {
        Seq::empty()
    } else if parts.len() == 1 {
        parts[0]
    } else {
        joined(parts.drop_last(), separator) + separator + parts.last()
    }
}

/// What each of the strings holds.
pub open spec fn contents(strings: Seq<String>) -> Seq<Seq<char>> {
    Seq::new(strings.len(), |i: int| strings[i]@)
}

/// The pieces of `text` that lie between the occurrences of `separator`, in
/// order. A text without the separator is one piece, and so is the empty text.
pub open spec fn split(text: Seq<char>, separator: char) -> Seq<Seq<char>>
    decreases text.len(),
{
    if text.len() == 0 {
        seq![Seq::empty()]
    } else {
        let before = split(text.drop_last(), separator);
        if text.last() == separator {
            before.push(Seq::empty())
        } else {
            before.drop_last().push(before.last().push(text.last()))
        }
    }
}

/// A text is split into at least one piece.
pub proof fn lemma_split_has_pieces(text: Seq<char>, separator: char)
    ensures
        split(text, separator).len() >= 1,
    decreases text.len(),
{
    if text.len() > 0 {
        lemma_split_has_pieces(text.drop_last(), separator);
    }
}

/// The pieces of a text, joined with the separator that it was split at, are
/// the text again.
pub proof fn lemma_split_joins_back(text: Seq<char>, separator: char)
    ensures
        joined(split(text, separator), seq![separator]) == text,
    decreases text.len(),
{
    let pieces = split(text, separator);
    if text.len() == 0 {
        assert(pieces[0] =~= text);
    } else {
        let shorter = text.drop_last();
        let before = split(shorter, separator);
        lemma_split_has_pieces(shorter, separator);
        lemma_split_joins_back(shorter, separator);
        if text.last() == separator {
            assert(pieces.drop_last() =~= before);
            assert(shorter + seq![separator] + Seq::<char>::empty() =~= text);
        } else if before.len() == 1 {
            assert(pieces[0] =~= before[0].push(text.last()));
            assert(shorter.push(text.last()) =~= text);
        } else {
            assert(pieces.drop_last() =~= before.drop_last());
            let front = joined(before.drop_last(), seq![separator]) + seq![separator];
            assert(front + before.last().push(text.last()) =~= (front + before.last()).push(
                text.last(),
            ));
            assert(shorter.push(text.last()) =~= text);
        }
    }
}

/// No piece of a split text holds the separator.
pub proof fn lemma_split_pieces_lack_separator(text: Seq<char>, separator: char)
    ensures
        forall|i: int|
            0 <= i < split(text, separator).len() ==> !(#[trigger] split(text, separator)[i])
                .contains(separator),
    decreases text.len(),
{
    let pieces = split(text, separator);
    if text.len() > 0 {
        let before = split(text.drop_last(), separator);
        lemma_split_has_pieces(text.drop_last(), separator);
        lemma_split_pieces_lack_separator(text.drop_last(), separator);
        assert forall|i: int| 0 <= i < pieces.len() implies !(#[trigger] pieces[i]).contains(
            separator,
        ) by {
            if i < pieces.len() - 1 {
                assert(pieces[i] == before[i]);
            } else if text.last() != separator {
                let grown = before.last().push(text.last());
                assert(pieces[i] == grown);
                if grown.contains(separator) {
                    let at = choose|at: int| 0 <= at < grown.len() && grown[at] == separator;
                    assert(before.last()[at] == separator);
                }
            }
        }
    }
}

/// What each of the string slices holds.
pub open spec fn slices(pieces: Seq<&str>) -> Seq<Seq<char>> {
    Seq::new(pieces.len(), |i: int| pieces[i]@)
}

/// The `Debug` form of a string in the standard library: the string between
/// double quotes, with the characters that need it escaped. It depends on the
/// characters of the string alone.
pub uninterp spec fn quoted(text: Seq<char>) -> Seq<char>;

/// Joins the strings with `itertools::Itertools::join`, which writes every
/// element as it displays, a string as itself, and puts the separator between
/// each two neighbours.
#[verifier::external_body]
pub(crate) fn join(parts: &Vec<String>, separator: &str) -> (out: String)
    ensures
        out@ == joined(contents(parts@), separator@),
{
    parts.iter().join(separator)
}

/// Formats the string with `{:?}`, that is with the standard library's
/// `Debug` for `str`. The result is named, not described: which characters
/// are escaped is decided by the Unicode tables of the standard library.
#[verifier::external_body]
pub(crate) fn quoted_string(text: &str) -> (out: String)
    ensures
        out@ == quoted(text@),
{
    format!("{:?}", text)
}

/// The digit `d` as a string of its own.
pub fn digit_str(d: u8) -> (s: &'static str)
    requires
        d < 16,
    ensures
        s@ == seq![digit(d as nat)],
{
    proof {
        reveal_strlit("0");
        reveal_strlit("1");
        reveal_strlit("2");
        reveal_strlit("3");
        reveal_strlit("4");
        reveal_strlit("5");
        reveal_strlit("6");
        reveal_strlit("7");
        reveal_strlit("8");
        reveal_strlit("9");
        reveal_strlit("a");
        reveal_strlit("b");
        reveal_strlit("c");
        reveal_strlit("d");
        reveal_strlit("e");
        reveal_strlit("f");
    }
    match d {
        0 => "0",
        1 => "1",
        2 => "2",
        3 => "3",
        4 => "4",
        5 => "5",
        6 => "6",
        7 => "7",
        8 => "8",
        9 => "9",
        10 => "a",
        11 => "b",
        12 => "c",
        13 => "d",
        14 => "e",
        _ => "f",
    }
}

/// Renders `n` in decimal.
pub fn decimal_string(n: u64) -> (out: String)
    ensures
        out@ == decimal(n as nat),
    decreases n,
{
    if n < 10 {
        String::from_str(digit_str(n as u8))
    } else {
        let mut out = decimal_string(n / 10);
        out.append(digit_str((n % 10) as u8));
        out
    }
}

/// Renders `i` in decimal, with its sign.
pub fn signed_decimal_string(i: i64) -> (out: String)
    ensures
        out@ == signed_decimal(i as int),
{
    if i < 0 {
        let magnitude: u64 = (-(i + 1)) as u64 + 1;
        let mut out = String::from_str("-");
        let numeral = decimal_string(magnitude);
        out.append(numeral.as_str());
        proof {
            reveal_strlit("-");
            assert("-"@ =~= seq!['-']);
        }
        out
    } else {
        decimal_string(i as u64)
    }
}

/// Renders `n` in lowercase hexadecimal.
pub fn hexadecimal_string(n: u64) -> (out: String)
    ensures
        out@ == hexadecimal(n as nat),
    decreases n,
{
    if n < 16 {
        String::from_str(digit_str(n as u8))
    } else {
        let mut out = hexadecimal_string(n / 16);
        out.append(digit_str((n % 16) as u8));
        out
    }
}

/// Renders the lowest `width` bits of `n`, most significant first.
pub fn binary_string(n: u8, width: u8) -> (out: String)
    ensures
        out@ == binary(n as nat, width as nat),
    decreases width,
{
    if width == 0 {
        String::new()
    } else {
        let mut out = binary_string(n / 2, width - 1);
        out.append(digit_str(n % 2));
        out
    }
}

/// Renders a byte as two lowercase hexadecimal digits.
pub fn hex_octet_string(byte: u8) -> (out: String)
    ensures
        out@ == hex_octet(byte),
{
    let mut out = String::from_str(digit_str(byte / 16));
    out.append(digit_str(byte % 16));
    out
}

/// A string of `count` spaces.
pub fn spaces_string(count: usize) -> (out: String)
    ensures
        out@ == spaces(count as nat),
{
    let mut out = String::new();
    let mut written: usize = 0;
    while written < count
        invariant
            written <= count,
            out@ == spaces(written as nat),
        decreases count - written,
    {
        out.append(" ");
        written += 1;
        proof {
            reveal_strlit(" ");
        }
    }
    out
}

/// Whether two strings hold the same characters.
pub fn same_text(left: &str, right: &str) -> (same: bool)
    ensures
        same == (left@ == right@),
{
    let a = left.as_bytes();
    let b = right.as_bytes();
    if a.len() != b.len() {
        return false;
    }
    let mut i: usize = 0;
    while i < a.len()
        invariant
            i <= a@.len(),
            a@.len() == b@.len(),
            a@ == left.spec_bytes(),
            b@ == right.spec_bytes(),
            forall|k: int| 0 <= k < i ==> a@[k] == b@[k],
        decreases a@.len() - i,
    {
        if a[i] != b[i] {
            return false;
        }
        i += 1;
    }
    proof {
        assert(a@ =~= b@);
        encode_utf8_decode_utf8(left@);
        encode_utf8_decode_utf8(right@);
    }
    true
}

/// Cuts `text` at every occurrence of `separator`.
pub fn split_text<'a>(text: &'a str, separator: char) -> (pieces: Vec<&'a str>)
    ensures
        slices(pieces@) == split(text@, separator),
{
    let length = text.unicode_len();
    let mut pieces: Vec<&'a str> = Vec::new();
    let mut start: usize = 0;
    let mut at: usize = 0;
    proof {
        assert(text@.subrange(0, 0) =~= Seq::empty());
        assert(text@.take(0) =~= Seq::empty());
        assert(slices(pieces@).push(text@.subrange(0, 0)) =~= seq![Seq::empty()]);
    }
    for c in it: text.chars()
        invariant
            at == it.index(),
            start <= at <= length,
            length == text@.len(),
            it.seq() == text@,
            slices(pieces@).push(text@.subrange(start as int, at as int)) == split(
                text@.take(at as int),
                separator,
            ),
    {
        let ghost before = split(text@.take(at as int), separator);
        proof {
            let longer = text@.take(at + 1);
            assert(longer.drop_last() =~= text@.take(at as int));
            assert(longer.last() == c);
            assert(before.last() == text@.subrange(start as int, at as int));
            assert(before.drop_last() =~= slices(pieces@));
            assert(text@.subrange(start as int, at as int).push(c) =~= text@.subrange(
                start as int,
                at + 1,
            ));
        }
        if c == separator {
            let piece = text.substring_char(start, at);
            proof {
                assert(slices(pieces@.push(piece)) =~= before);
                assert(text@.subrange(at + 1, at + 1) =~= Seq::empty());
            }
            pieces.push(piece);
            start = at + 1;
        }
        at += 1;
    }
    let piece = text.substring_char(start, at);
    proof {
        assert(text@.take(at as int) =~= text@);
        assert(slices(pieces@.push(piece)) =~= slices(pieces@).push(piece@));
    }
    pieces.push(piece);
    pieces
}

} // verus!
