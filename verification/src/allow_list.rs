//! The text form of an allow-list: capability ids in decimal, separated by
//! commas or line ends.
//!
//! The text is taken as bytes in UTF-8. Each piece between separators is
//! stripped of white space at both ends, which is every character with the
//! Unicode property White_Space. A piece that is a number from 0 to 255,
//! written in decimal digits with an optional plus sign, gives an id; every
//! other piece is passed over.

use vstd::prelude::*;

verus! {

/// Whether the byte ends a piece: line feed, carriage return or comma.
pub open spec fn spec_is_separator(b: u8) -> bool {
    b == 0x0A || b == 0x0D || b == 0x2C
}

/// Whether the byte is a white-space character of one byte: U+0009 to
/// U+000D, or the space.
pub open spec fn spec_is_blank(b: u8) -> bool {
    (0x09 <= b <= 0x0D) || b == 0x20
}

/// Whether the two bytes encode a white-space character: U+0085 or U+00A0.
pub open spec fn spec_is_blank_pair(a: u8, b: u8) -> bool {
    a == 0xC2 && (b == 0x85 || b == 0xA0)
}

/// Whether the three bytes encode a white-space character: U+1680, U+2000
/// to U+200A, U+2028, U+2029, U+202F, U+205F or U+3000.
pub open spec fn spec_is_blank_triple(a: u8, b: u8, c: u8) -> bool {
    ||| a == 0xE1 && b == 0x9A && c == 0x80
    ||| a == 0xE2 && b == 0x80 && ((0x80 <= c <= 0x8A) || c == 0xA8 || c == 0xA9 || c == 0xAF)
    ||| a == 0xE2 && b == 0x81 && c == 0x9F
    ||| a == 0xE3 && b == 0x80 && c == 0x80
}

/// The number of bytes of the white-space character that `t` starts with,
/// zero if it starts with none.
pub open spec fn spec_blank_at_start(t: Seq<u8>) -> int {
    if t.len() >= 1 && spec_is_blank(t[0]) {
        1
    } else if t.len() >= 2 && spec_is_blank_pair(t[0], t[1]) {
        2
    } else if t.len() >= 3 && spec_is_blank_triple(t[0], t[1], t[2]) {
        3
    } else {
        0
    }
}

/// The number of bytes of the white-space character that `t` ends with,
/// zero if it ends with none.
pub open spec fn spec_blank_at_end(t: Seq<u8>) -> int {
    let n = t.len() as int;
    if n >= 1 && spec_is_blank(t[n - 1]) {
        1
    } else if n >= 2 && spec_is_blank_pair(t[n - 2], t[n - 1]) {
        2
    } else if n >= 3 && spec_is_blank_triple(t[n - 3], t[n - 2], t[n - 1]) {
        3
    } else {
        0
    }
}

/// The piece without the white space at its ends.
pub open spec fn spec_trim(t: Seq<u8>) -> Seq<u8>
    decreases t.len(),
{
    if spec_blank_at_start(t) > 0 {
        spec_trim(t.subrange(spec_blank_at_start(t), t.len() as int))
    } else if spec_blank_at_end(t) > 0 {
        spec_trim(t.subrange(0, t.len() - spec_blank_at_end(t)))
    } else {
        t
    }
}

/// The number that `acc` and the decimal digits `t` write, or `None` if `t`
/// holds anything but digits.
pub open spec fn spec_digits(t: Seq<u8>, acc: int) -> Option<int>
    decreases t.len(),
{
    if t.len() == 0 {
        Some(acc)
    } else if 0x30 <= t[0] <= 0x39 {
        spec_digits(t.subrange(1, t.len() as int), acc * 10 + (t[0] - 0x30))
    } else {
        None
    }
}

/// The id that a stripped piece writes, if it writes one.
pub open spec fn spec_number(t: Seq<u8>) -> Option<u8> {
    let digits = if t.len() > 0 && t[0] == 0x2B {
        t.subrange(1, t.len() as int)
    } else {
        t
    };
    if digits.len() == 0 {
        None
    } else {
        match spec_digits(digits, 0) {
            Some(v) => if v <= 255 {
                Some(v as u8)
            } else {
                None
            },
            None => None,
        }
    }
}

/// What a piece adds to the list: its id, or nothing.
pub open spec fn spec_piece(t: Seq<u8>) -> Seq<u8> {
    match spec_number(spec_trim(t)) {
        Some(v) => seq![v],
        None => Seq::empty(),
    }
}

/// `acc` followed by the ids of the pieces of `text` from the piece that
/// starts at `start` and has been read up to `pos`.
pub open spec fn spec_scan(text: Seq<u8>, start: int, pos: int, acc: Seq<u8>) -> Seq<u8>
    decreases text.len() - pos,
{
    if pos < 0 || pos >= text.len() {
        acc + spec_piece(text.subrange(start, text.len() as int))
    } else if spec_is_separator(text[pos]) {
        spec_scan(text, pos + 1, pos + 1, acc + spec_piece(text.subrange(start, pos)))
    } else {
        spec_scan(text, start, pos + 1, acc)
    }
}

/// The ids that the text lists, in the order of the text.
pub open spec fn spec_allow_list(text: Seq<u8>) -> Seq<u8> {
    spec_scan(text, 0, 0, Seq::empty())
}

/// Digits never make a number smaller.
proof fn lemma_digits_grow(t: Seq<u8>, acc: int)
    requires
        acc >= 0,
    ensures
        spec_digits(t, acc) is Some ==> spec_digits(t, acc).unwrap() >= acc,
    decreases t.len(),
{
    if t.len() > 0 && 0x30 <= t[0] <= 0x39 {
        lemma_digits_grow(t.subrange(1, t.len() as int), acc * 10 + (t[0] - 0x30));
    }
}

/// Whether the byte is a white-space character of one byte.
fn is_blank(b: u8) -> (r: bool)
    ensures
        r == spec_is_blank(b),
{
    (0x09 <= b && b <= 0x0D) || b == 0x20
}

/// Whether the two bytes encode a white-space character.
fn is_blank_pair(a: u8, b: u8) -> (r: bool)
    ensures
        r == spec_is_blank_pair(a, b),
{
    a == 0xC2 && (b == 0x85 || b == 0xA0)
}

/// Whether the three bytes encode a white-space character.
fn is_blank_triple(a: u8, b: u8, c: u8) -> (r: bool)
    ensures
        r == spec_is_blank_triple(a, b, c),
{
    (a == 0xE1 && b == 0x9A && c == 0x80) || (a == 0xE2 && b == 0x80 && ((0x80 <= c && c <= 0x8A)
        || c == 0xA8 || c == 0xA9 || c == 0xAF)) || (a == 0xE2 && b == 0x81 && c == 0x9F) || (a
        == 0xE3 && b == 0x80 && c == 0x80)
}

/// The number of bytes of the white-space character that the piece from
/// `from` to `to` starts with, zero if it starts with none.
pub fn blank_at_start(text: &[u8], from: usize, to: usize) -> (n: usize)
    requires
        from <= to <= text@.len(),
    ensures
        n == spec_blank_at_start(text@.subrange(from as int, to as int)),
        n <= to - from,
{
    let len = to - from;
    if len >= 1 && is_blank(text[from]) {
        1
    } else if len >= 2 && is_blank_pair(text[from], text[from + 1]) {
        2
    } else if len >= 3 && is_blank_triple(text[from], text[from + 1], text[from + 2]) {
        3
    } else {
        0
    }
}

/// The number of bytes of the white-space character that the piece from
/// `from` to `to` ends with, zero if it ends with none.
pub fn blank_at_end(text: &[u8], from: usize, to: usize) -> (n: usize)
    requires
        from <= to <= text@.len(),
    ensures
        n == spec_blank_at_end(text@.subrange(from as int, to as int)),
        n <= to - from,
{
    let len = to - from;
    if len >= 1 && is_blank(text[to - 1]) {
        1
    } else if len >= 2 && is_blank_pair(text[to - 2], text[to - 1]) {
        2
    } else if len >= 3 && is_blank_triple(text[to - 3], text[to - 2], text[to - 1]) {
        3
    } else {
        0
    }
}

/// The id that the piece of `text` from `from` to `to` writes, if any.
pub fn parse_piece(text: &[u8], from: usize, to: usize) -> (res: Option<u8>)
    requires
        from <= to <= text@.len(),
    ensures
        res == spec_number(spec_trim(text@.subrange(from as int, to as int))),
{
    let mut lo = from;
    let mut hi = to;
    let mut k = blank_at_start(text, lo, hi);
    while k > 0
        invariant
            from <= lo <= hi <= to <= text@.len(),
            k == spec_blank_at_start(text@.subrange(lo as int, hi as int)),
            k <= hi - lo,
            spec_trim(text@.subrange(from as int, to as int)) == spec_trim(
                text@.subrange(lo as int, hi as int),
            ),
        decreases hi - lo,
    {
        assert(text@.subrange(lo as int, hi as int).subrange(k as int, hi - lo) =~= text@.subrange(
            lo + k,
            hi as int,
        ));
        lo += k;
        k = blank_at_start(text, lo, hi);
    }
    let mut j = blank_at_end(text, lo, hi);
    while j > 0
        invariant
            from <= lo <= hi <= to <= text@.len(),
            j == spec_blank_at_end(text@.subrange(lo as int, hi as int)),
            j <= hi - lo,
            spec_blank_at_start(text@.subrange(lo as int, hi as int)) == 0,
            spec_trim(text@.subrange(from as int, to as int)) == spec_trim(
                text@.subrange(lo as int, hi as int),
            ),
        decreases hi - lo,
    {
        let ghost whole = text@.subrange(lo as int, hi as int);
        let ghost less = text@.subrange(lo as int, hi - j);
        assert(whole.subrange(0, hi - lo - j) =~= less);
        assert(spec_blank_at_start(less) == 0) by {
            if less.len() >= 1 {
                assert(less[0] == whole[0]);
            }
            if less.len() >= 2 {
                assert(less[1] == whole[1]);
            }
            if less.len() >= 3 {
                assert(less[2] == whole[2]);
            }
        }
        hi -= j;
        j = blank_at_end(text, lo, hi);
    }
    let ghost piece = text@.subrange(lo as int, hi as int);
    assert(spec_trim(piece) == piece);
    let first = if lo < hi && text[lo] == 0x2B {
        lo + 1
    } else {
        lo
    };
    let ghost digits = text@.subrange(first as int, hi as int);
    assert(digits =~= if piece.len() > 0 && piece[0] == 0x2B {
        piece.subrange(1, piece.len() as int)
    } else {
        piece
    });
    if first >= hi {
        return None;
    }
    let mut k = first;
    let mut acc: u32 = 0;
    let ghost wanted = spec_number(spec_trim(text@.subrange(from as int, to as int)));
    assert(wanted == match spec_digits(digits, 0) {
        Some(v) => if v <= 255 {
            Some(v as u8)
        } else {
            None
        },
        None => None,
    });
    while k < hi
        invariant
            first <= k <= hi <= text@.len(),
            from <= to <= text@.len(),
            acc <= 255,
            digits == text@.subrange(first as int, hi as int),
            wanted == spec_number(spec_trim(text@.subrange(from as int, to as int))),
            wanted == match spec_digits(digits, 0) {
                Some(v) => if v <= 255 {
                    Some(v as u8)
                } else {
                    None
                },
                None => None,
            },
            spec_digits(digits, 0) == spec_digits(text@.subrange(k as int, hi as int), acc as int),
        decreases hi - k,
    {
        let b = text[k];
        let ghost rest = text@.subrange(k as int, hi as int);
        assert(rest.subrange(1, rest.len() as int) =~= text@.subrange(k + 1, hi as int));
        if b < 0x30 || b > 0x39 {
            return None;
        }
        let next = acc * 10 + (b - 0x30) as u32;
        if next > 255 {
            proof {
                lemma_digits_grow(text@.subrange(k + 1, hi as int), next as int);
            }
            return None;
        }
        acc = next;
        k += 1;
    }
    Some(acc as u8)
}

/// Reads an allow-list from its text.
pub fn parse_allow_list(text: &[u8]) -> (ids: Vec<u8>)
    ensures
        ids@ == spec_allow_list(text@),
{
    let mut ids: Vec<u8> = Vec::new();
    let mut start: usize = 0;
    let mut pos: usize = 0;
    while pos < text.len()
        invariant
            start <= pos <= text@.len(),
            spec_allow_list(text@) == spec_scan(text@, start as int, pos as int, ids@),
        decreases text@.len() - pos,
    {
        let b = text[pos];
        if b == 0x0A || b == 0x0D || b == 0x2C {
            let ghost before = ids@;
            match parse_piece(text, start, pos) {
                Some(v) => {
                    ids.push(v);
                    assert(ids@ =~= before + seq![v]);
                },
                None => {
                    assert(ids@ =~= before + Seq::<u8>::empty());
                },
            }
            start = pos + 1;
        }
        pos += 1;
    }
    let ghost before = ids@;
    match parse_piece(text, start, pos) {
        Some(v) => {
            ids.push(v);
            assert(ids@ =~= before + seq![v]);
        },
        None => {
            assert(ids@ =~= before + Seq::<u8>::empty());
        },
    }
    ids
}

} // verus!
