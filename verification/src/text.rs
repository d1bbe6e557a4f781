//! Characters and strings as sequences.

use vstd::prelude::*;

verus! {

/// `String::push` appends one character.
pub assume_specification[ String::push ](s: &mut String, c: char)
    ensures
        final(s)@ == old(s)@.push(c),
;

/// The characters of a string, in order.
pub fn chars_of(s: &str) -> (v: Vec<char>)
    ensures
        v@ == s@,
{
    broadcast use vstd::string::group_string_axioms;

    let mut v: Vec<char> = Vec::new();
    for c in it: s.chars()
        invariant
            it.seq() == s@,
            v@ == s@.take(it.index() as int),
    {
        v.push(c);
    }
    v
}

/// The string made of the characters `v[from..to]`.
pub fn string_of(v: &Vec<char>, from: usize, to: usize) -> (s: String)
    requires
        from <= to <= v.len(),
    ensures
        s@ == v@.subrange(from as int, to as int),
{
    let mut s = String::new();
    let mut i: usize = from;
    while i < to
        invariant
            from <= i <= to <= v.len(),
            s@ == v@.subrange(from as int, i as int),
        decreases to - i,
    {
        s.push(v[i]);
        i = i + 1;
    }
    s
}

/// Whether two strings hold the same characters.
pub fn text_eq(a: &str, b: &str) -> (r: bool)
    ensures
        r == (a@ == b@),
{
    let va = chars_of(a);
    let vb = chars_of(b);
    if va.len() != vb.len() {
        return false;
    }
    let mut i: usize = 0;
    while i < va.len()
        invariant
            va@ == a@,
            vb@ == b@,
            va.len() == vb.len(),
            i <= va.len(),
            va@.take(i as int) == vb@.take(i as int),
        decreases va.len() - i,
    {
        if va[i] != vb[i] {
            return false;
        }
        assert(va@.take(i + 1) == va@.take(i as int).push(va@[i as int]));
        assert(vb@.take(i + 1) == vb@.take(i as int).push(vb@[i as int]));
        i = i + 1;
    }
    assert(va@ == va@.take(va.len() as int));
    assert(vb@ == vb@.take(vb.len() as int));
    true
}

/// The characters `v[from..to]`.
pub fn slice_of(v: &Vec<char>, from: usize, to: usize) -> (r: Vec<char>)
    requires
        from <= to <= v.len(),
    ensures
        r@ == v@.subrange(from as int, to as int),
{
    let mut r: Vec<char> = Vec::new();
    let mut i: usize = from;
    while i < to
        invariant
            from <= i <= to <= v.len(),
            r@ == v@.subrange(from as int, i as int),
        decreases to - i,
    {
        r.push(v[i]);
        i = i + 1;
    }
    r
}

// ------------------------------------------------------- decimal numbers

/// A decimal digit.
pub open spec fn is_digit(c: char) -> bool {
    '0' <= c && c <= '9'
}

/// The number that a decimal digit stands for.
pub open spec fn digit_value(c: char) -> nat {
    (c as u32 - '0' as u32) as nat
}

/// The decimal digit of a number below ten.
pub open spec fn digit_char(d: nat) -> char {
    (('0' as u32 + d) as u8) as char
}

/// A text that is one or more decimal digits.
pub open spec fn is_decimal(s: Seq<char>) -> bool {
    s.len() > 0 && forall|i: int| 0 <= i < s.len() ==> is_digit(#[trigger] s[i])
}

/// The number that a text of decimal digits spells.
pub open spec fn decimal_value(s: Seq<char>) -> nat
    decreases s.len(),
{
    if s.len() == 0 {
        0
    } else {
        decimal_value(s.drop_last()) * 10 + digit_value(s.last())
    }
}

/// A number in decimal digits, without leading zeros.
pub open spec fn decimal_text(n: nat) -> Seq<char>
    decreases n,
{
    if n < 10 {
        seq![digit_char(n)]
    } else {
        decimal_text(n / 10).push(digit_char(n % 10))
    }
}

/// A decimal text spells the number it was written for, has only digits,
/// starts with `0` only for the number 0, and is as short as the number is
/// small.
pub proof fn lemma_decimal_text(n: nat)
    ensures
        is_decimal(decimal_text(n)),
        is_plain_decimal(decimal_text(n)),
        decimal_value(decimal_text(n)) == n,
        n > 0 ==> decimal_text(n)[0] != '0',
        n < 10 ==> decimal_text(n).len() == 1,
        n < 100 ==> decimal_text(n).len() <= 2,
        n < 1000 ==> decimal_text(n).len() <= 3,
    decreases n,
{
    let t = decimal_text(n);
    if n < 10 {
        assert(t.drop_last() =~= Seq::empty());
        assert(decimal_value(t.drop_last()) == 0);
    } else {
        lemma_decimal_text(n / 10);
        let h = decimal_text(n / 10);
        assert(t.drop_last() =~= h);
        assert(t.last() == digit_char(n % 10));
        assert(t[0] == h[0]);
        assert forall|i: int| 0 <= i < t.len() implies is_digit(#[trigger] t[i]) by {
            if i < h.len() {
                assert(t[i] == h[i]);
            }
        }
    }
}

/// A decimal text as a number is written: without a leading zero, but for
/// the number 0.
pub open spec fn is_plain_decimal(s: Seq<char>) -> bool {
    is_decimal(s) && (s.len() > 1 ==> s[0] != '0')
}

/// Digits that do not start with `0` spell a number above 0.
pub proof fn lemma_decimal_positive(s: Seq<char>)
    requires
        is_decimal(s),
        s[0] != '0',
    ensures
        decimal_value(s) > 0,
    decreases s.len(),
{
    if s.len() > 1 {
        let h = s.drop_last();
        assert(h[0] == s[0]);
        assert forall|i: int| 0 <= i < h.len() implies is_digit(#[trigger] h[i]) by {
            assert(h[i] == s[i]);
        }
        lemma_decimal_positive(h);
    } else {
        assert(s.drop_last() =~= Seq::empty());
        assert(s.last() == s[0]);
    }
}

/// A text without a leading zero is the text of the number that it spells.
pub proof fn lemma_plain_decimal(s: Seq<char>)
    requires
        is_plain_decimal(s),
    ensures
        decimal_text(decimal_value(s)) == s,
    decreases s.len(),
{
    let h = s.drop_last();
    let c = s.last();
    assert(is_digit(c));
    assert(digit_char(digit_value(c)) == c);
    if s.len() == 1 {
        assert(h =~= Seq::empty());
        assert(decimal_value(h) == 0);
        assert(seq![c] =~= s);
    } else {
        assert(h[0] == s[0]);
        assert forall|i: int| 0 <= i < h.len() implies is_digit(#[trigger] h[i]) by {
            assert(h[i] == s[i]);
        }
        lemma_decimal_positive(h);
        lemma_plain_decimal(h);
        let n = decimal_value(s);
        assert(n == decimal_value(h) * 10 + digit_value(c));
        assert(n / 10 == decimal_value(h));
        assert(n % 10 == digit_value(c));
        assert(h.push(c) =~= s);
    }
}

/// The number that a text of digits spells is at least the number that any
/// of its beginnings spells.
pub proof fn lemma_decimal_prefix(s: Seq<char>, k: int)
    requires
        0 <= k <= s.len(),
    ensures
        decimal_value(s.take(k)) <= decimal_value(s),
    decreases s.len() - k,
{
    if k == s.len() {
        assert(s.take(k) =~= s);
    } else {
        lemma_decimal_prefix(s, k + 1);
        assert(s.take(k + 1).drop_last() =~= s.take(k));
    }
}

/// Reads a text of decimal digits that spells a number up to `max`.
pub fn parse_decimal(v: &Vec<char>, max: u32) -> (r: Option<u32>)
    ensures
        r matches Some(n) ==> is_decimal(v@) && decimal_value(v@) == n && n <= max,
        r is None ==> !(is_decimal(v@) && decimal_value(v@) <= max),
{
    if v.len() == 0 {
        return None;
    }
    let mut n: u64 = 0;
    let mut i: usize = 0;
    while i < v.len()
        invariant
            i <= v.len(),
            forall|j: int| 0 <= j < i ==> is_digit(#[trigger] v@[j]),
            n == decimal_value(v@.take(i as int)),
            n <= max,
        decreases v.len() - i,
    {
        let c = v[i];
        if !(c >= '0' && c <= '9') {
            return None;
        }
        let d: u64 = (c as u32 - '0' as u32) as u64;
        assert(v@.take(i + 1).drop_last() =~= v@.take(i as int));
        assert(v@.take(i + 1).last() == c);
        n = n * 10 + d;
        if n > max as u64 {
            proof {
                lemma_decimal_prefix(v@, i + 1);
            }
            return None;
        }
        i = i + 1;
    }
    assert(v@.take(v.len() as int) =~= v@);
    Some(n as u32)
}

/// Appends a number in decimal digits.
pub fn push_decimal(out: &mut String, n: u32)
    ensures
        final(out)@ == old(out)@ + decimal_text(n as nat),
    decreases n,
{
    if n >= 10 {
        push_decimal(out, n / 10);
    }
    let d: u8 = (n % 10) as u8;
    let c: char = (('0' as u8) + d) as char;
    assert(c == digit_char((n % 10) as nat));
    out.push(c);
    assert(final(out)@ =~= old(out)@ + decimal_text(n as nat));
}

// --------------------------------------------------- hexadecimal numbers

/// A hexadecimal digit, in either case.
pub open spec fn is_hex_digit(c: char) -> bool {
    ('0' <= c && c <= '9') || ('a' <= c && c <= 'f') || ('A' <= c && c <= 'F')
}

/// The number that a hexadecimal digit stands for, in either case.
pub open spec fn hex_digit_value(c: char) -> nat {
    if '0' <= c && c <= '9' {
        (c as u32 - '0' as u32) as nat
    } else if 'a' <= c && c <= 'f' {
        (c as u32 - 'a' as u32 + 10) as nat
    } else {
        (c as u32 - 'A' as u32 + 10) as nat
    }
}

/// The hexadecimal digit of a number below sixteen, in lower case.
pub open spec fn hex_digit_char(d: nat) -> char {
    if d < 10 {
        (('0' as u32 + d) as u8) as char
    } else {
        (('a' as u32 + d - 10) as u8) as char
    }
}

/// A text that is one or more hexadecimal digits.
pub open spec fn is_hex(s: Seq<char>) -> bool {
    s.len() > 0 && forall|i: int| 0 <= i < s.len() ==> is_hex_digit(#[trigger] s[i])
}

/// The number that a text of hexadecimal digits spells.
pub open spec fn hex_value(s: Seq<char>) -> nat
    decreases s.len(),
{
    if s.len() == 0 {
        0
    } else {
        hex_value(s.drop_last()) * 16 + hex_digit_value(s.last())
    }
}

/// A number in hexadecimal digits, in lower case and without leading zeros.
pub open spec fn hex_text(n: nat) -> Seq<char>
    decreases n,
{
    if n < 16 {
        seq![hex_digit_char(n)]
    } else {
        hex_text(n / 16).push(hex_digit_char(n % 16))
    }
}

/// A hexadecimal text spells the number it was written for, is written
/// plainly, and has at most four digits for a number of 16 bits.
pub proof fn lemma_hex_text(n: nat)
    ensures
        is_hex(hex_text(n)),
        is_plain_hex(hex_text(n)),
        hex_value(hex_text(n)) == n,
        n > 0 ==> hex_text(n)[0] != '0',
        n < 0x10 ==> hex_text(n).len() == 1,
        n < 0x100 ==> hex_text(n).len() <= 2,
        n < 0x1000 ==> hex_text(n).len() <= 3,
        n < 0x10000 ==> hex_text(n).len() <= 4,
    decreases n,
{
    let t = hex_text(n);
    if n < 16 {
        assert(t.drop_last() =~= Seq::empty());
        assert(hex_value(t.drop_last()) == 0);
    } else {
        lemma_hex_text(n / 16);
        let h = hex_text(n / 16);
        assert(t.drop_last() =~= h);
        assert(t.last() == hex_digit_char(n % 16));
        assert(t[0] == h[0]);
        assert forall|i: int| 0 <= i < t.len() implies is_hex_digit(#[trigger] t[i]) by {
            if i < h.len() {
                assert(t[i] == h[i]);
            }
        }
        assert forall|i: int| 0 <= i < t.len() implies is_lower_hex_digit(#[trigger] t[i]) by {
            if i < h.len() {
                assert(t[i] == h[i]);
            }
        }
    }
}

/// A hexadecimal digit in lower case.
pub open spec fn is_lower_hex_digit(c: char) -> bool {
    ('0' <= c && c <= '9') || ('a' <= c && c <= 'f')
}

/// A hexadecimal text as a number is written: in lower case and without a
/// leading zero, but for the number 0.
pub open spec fn is_plain_hex(s: Seq<char>) -> bool {
    &&& s.len() > 0
    &&& forall|i: int| 0 <= i < s.len() ==> is_lower_hex_digit(#[trigger] s[i])
    &&& (s.len() > 1 ==> s[0] != '0')
}

/// Hexadecimal digits that do not start with `0` spell a number above 0.
pub proof fn lemma_hex_positive(s: Seq<char>)
    requires
        is_hex(s),
        s[0] != '0',
    ensures
        hex_value(s) > 0,
    decreases s.len(),
{
    if s.len() > 1 {
        let h = s.drop_last();
        assert(h[0] == s[0]);
        assert forall|i: int| 0 <= i < h.len() implies is_hex_digit(#[trigger] h[i]) by {
            assert(h[i] == s[i]);
        }
        lemma_hex_positive(h);
    } else {
        assert(s.drop_last() =~= Seq::empty());
        assert(s.last() == s[0]);
    }
}

/// A text in lower case without a leading zero is the text of the number
/// that it spells.
pub proof fn lemma_plain_hex(s: Seq<char>)
    requires
        is_plain_hex(s),
    ensures
        hex_text(hex_value(s)) == s,
    decreases s.len(),
{
    let h = s.drop_last();
    let c = s.last();
    assert(is_lower_hex_digit(c));
    assert(hex_digit_char(hex_digit_value(c)) == c);
    if s.len() == 1 {
        assert(h =~= Seq::empty());
        assert(hex_value(h) == 0);
        assert(seq![c] =~= s);
    } else {
        assert(h[0] == s[0]);
        assert forall|i: int| 0 <= i < h.len() implies is_lower_hex_digit(#[trigger] h[i]) by {
            assert(h[i] == s[i]);
        }
        assert(is_hex(h)) by {
            assert forall|i: int| 0 <= i < h.len() implies is_hex_digit(#[trigger] h[i]) by {
                assert(is_lower_hex_digit(h[i]));
            }
        }
        lemma_hex_positive(h);
        lemma_plain_hex(h);
        let n = hex_value(s);
        assert(n == hex_value(h) * 16 + hex_digit_value(c));
        assert(n / 16 == hex_value(h));
        assert(n % 16 == hex_digit_value(c));
        assert(h.push(c) =~= s);
    }
}

/// Up to four hexadecimal digits spell a number of 16 bits.
pub proof fn lemma_hex_value_bound(s: Seq<char>)
    requires
        forall|i: int| 0 <= i < s.len() ==> is_hex_digit(#[trigger] s[i]),
    ensures
        s.len() <= 1 ==> hex_value(s) < 0x10,
        s.len() <= 2 ==> hex_value(s) < 0x100,
        s.len() <= 3 ==> hex_value(s) < 0x1000,
        s.len() <= 4 ==> hex_value(s) < 0x10000,
    decreases s.len(),
{
    if s.len() > 0 {
        lemma_hex_value_bound(s.drop_last());
    }
}

/// One group of an IPv6 address: one to four hexadecimal digits.
pub open spec fn is_hex_group(s: Seq<char>) -> bool {
    is_hex(s) && s.len() <= 4
}

/// Reads one group of an IPv6 address.
pub fn parse_hex_group(v: &Vec<char>) -> (r: Option<u16>)
    ensures
        r matches Some(n) ==> is_hex_group(v@) && hex_value(v@) == n,
        r is None ==> !is_hex_group(v@),
{
    if v.len() == 0 || v.len() > 4 {
        return None;
    }
    let mut n: u32 = 0;
    let mut i: usize = 0;
    while i < v.len()
        invariant
            i <= v.len() <= 4,
            forall|j: int| 0 <= j < i ==> is_hex_digit(#[trigger] v@[j]),
            n == hex_value(v@.take(i as int)),
            n < 0x10000,
        decreases v.len() - i,
    {
        let c = v[i];
        let d: u32 = if c >= '0' && c <= '9' {
            c as u32 - '0' as u32
        } else if c >= 'a' && c <= 'f' {
            c as u32 - 'a' as u32 + 10
        } else if c >= 'A' && c <= 'F' {
            c as u32 - 'A' as u32 + 10
        } else {
            return None;
        };
        assert(v@.take(i + 1).drop_last() =~= v@.take(i as int));
        assert(v@.take(i + 1).last() == c);
        proof {
            lemma_hex_value_bound(v@.take(i + 1));
        }
        n = n * 16 + d;
        i = i + 1;
    }
    assert(v@.take(v.len() as int) =~= v@);
    Some(n as u16)
}

/// Appends a number in hexadecimal digits.
pub fn push_hex(out: &mut String, n: u16)
    ensures
        final(out)@ == old(out)@ + hex_text(n as nat),
    decreases n,
{
    if n >= 16 {
        push_hex(out, n / 16);
    }
    let d: u8 = (n % 16) as u8;
    let c: char = if d < 10 {
        (('0' as u8) + d) as char
    } else {
        (('a' as u8) + (d - 10)) as char
    };
    assert(c == hex_digit_char((n % 16) as nat));
    out.push(c);
    assert(final(out)@ =~= old(out)@ + hex_text(n as nat));
}

// -------------------------------------------------- finding and splitting

/// A character without an occurrence in a text has no first or last index
/// in it.
pub proof fn lemma_index_of_absent(s: Seq<char>, c: char)
    requires
        forall|j: int| 0 <= j < s.len() ==> s[j] != c,
    ensures
        s.index_of_first(c) is None,
        s.index_of_last(c) is None,
{
    s.index_of_first_ensures(c);
    s.index_of_last_ensures(c);
}

/// The first index of a character is the index before which it does not
/// occur.
pub proof fn lemma_index_of_first_is(s: Seq<char>, c: char, i: int)
    requires
        0 <= i < s.len(),
        s[i] == c,
        forall|j: int| 0 <= j < i ==> s[j] != c,
    ensures
        s.index_of_first(c) == Some(i),
{
    s.index_of_first_ensures(c);
}

/// The last index of a character is the index after which it does not occur.
pub proof fn lemma_index_of_last_is(s: Seq<char>, c: char, i: int)
    requires
        0 <= i < s.len(),
        s[i] == c,
        forall|j: int| i < j < s.len() ==> s[j] != c,
    ensures
        s.index_of_last(c) == Some(i),
{
    s.index_of_last_ensures(c);
}

/// The first index at which a character stands.
pub fn find_first(v: &Vec<char>, c: char) -> (r: Option<usize>)
    ensures
        r matches Some(i) ==> v@.index_of_first(c) == Some(i as int) && i < v.len(),
        r is None ==> v@.index_of_first(c) is None,
{
    let mut i: usize = 0;
    while i < v.len()
        invariant
            i <= v.len(),
            forall|j: int| 0 <= j < i ==> v@[j] != c,
        decreases v.len() - i,
    {
        if v[i] == c {
            proof {
                lemma_index_of_first_is(v@, c, i as int);
            }
            return Some(i);
        }
        i = i + 1;
    }
    proof {
        lemma_index_of_absent(v@, c);
    }
    None
}

/// The last index at which a character stands.
pub fn find_last(v: &Vec<char>, c: char) -> (r: Option<usize>)
    ensures
        r matches Some(i) ==> v@.index_of_last(c) == Some(i as int) && i < v.len(),
        r is None ==> v@.index_of_last(c) is None,
{
    let mut i: usize = v.len();
    while i > 0
        invariant
            i <= v.len(),
            forall|j: int| i <= j < v.len() ==> v@[j] != c,
        decreases i,
    {
        i = i - 1;
        if v[i] == c {
            proof {
                lemma_index_of_last_is(v@, c, i as int);
            }
            return Some(i);
        }
    }
    proof {
        lemma_index_of_absent(v@, c);
    }
    None
}

/// The pieces of a text between the occurrences of a separator, in order. A
/// text without the separator is one piece; two separators in a row, and a
/// separator at either end, give an empty piece.
pub open spec fn split(s: Seq<char>, sep: char) -> Seq<Seq<char>>
    decreases s.len(),
{
    let i = s.index_of_first(sep);
    if i is Some && 0 <= i->0 < s.len() {
        seq![s.take(i->0)] + split(s.skip(i->0 + 1), sep)
    } else {
        seq![s]
    }
}

/// Pieces written one after the other, with the separator between them.
pub open spec fn join(pieces: Seq<Seq<char>>, sep: char) -> Seq<char>
    decreases pieces.len(),
{
    if pieces.len() == 0 {
        Seq::empty()
    } else if pieces.len() == 1 {
        pieces[0]
    } else {
        pieces[0] + seq![sep] + join(pieces.drop_first(), sep)
    }
}

/// The pieces of a text, joined again, are the text.
pub proof fn lemma_split_join(s: Seq<char>, sep: char)
    ensures
        join(split(s, sep), sep) == s,
    decreases s.len(),
{
    s.index_of_first_ensures(sep);
    let i = s.index_of_first(sep);
    if i is Some && 0 <= i->0 < s.len() {
        let rest = s.skip(i->0 + 1);
        lemma_split_join(rest, sep);
        lemma_split_pieces(rest, sep);
        let pieces = split(s, sep);
        assert(pieces.drop_first() =~= split(rest, sep));
        assert(s =~= s.take(i->0) + seq![sep] + rest);
    }
}

/// A text without the separator is one piece.
pub proof fn lemma_split_one(s: Seq<char>, sep: char)
    requires
        forall|j: int| 0 <= j < s.len() ==> s[j] != sep,
    ensures
        split(s, sep) == seq![s],
{
    lemma_index_of_absent(s, sep);
}

/// A text that begins with a piece and a separator splits into that piece
/// and the pieces of the rest.
pub proof fn lemma_split_first(piece: Seq<char>, rest: Seq<char>, sep: char)
    requires
        forall|j: int| 0 <= j < piece.len() ==> piece[j] != sep,
    ensures
        split(piece + seq![sep] + rest, sep) == seq![piece] + split(rest, sep),
{
    let s = piece + seq![sep] + rest;
    lemma_index_of_first_is(s, sep, piece.len() as int);
    assert(s.take(piece.len() as int) =~= piece);
    assert(s.skip(piece.len() as int + 1) =~= rest);
}

/// Every text splits into at least one piece, and no piece holds the
/// separator.
pub proof fn lemma_split_pieces(s: Seq<char>, sep: char)
    ensures
        split(s, sep).len() >= 1,
        forall|k: int, j: int|
            0 <= k < split(s, sep).len() && 0 <= j < split(s, sep)[k].len() ==> split(
                s,
                sep,
            )[k][j] != sep,
    decreases s.len(),
{
    s.index_of_first_ensures(sep);
    let i = s.index_of_first(sep);
    if i is Some && 0 <= i->0 < s.len() {
        lemma_split_pieces(s.skip(i->0 + 1), sep);
        let rest = split(s.skip(i->0 + 1), sep);
        assert forall|k: int, j: int|
            0 <= k < split(s, sep).len() && 0 <= j < split(s, sep)[k].len() implies split(
            s,
            sep,
        )[k][j] != sep by {
            if k == 0 {
                assert(split(s, sep)[0] == s.take(i->0));
            } else {
                assert(split(s, sep)[k] == rest[k - 1]);
            }
        }
    } else {
        assert forall|j: int| 0 <= j < s.len() implies s[j] != sep by {
            if s[j] == sep {
                assert(s.contains(sep));
            }
        }
    }
}

/// Splits a text at every occurrence of a separator.
pub fn split_chars(v: &Vec<char>, sep: char) -> (parts: Vec<Vec<char>>)
    ensures
        parts@.len() == split(v@, sep).len(),
        forall|k: int| 0 <= k < parts@.len() ==> (#[trigger] parts@[k])@ == split(v@, sep)[k],
{
    let mut parts: Vec<Vec<char>> = Vec::new();
    let mut start: usize = 0;
    let mut i: usize = 0;
    let ghost mut done: Seq<Seq<char>> = Seq::empty();
    assert(v@.skip(0) =~= v@);
    while i < v.len()
        invariant
            start <= i <= v.len(),
            forall|j: int| start <= j < i ==> v@[j] != sep,
            done.len() == parts@.len(),
            forall|k: int| 0 <= k < parts@.len() ==> (#[trigger] parts@[k])@ == done[k],
            split(v@, sep) == done + split(v@.skip(start as int), sep),
        decreases v.len() - i,
    {
        if v[i] == sep {
            let piece = slice_of(v, start, i);
            proof {
                let rest = v@.skip(start as int);
                lemma_index_of_first_is(rest, sep, i - start);
                assert(rest.take(i - start) =~= piece@);
                assert(rest.skip(i - start + 1) =~= v@.skip(i + 1));
                assert(done + (seq![piece@] + split(v@.skip(i + 1), sep)) =~= done.push(piece@)
                    + split(v@.skip(i + 1), sep));
                done = done.push(piece@);
            }
            parts.push(piece);
            start = i + 1;
        }
        i = i + 1;
    }
    let piece = slice_of(v, start, v.len());
    proof {
        let rest = v@.skip(start as int);
        assert(rest =~= piece@);
        lemma_split_one(rest, sep);
        assert(done + seq![piece@] =~= done.push(piece@));
        done = done.push(piece@);
    }
    parts.push(piece);
    parts
}

} // verus!
