//! Decimal numbers as text, and substring search.
//!
//! The discovery messages this system exchanges are tagged ASCII text, so
//! the components that build and parse them need exactly three tools: a
//! number printed in decimal, a decimal string read back as a number, and
//! the first occurrence of one string inside another.

use vstd::prelude::*;

verus! {

/// The decimal digit character for `d` (`0 <= d <= 9`).
pub open spec fn digit_char(d: int) -> char {
    if d == 0 {
        '0'
    } else if d == 1 {
        '1'
    } else if d == 2 {
        '2'
    } else if d == 3 {
        '3'
    } else if d == 4 {
        '4'
    } else if d == 5 {
        '5'
    } else if d == 6 {
        '6'
    } else if d == 7 {
        '7'
    } else if d == 8 {
        '8'
    } else {
        '9'
    }
}

/// Decimal text of `n`, most significant digit first, no sign and no
/// leading zeros (`0` itself is the single digit `0`).
pub open spec fn dec_str(n: nat) -> Seq<char>
    decreases n,
{
    if n < 10 {
        seq![digit_char(n as int)]
    } else {
        dec_str(n / 10) + seq![digit_char((n % 10) as int)]
    }
}

/// `c` is a decimal digit.
pub open spec fn is_digit(c: char) -> bool {
    '0' <= c && c <= '9'
}

/// Numeric value of the digit `c`.
pub open spec fn digit_val(c: char) -> int {
    c as int - '0' as int
}

/// Every character of `s` is a decimal digit.
pub open spec fn all_digits(s: Seq<char>) -> bool {
    forall|i: int| 0 <= i < s.len() ==> is_digit(#[trigger] s[i])
}

/// The number that the digit string `s` denotes.
pub open spec fn dec_value(s: Seq<char>) -> int
    decreases s.len(),
{
    if s.len() == 0 {
        0
    } else {
        dec_value(s.drop_last()) * 10 + digit_val(s.last())
    }
}

/// The digit `d` as a borrowed one-character string.
fn digit_str(d: u64) -> (s: &'static str)
    requires
        d < 10,
    ensures
        s@ == seq![digit_char(d as int)],
{
    proof {
        reveal_strlit("0");
        reveal_strlit("1");
        reveal_strlit("2");
        reveal_strlit("3");
        reveal_strlit("4");
        reveal_strlit("5");
        reveal_strlit("6");
        reveal_strlit("7");
        reveal_strlit("8");
        reveal_strlit("9");
    }
    let s = match d {
        0 => "0",
        1 => "1",
        2 => "2",
        3 => "3",
        4 => "4",
        5 => "5",
        6 => "6",
        7 => "7",
        8 => "8",
        _ => "9",
    };
    proof {
        assert(s@ =~= seq![digit_char(d as int)]);
    }
    s
}

/// `n` printed in decimal.
pub fn u64_to_string(n: u64) -> (s: String)
    ensures
        s@ == dec_str(n as nat),
    decreases n,
{
    if n < 10 {
        String::from_str(digit_str(n))
    } else {
        let mut s = u64_to_string(n / 10);
        s.append(digit_str(n % 10));
        proof {
            assert(s@ =~= dec_str(n as nat));
        }
        s
    }
}

/// What a run of [`parse_u64`] returns: the value of `s` read as an
/// unsigned decimal number, or nothing where `s` is empty, holds a
/// non-digit, or denotes a value above `u64::MAX`.
pub open spec fn spec_parse_u64(s: Seq<char>) -> Option<u64> {
    if s.len() > 0 && all_digits(s) && dec_value(s) <= u64::MAX {
        Some(dec_value(s) as u64)
    } else {
        None
    }
}

/// What a run of [`parse_u16`] returns; as [`spec_parse_u64`], bounded by
/// `u16::MAX`.
pub open spec fn spec_parse_u16(s: Seq<char>) -> Option<u16> {
    if s.len() > 0 && all_digits(s) && dec_value(s) <= u16::MAX {
        Some(dec_value(s) as u16)
    } else {
        None
    }
}

/// A digit string's value never shrinks as more digits are appended.
proof fn lemma_dec_value_prefix_le(s: Seq<char>, i: int)
    requires
        0 <= i <= s.len(),
        all_digits(s),
    ensures
        dec_value(s.take(i)) <= dec_value(s),
        dec_value(s) >= 0,
    decreases s.len() - i,
{
    if i == s.len() {
        assert(s.take(i) =~= s);
        lemma_dec_value_nonneg(s);
    } else {
        lemma_dec_value_prefix_le(s, i + 1);
        let t = s.take(i + 1);
        assert(t.drop_last() =~= s.take(i));
        assert(t.last() == s[i]);
        lemma_dec_value_nonneg(s.take(i));
    }
}

/// A digit string's value is non-negative.
proof fn lemma_dec_value_nonneg(s: Seq<char>)
    requires
        all_digits(s),
    ensures
        dec_value(s) >= 0,
    decreases s.len(),
{
    if s.len() > 0 {
        assert(all_digits(s.drop_last()));
        lemma_dec_value_nonneg(s.drop_last());
    }
}

/// Read `s` as an unsigned decimal number.
pub fn parse_u64(s: &str) -> (r: Option<u64>)
    ensures
        r == spec_parse_u64(s@),
{
    let len = s.unicode_len();
    if len == 0 {
        return None;
    }
    let mut acc: u64 = 0;
    let mut i: usize = 0;
    while i < len
        invariant
            0 < len == s@.len(),
            0 <= i <= len,
            all_digits(s@.take(i as int)),
            acc == dec_value(s@.take(i as int)),
        decreases len - i,
    {
        let c = s.get_char(i);
        if !('0' <= c && c <= '9') {
            assert(!all_digits(s@));
            return None;
        }
        let d: u64 = (c as u32 - '0' as u32) as u64;
        proof {
            assert(s@.take(i + 1).drop_last() =~= s@.take(i as int));
            assert(s@.take(i + 1).last() == s@[i as int]);
            assert(all_digits(s@.take(i + 1)));
        }
        if acc > u64::MAX / 10 || (acc == u64::MAX / 10 && d > u64::MAX % 10) {
            proof {
                assert(dec_value(s@.take(i + 1)) > u64::MAX);
                if all_digits(s@) {
                    lemma_dec_value_prefix_le(s@, i + 1);
                }
            }
            return None;
        }
        acc = acc * 10 + d;
        i = i + 1;
    }
    proof {
        assert(s@.take(len as int) =~= s@);
    }
    Some(acc)
}

/// Read `s` as an unsigned decimal number that fits in `u16`.
pub fn parse_u16(s: &str) -> (r: Option<u16>)
    ensures
        r == spec_parse_u16(s@),
{
    let r = parse_u64(s);
    match r {
        Some(v) => {
            proof {
                lemma_dec_value_nonneg(s@);
            }
            if v <= 65535 {
                Some(v as u16)
            } else {
                None
            }
        },
        None => None,
    }
}

/// `needle` stands in `hay` at position `i`.
pub open spec fn matches_at(hay: Seq<char>, needle: Seq<char>, i: int) -> bool {
    0 <= i && i + needle.len() <= hay.len() && hay.subrange(i, i + needle.len()) == needle
}

/// Position of the first occurrence of `needle` in `hay` at or after
/// `from`, if any.
pub open spec fn find_first(hay: Seq<char>, needle: Seq<char>, from: int) -> Option<int>
    decreases hay.len() - from,
{
    if from < 0 || from + needle.len() > hay.len() {
        None
    } else if needle.len() == 0 || hay.subrange(from, from + needle.len()) == needle {
        Some(from)
    } else {
        find_first(hay, needle, from + 1)
    }
}

/// Where `find_first` answers, it names the first match at or after `from`.
pub proof fn lemma_find_first_is_first(hay: Seq<char>, needle: Seq<char>, from: int)
    requires
        0 <= from,
    ensures
        match find_first(hay, needle, from) {
            Some(i) => matches_at(hay, needle, i) && from <= i && forall|j: int|
                from <= j < i ==> !matches_at(hay, needle, j),
            None => forall|j: int| j >= from ==> !matches_at(hay, needle, j),
        },
    decreases hay.len() - from,
{
    if from + needle.len() > hay.len() {
    } else if needle.len() == 0 || hay.subrange(from, from + needle.len()) == needle {
        assert(hay.subrange(from, from + needle.len()) =~= needle);
    } else {
        lemma_find_first_is_first(hay, needle, from + 1);
    }
}

/// A match preceded by no earlier one is the one `find_first` names.
pub proof fn lemma_find_first_found(hay: Seq<char>, needle: Seq<char>, from: int, i: int)
    requires
        0 <= from <= i,
        matches_at(hay, needle, i),
        forall|j: int| from <= j < i ==> !matches_at(hay, needle, j),
    ensures
        find_first(hay, needle, from) == Some(i),
    decreases i - from,
{
    if from == i {
        assert(hay.subrange(i, i + needle.len()) =~= needle);
    } else {
        assert(!matches_at(hay, needle, from));
        if needle.len() == 0 {
            assert(hay.subrange(from, from + needle.len()) =~= needle);
            assert(matches_at(hay, needle, from));
        }
        lemma_find_first_found(hay, needle, from + 1, i);
    }
}

/// A digit round-trips through its character.
proof fn lemma_digit_roundtrip(d: int)
    requires
        0 <= d <= 9,
    ensures
        is_digit(digit_char(d)),
        digit_val(digit_char(d)) == d,
{
}

/// Printing a number in decimal and reading it back is the identity: the
/// text is one or more digits and denotes exactly the printed number.
pub proof fn lemma_dec_str_value(n: nat)
    ensures
        dec_str(n).len() >= 1,
        all_digits(dec_str(n)),
        dec_value(dec_str(n)) == n,
    decreases n,
{
    lemma_digit_roundtrip((n % 10) as int);
    if n < 10 {
        lemma_digit_roundtrip(n as int);
        assert(dec_str(n) =~= seq![digit_char(n as int)]);
        assert(dec_str(n).drop_last() =~= Seq::<char>::empty());
        assert(dec_value(dec_str(n)) == dec_value(Seq::<char>::empty()) * 10 + digit_val(
            digit_char(n as int),
        ));
    } else {
        lemma_dec_str_value(n / 10);
        let s = dec_str(n);
        assert(s.drop_last() =~= dec_str(n / 10));
        assert(s.last() == digit_char((n % 10) as int));
        assert forall|i: int| 0 <= i < s.len() implies is_digit(#[trigger] s[i]) by {
            if i < s.len() - 1 {
                assert(s[i] == dec_str(n / 10)[i]);
            }
        }
    }
}

/// Whether `s` begins with `prefix`.
pub fn has_prefix(s: &str, prefix: &str) -> (r: bool)
    ensures
        r == matches_at(s@, prefix@, 0),
{
    let slen = s.unicode_len();
    let plen = prefix.unicode_len();
    if plen > slen {
        return false;
    }
    check_match_at(s, prefix, 0)
}

/// Check whether `needle` stands in `hay` at position `i`.
fn check_match_at(hay: &str, needle: &str, i: usize) -> (r: bool)
    requires
        i + needle@.len() <= hay@.len(),
    ensures
        r == matches_at(hay@, needle@, i as int),
{
    let hlen = hay.unicode_len();
    let nlen = needle.unicode_len();
    let mut k: usize = 0;
    while k < nlen
        invariant
            0 <= k <= nlen == needle@.len(),
            hlen == hay@.len(),
            i + nlen <= hlen,
            forall|t: int| 0 <= t < k ==> hay@[i + t] == needle@[t],
        decreases nlen - k,
    {
        if hay.get_char(i + k) != needle.get_char(k) {
            proof {
                assert(hay@.subrange(i as int, i + needle@.len())[k as int] != needle@[k as int]);
            }
            return false;
        }
        k = k + 1;
    }
    proof {
        assert(hay@.subrange(i as int, i + needle@.len()) =~= needle@);
    }
    true
}

/// Position of the first occurrence of `needle` in `hay`, if any.
pub fn find_sub(hay: &str, needle: &str) -> (r: Option<usize>)
    ensures
        match r {
            Some(i) => find_first(hay@, needle@, 0) == Some(i as int),
            None => find_first(hay@, needle@, 0) is None,
        },
{
    let hlen = hay.unicode_len();
    let nlen = needle.unicode_len();
    if nlen > hlen {
        return None;
    }
    if nlen == 0 {
        return Some(0);
    }
    let mut i: usize = 0;
    while i <= hlen - nlen
        invariant
            1 <= nlen <= hlen,
            hlen == hay@.len(),
            nlen == needle@.len(),
            0 <= i <= hlen - nlen + 1,
            find_first(hay@, needle@, 0) == find_first(hay@, needle@, i as int),
        decreases hlen - nlen - i + 1,
    {
        if check_match_at(hay, needle, i) {
            proof {
                assert(find_first(hay@, needle@, i as int) == Some(i as int));
            }
            return Some(i);
        }
        proof {
            assert(find_first(hay@, needle@, i as int) == find_first(hay@, needle@, i + 1));
        }
        i = i + 1;
    }
    proof {
        assert(find_first(hay@, needle@, i as int) is None);
    }
    None
}

} // verus!
