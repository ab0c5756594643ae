//! Byte-level text helpers shared by the string parsers: ASCII
//! whitespace trimming, searching, lower-casing and decimal digits,
//! each exec function proved against its specification.

use vstd::prelude::*;

verus! {

// The ASCII bytes the parsers refer to by name.
pub const BYTE_LPAREN: u8 = 40;

pub const BYTE_RPAREN: u8 = 41;

pub const BYTE_PLUS: u8 = 43;

pub const BYTE_COMMA: u8 = 44;

pub const BYTE_ZERO: u8 = 48;

pub const BYTE_NINE: u8 = 57;

/// ASCII whitespace, the characters trimmed from the ends of the input.
pub open spec fn spec_is_space(b: u8) -> bool {
    b == 32 || (9 <= b <= 13)
}

/// `s` with its leading whitespace removed.
pub open spec fn spec_trim_front(s: Seq<u8>) -> Seq<u8>
    decreases s.len(),
{
    if s.len() > 0 && spec_is_space(s[0]) {
        spec_trim_front(s.drop_first())
    } else {
        s
    }
}

/// `s` with its trailing whitespace removed.
pub open spec fn spec_trim_back(s: Seq<u8>) -> Seq<u8>
    decreases s.len(),
{
    if s.len() > 0 && spec_is_space(s.last()) {
        spec_trim_back(s.drop_last())
    } else {
        s
    }
}

/// `s` with whitespace removed from both ends.
pub open spec fn spec_trim(s: Seq<u8>) -> Seq<u8> {
    spec_trim_back(spec_trim_front(s))
}

/// The index of the first occurrence of `c` in `s`, or `-1` when absent.
pub open spec fn spec_find(s: Seq<u8>, c: u8) -> int
    decreases s.len(),
{
    if s.len() == 0 {
        -1
    } else if s[0] == c {
        0
    } else {
        let r = spec_find(s.drop_first(), c);
        if r < 0 {
            -1
        } else {
            r + 1
        }
    }
}

/// One byte lowered to ASCII lower case.
pub open spec fn spec_to_lower(b: u8) -> u8 {
    if 65 <= b <= 90 {
        (b + 32) as u8
    } else {
        b
    }
}

/// The sequence lowered to ASCII lower case.
pub open spec fn spec_lower_seq(s: Seq<u8>) -> Seq<u8> {
    Seq::new(s.len(), |i: int| spec_to_lower(s[i]))
}

/// The numeric value of a sequence of decimal digit bytes, most significant
/// first.
pub open spec fn spec_digits_value(d: Seq<u8>) -> int
    decreases d.len(),
{
    if d.len() == 0 {
        0
    } else {
        spec_digits_value(d.drop_last()) * 10 + (d.last() - BYTE_ZERO)
    }
}

/// Whether every byte of `d` is a decimal digit.
pub open spec fn spec_all_digits(d: Seq<u8>) -> bool {
    forall|k: int| 0 <= k < d.len() ==> BYTE_ZERO <= #[trigger] d[k] <= BYTE_NINE
}


/// Removes ASCII whitespace from both ends of a byte slice.
pub fn trim_bytes<'a>(b: &'a [u8]) -> (r: &'a [u8])
    ensures
        r@ == spec_trim(b@),
{
    let len = b.len();
    proof {
        assert(b@.skip(0) =~= b@);
    }
    let mut start: usize = 0;
    while start < len && is_space_byte(b[start])
        invariant
            0 <= start <= len,
            len == b@.len(),
            spec_trim_front(b@) == spec_trim_front(b@.skip(start as int)),
        decreases len - start,
    {
        proof {
            assert(b@.skip(start as int).drop_first() =~= b@.skip(start as int + 1));
        }
        start += 1;
    }
    proof {
        assert(spec_trim_front(b@) =~= b@.skip(start as int));
    }

    let mut end: usize = len;
    while end > start && is_space_byte(b[end - 1])
        invariant
            start <= end <= len,
            len == b@.len(),
            spec_trim_front(b@) == b@.skip(start as int),
            spec_trim_back(b@.skip(start as int)) == spec_trim_back(
                b@.subrange(start as int, end as int),
            ),
        decreases end,
    {
        proof {
            assert(b@.subrange(start as int, end as int).drop_last() =~= b@.subrange(
                start as int,
                end as int - 1,
            ));
        }
        end -= 1;
    }
    proof {
        assert(b@.skip(start as int) =~= b@.subrange(start as int, len as int));
        assert(spec_trim_back(b@.subrange(start as int, end as int)) =~= b@.subrange(
            start as int,
            end as int,
        ));
    }
    &b[start..end]
}

/// Whether `b` is ASCII whitespace.
pub fn is_space_byte(b: u8) -> (r: bool)
    ensures
        r == spec_is_space(b),
{
    b == 32 || (9 <= b && b <= 13)
}

/// Finds the first occurrence of `c` in `b`.
pub fn find_byte(b: &[u8], c: u8) -> (r: Option<usize>)
    ensures
        match r {
            Some(i) => spec_find(b@, c) == i && i < b@.len() && b@[i as int] == c,
            None => spec_find(b@, c) == -1,
        },
{
    let len = b.len();
    let mut i: usize = 0;
    while i < len
        invariant
            0 <= i <= len,
            len == b@.len(),
            forall|k: int| 0 <= k < i ==> b@[k] != c,
        decreases len - i,
    {
        if b[i] == c {
            proof {
                lemma_find_prefix_misses(b@, c, i as int);
            }
            return Some(i);
        }
        i += 1;
    }
    proof {
        lemma_find_prefix_misses(b@, c, len as int);
    }
    None
}

/// When the first `i` bytes of `s` miss `c`, the first occurrence of `c` in
/// `s` is the first occurrence in the remainder, shifted by `i`.
proof fn lemma_find_prefix_misses(s: Seq<u8>, c: u8, i: int)
    requires
        0 <= i <= s.len(),
        forall|k: int| 0 <= k < i ==> s[k] != c,
    ensures
        spec_find(s, c) == (if i == s.len() {
            -1
        } else if s[i] == c {
            i
        } else {
            let r = spec_find(s.skip(i), c);
            if r < 0 {
                -1
            } else {
                r + i
            }
        }),
    decreases i,
{
    if i > 0 {
        assert(s.drop_first() =~= s.skip(1));
        lemma_find_prefix_misses(s.drop_first(), c, i - 1);
        assert(s.drop_first().skip(i - 1) =~= s.skip(i));
    } else {
        if s.len() > 0 && s[0] != c {
            assert(s.skip(0) =~= s);
        } else {
            assert(s.skip(0) =~= s);
        }
    }
}


/// Lowers one byte to ASCII lower case.
pub fn to_lower_byte(b: u8) -> (r: u8)
    ensures
        r == spec_to_lower(b),
{
    if 65 <= b && b <= 90 {
        b + 32
    } else {
        b
    }
}


/// For a sequence of digits, the value of the whole is at least the value
/// of any prefix.
pub proof fn lemma_digits_value_grows(d: Seq<u8>, i: int)
    requires
        spec_all_digits(d),
        0 <= i <= d.len(),
    ensures
        spec_digits_value(d) >= spec_digits_value(d.take(i)),
        spec_digits_value(d.take(i)) >= 0,
    decreases d.len() - i,
{
    lemma_digits_value_nonneg(d.take(i));
    if i < d.len() {
        assert(d.take(i + 1).drop_last() =~= d.take(i));
        assert(spec_digits_value(d.take(i + 1)) == spec_digits_value(d.take(i)) * 10 + (d[i]
            - BYTE_ZERO));
        assert(spec_digits_value(d.take(i)) * 10 >= spec_digits_value(d.take(i))) by (nonlinear_arith)
            requires
                spec_digits_value(d.take(i)) >= 0,
        ;
        lemma_digits_value_grows(d, i + 1);
        assert(d.take(d.len() as int) =~= d);
    } else {
        assert(d.take(i) =~= d);
    }
}

/// The value of a sequence of digits is non-negative.
pub proof fn lemma_digits_value_nonneg(d: Seq<u8>)
    requires
        spec_all_digits(d),
    ensures
        spec_digits_value(d) >= 0,
    decreases d.len(),
{
    if d.len() > 0 {
        assert(spec_all_digits(d.drop_last()));
        lemma_digits_value_nonneg(d.drop_last());
        assert(spec_digits_value(d.drop_last()) * 10 >= 0) by (nonlinear_arith)
            requires
                spec_digits_value(d.drop_last()) >= 0,
        ;
    }
}



/// Removes ASCII whitespace from the end of a byte slice only.
pub fn trim_end_bytes<'a>(b: &'a [u8]) -> (r: &'a [u8])
    ensures
        r@ == spec_trim_back(b@),
{
    let len = b.len();
    proof {
        assert(b@.take(len as int) =~= b@);
    }
    let mut end: usize = len;
    while end > 0 && is_space_byte(b[end - 1])
        invariant
            0 <= end <= len,
            len == b@.len(),
            spec_trim_back(b@) == spec_trim_back(b@.take(end as int)),
        decreases end,
    {
        proof {
            assert(b@.take(end as int).drop_last() =~= b@.take(end as int - 1));
        }
        end -= 1;
    }
    proof {
        assert(spec_trim_back(b@.take(end as int)) =~= b@.take(end as int));
    }
    &b[0..end]
}

/// The byte slice lowered to ASCII lower case, as a fresh vector.
pub fn lower_bytes(b: &[u8]) -> (r: Vec<u8>)
    ensures
        r@ == spec_lower_seq(b@),
{
    let mut out: Vec<u8> = Vec::new();
    let n = b.len();
    let mut i: usize = 0;
    while i < n
        invariant
            0 <= i <= n,
            n == b@.len(),
            out@.len() == i,
            forall|k: int| 0 <= k < i ==> out@[k] == spec_to_lower(b@[k]),
        decreases n - i,
    {
        out.push(to_lower_byte(b[i]));
        i += 1;
    }
    proof {
        assert(out@ =~= spec_lower_seq(b@));
    }
    out
}

} // verus!
