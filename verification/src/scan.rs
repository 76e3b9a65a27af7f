//! Byte-sequence scanning primitives: searching, comparing, and decimal
//! digits, each with an exact specification.

use vstd::prelude::*;
use vstd::slice::slice_subrange;

verus! {

/// Index of the first occurrence of byte `b` in `s` at or after `i`.
pub open spec fn spec_find_byte(s: Seq<u8>, b: u8, i: int) -> Option<int>
    decreases s.len() - i,
{
    if i < 0 || i >= s.len() {
        None
    } else if s[i] == b {
        Some(i)
    } else {
        spec_find_byte(s, b, i + 1)
    }
}

/// Index of the first occurrence of the pattern `p` in `s` at or after `i`.
pub open spec fn spec_find_pat(s: Seq<u8>, p: Seq<u8>, i: int) -> Option<int>
    decreases s.len() - i,
{
    if i < 0 || p.len() == 0 || i + p.len() > s.len() {
        None
    } else if s.subrange(i, i + p.len() as int) == p {
        Some(i)
    } else {
        spec_find_pat(s, p, i + 1)
    }
}

/// Where each occurrence of a byte lies relative to where the search began.
pub proof fn lemma_find_byte(s: Seq<u8>, b: u8, i: int)
    ensures
        match spec_find_byte(s, b, i) {
            Some(j) => i <= j < s.len() && s[j] == b,
            None => true,
        },
    decreases s.len() - i,
{
    if i < 0 || i >= s.len() {
    } else if s[i] == b {
    } else {
        lemma_find_byte(s, b, i + 1);
    }
}

/// Where each occurrence of a pattern lies relative to where the search
/// began.
pub proof fn lemma_find_pat(s: Seq<u8>, p: Seq<u8>, i: int)
    ensures
        match spec_find_pat(s, p, i) {
            Some(j) => i <= j && j + p.len() <= s.len(),
            None => true,
        },
    decreases s.len() - i,
{
    if i < 0 || p.len() == 0 || i + p.len() > s.len() {
    } else if s.subrange(i, i + p.len() as int) == p {
    } else {
        lemma_find_pat(s, p, i + 1);
    }
}

/// `p` is a prefix of `s`.
pub open spec fn spec_starts_with(s: Seq<u8>, p: Seq<u8>) -> bool {
    p.len() <= s.len() && s.subrange(0, p.len() as int) == p
}

pub fn find_byte(s: &[u8], b: u8, from: usize) -> (r: Option<usize>)
    ensures
        match r {
            Some(j) => from <= j < s@.len() && spec_find_byte(s@, b, from as int) == Some(
                j as int,
            ),
            None => spec_find_byte(s@, b, from as int) is None,
        },
{
    let mut i = from;
    while i < s.len()
        invariant
            from <= i,
            spec_find_byte(s@, b, from as int) == spec_find_byte(s@, b, i as int),
        decreases s@.len() - i,
    {
        if s[i] == b {
            return Some(i);
        }
        i = i + 1;
    }
    None
}

pub fn bytes_eq(a: &[u8], b: &[u8]) -> (r: bool)
    ensures
        r == (a@ == b@),
{
    if a.len() != b.len() {
        return false;
    }
    let mut i: usize = 0;
    while i < a.len()
        invariant
            i <= a@.len(),
            a@.len() == b@.len(),
            forall|k: int| 0 <= k < i ==> a@[k] == b@[k],
        decreases a@.len() - i,
    {
        if a[i] != b[i] {
            return false;
        }
        i = i + 1;
    }
    proof {
        assert(a@ =~= b@);
    }
    true
}

pub fn starts_with(s: &[u8], p: &[u8]) -> (r: bool)
    ensures
        r == spec_starts_with(s@, p@),
{
    if p.len() > s.len() {
        return false;
    }
    bytes_eq(slice_subrange(s, 0, p.len()), p)
}

pub fn find_pat(s: &[u8], p: &[u8], from: usize) -> (r: Option<usize>)
    requires
        p@.len() > 0,
    ensures
        match r {
            Some(j) => from <= j && j + p@.len() <= s@.len() && spec_find_pat(
                s@,
                p@,
                from as int,
            ) == Some(j as int),
            None => spec_find_pat(s@, p@, from as int) is None,
        },
{
    if p.len() > s.len() {
        return None;
    }
    let mut i = from;
    while i <= s.len() - p.len()
        invariant
            from <= i,
            p@.len() >= 1,
            p@.len() <= s@.len(),
            spec_find_pat(s@, p@, from as int) == spec_find_pat(s@, p@, i as int),
        decreases s@.len() - i,
    {
        if bytes_eq(slice_subrange(s, i, i + p.len()), p) {
            return Some(i);
        }
        i = i + 1;
    }
    None
}

/// Appends all of `s` to `out`.
pub fn push_all(out: &mut Vec<u8>, s: &[u8])
    ensures
        final(out)@ == old(out)@ + s@,
{
    let mut i: usize = 0;
    while i < s.len()
        invariant
            i <= s@.len(),
            out@ == old(out)@ + s@.subrange(0, i as int),
        decreases s@.len() - i,
    {
        let c = s[i];
        out.push(c);
        proof {
            assert(old(out)@ + s@.subrange(0, i as int) + seq![s@[i as int]] =~= old(out)@
                + s@.subrange(0, i + 1 as int));
        }
        i = i + 1;
    }
    proof {
        assert(s@.subrange(0, s@.len() as int) =~= s@);
    }
}

/// Decimal digits of `n`, most significant first, no sign and no padding.
pub open spec fn spec_dec(n: nat) -> Seq<u8>
    decreases n,
{
    if n < 10 {
        seq![(48 + n) as u8]
    } else {
        spec_dec(n / 10) + seq![(48 + n % 10) as u8]
    }
}

/// Renders `n` in decimal, as `Content-Length` carries it.
pub fn dec_of(n: usize) -> (r: Vec<u8>)
    ensures
        r@ == spec_dec(n as nat),
{
    let mut digits: Vec<u8> = Vec::new();
    let mut m = n;
    proof {
        assert(spec_dec(n as nat) + Seq::<u8>::empty() =~= spec_dec(n as nat));
    }
    loop
        invariant_except_break
            spec_dec(n as nat) == spec_dec(m as nat) + digits@,
        ensures
            digits@ == spec_dec(n as nat),
        decreases m,
    {
        let d: u8 = (m % 10) as u8 + 48;
        digits.insert(0, d);
        if m < 10 {
            proof {
                assert(spec_dec(m as nat) == seq![d]);
                assert(spec_dec(m as nat) + digits@.subrange(1, digits@.len() as int)
                    =~= digits@);
            }
            break;
        }
        proof {
            assert(spec_dec(m as nat) == spec_dec(m as nat / 10) + seq![d]);
            assert(spec_dec(m as nat / 10) + seq![d] + digits@.subrange(
                1,
                digits@.len() as int,
            ) =~= spec_dec(m as nat / 10) + digits@);
        }
        m = m / 10;
    }
    digits
}

/// Every byte of `s` is a decimal digit, and there is at least one.
pub open spec fn spec_is_digits(s: Seq<u8>) -> bool {
    s.len() > 0 && forall|i: int| 0 <= i < s.len() ==> 48 <= #[trigger] s[i] <= 57
}

/// Value of a digit sequence read most significant first.
pub open spec fn spec_digits_val(s: Seq<u8>) -> int
    decreases s.len(),
{
    if s.len() == 0 {
        0
    } else {
        spec_digits_val(s.drop_last()) * 10 + s.last() - 48
    }
}

/// The number an HTTP `Content-Length` value denotes: an optional leading
/// `+`, then decimal digits; anything else, or a value above `usize::MAX`,
/// counts as zero.
pub open spec fn spec_digits_part(s: Seq<u8>) -> Seq<u8> {
    if s.len() > 0 && s[0] == 43 {
        s.subrange(1, s.len() as int)
    } else {
        s
    }
}

pub open spec fn spec_parse_usize(s: Seq<u8>) -> nat {
    let t = spec_digits_part(s);
    if spec_is_digits(t) && spec_digits_val(t) <= usize::MAX {
        spec_digits_val(t) as nat
    } else {
        0
    }
}

proof fn lemma_digits_val_bounds(s: Seq<u8>)
    requires
        forall|i: int| 0 <= i < s.len() ==> 48 <= #[trigger] s[i] <= 57,
    ensures
        spec_digits_val(s) >= 0,
    decreases s.len(),
{
    if s.len() > 0 {
        lemma_digits_val_bounds(s.drop_last());
    }
}

proof fn lemma_digits_prefix_le(s: Seq<u8>, i: int)
    requires
        forall|k: int| 0 <= k < s.len() ==> 48 <= #[trigger] s[k] <= 57,
        0 <= i <= s.len(),
    ensures
        spec_digits_val(s.subrange(0, i)) <= spec_digits_val(s),
    decreases s.len() - i,
{
    if i == s.len() {
        assert(s.subrange(0, i) =~= s);
    } else {
        let a = s.subrange(0, i);
        let b = s.subrange(0, i + 1);
        assert(b.drop_last() =~= a);
        lemma_digits_val_bounds(a);
        assert(spec_digits_val(b) == spec_digits_val(a) * 10 + s[i] - 48);
        assert(spec_digits_val(a) * 10 >= spec_digits_val(a)) by (nonlinear_arith)
            requires spec_digits_val(a) >= 0;
        lemma_digits_prefix_le(s, i + 1);
    }
}

/// Reads a decimal number leniently, as the `Content-Length` handling
/// wants it: anything unparseable or out of range yields zero.
pub fn parse_usize(s: &[u8]) -> (r: usize)
    ensures
        r as nat == spec_parse_usize(s@),
{
    let t: &[u8] = if s.len() > 0 && s[0] == 43 {
        slice_subrange(s, 1, s.len())
    } else {
        s
    };
    if t.len() == 0 {
        return 0;
    }
    let mut i: usize = 0;
    while i < t.len()
        invariant
            t@ == spec_digits_part(s@),
            i <= t@.len(),
            forall|k: int| 0 <= k < i ==> 48 <= #[trigger] t@[k] <= 57,
        decreases t@.len() - i,
    {
        let c = t[i];
        if c < 48 || c > 57 {
            return 0;
        }
        i = i + 1;
    }
    let mut acc: u128 = 0;
    let mut j: usize = 0;
    while j < t.len()
        invariant
            t@ == spec_digits_part(s@),
            j <= t@.len(),
            spec_is_digits(t@),
            acc == spec_digits_val(t@.subrange(0, j as int)),
            acc <= usize::MAX,
        decreases t@.len() - j,
    {
        let c = t[j];
        acc = acc * 10 + (c - 48) as u128;
        proof {
            assert(t@.subrange(0, j + 1 as int).drop_last() =~= t@.subrange(0, j as int));
        }
        if acc > usize::MAX as u128 {
            proof {
                lemma_digits_prefix_le(t@, j + 1 as int);
            }
            return 0;
        }
        j = j + 1;
    }
    proof {
        assert(t@.subrange(0, t@.len() as int) =~= t@);
    }
    acc as usize
}

} // verus!
