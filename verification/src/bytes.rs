//! Byte-level counterparts of the `text` primitives, for parsers that cut
//! strings at byte offsets (as `&s[a..b]` does).
use vstd::prelude::*;

verus! {

pub open spec fn is_digit_b(c: u8) -> bool {
    48 <= c && c <= 57
}

pub open spec fn digit_val_b(c: u8) -> int {
    c as int - 48
}

/// Copy of `s[a..b]`.
pub fn copy_range_b(s: &[u8], a: usize, b: usize) -> (r: Vec<u8>)
    requires
        a <= b <= s@.len(),
    ensures
        r@ == s@.subrange(a as int, b as int),
{
    let mut r: Vec<u8> = Vec::new();
    let mut i = a;
    while i < b
        invariant
            a <= i <= b <= s@.len(),
            r@ == s@.subrange(a as int, i as int),
        decreases b - i,
    {
        r.push(s[i]);
        i = i + 1;
    }
    r
}

/// Last index of byte `c` in `s`.
pub open spec fn rfind_byte(s: Seq<u8>, c: u8) -> Option<nat>
    decreases s.len(),
{
    if s.len() == 0 {
        None
    } else if s.last() == c {
        Some((s.len() - 1) as nat)
    } else {
        rfind_byte(s.drop_last(), c)
    }
}

pub fn rfind_byte_exec(s: &[u8], c: u8) -> (r: Option<usize>)
    ensures
        r matches Some(k) ==> rfind_byte(s@, c) == Some(k as nat) && k < s@.len(),
        r is None ==> rfind_byte(s@, c) is None,
{
    let mut j = s.len();
    assert(s@.take(j as int) =~= s@);
    while j > 0
        invariant
            j <= s@.len(),
            rfind_byte(s@, c) == rfind_byte(s@.take(j as int), c),
        decreases j,
    {
        assert(s@.take(j as int).drop_last() =~= s@.take(j - 1));
        if s[j - 1] == c {
            return Some(j - 1);
        }
        j = j - 1;
    }
    None
}

/// `s[i..]` begins with `p`.
pub open spec fn matches_at_b(s: Seq<u8>, p: Seq<u8>, i: int) -> bool {
    0 <= i && i + p.len() <= s.len() && s.subrange(i, i + p.len()) == p
}

/// `str::starts_with_b`
pub open spec fn starts_with_b(s: Seq<u8>, p: Seq<u8>) -> bool {
    matches_at_b(s, p, 0)
}

/// `str::ends_with_b`
pub open spec fn ends_with_b(s: Seq<u8>, p: Seq<u8>) -> bool {
    matches_at_b(s, p, s.len() - p.len())
}

/// Leftmost match of `p` in `s` at or after `i`.
pub open spec fn find_from_b(s: Seq<u8>, p: Seq<u8>, i: nat) -> Option<nat>
    decreases s.len() + 1 - i,
{
    if i + p.len() > s.len() {
        None
    } else if matches_at_b(s, p, i as int) {
        Some(i)
    } else {
        find_from_b(s, p, i + 1)
    }
}

/// `str::find_b` (as a character index)
pub open spec fn find_b(s: Seq<u8>, p: Seq<u8>) -> Option<nat> {
    find_from_b(s, p, 0)
}

/// `str::contains_b`
pub open spec fn contains_b(s: Seq<u8>, p: Seq<u8>) -> bool {
    find_b(s, p) is Some
}

pub proof fn lemma_find_from_props_b(s: Seq<u8>, p: Seq<u8>, i: nat)
    ensures
        find_from_b(s, p, i) matches Some(k) ==> i <= k && k + p.len() <= s.len() && matches_at_b(
            s,
            p,
            k as int,
        ) && (forall|j: int| i <= j < k ==> !matches_at_b(s, p, j)),
        find_from_b(s, p, i) is None ==> forall|j: int| i <= j ==> !matches_at_b(s, p, j),
    decreases s.len() + 1 - i,
{
    if i + p.len() > s.len() {
    } else if matches_at_b(s, p, i as int) {
    } else {
        lemma_find_from_props_b(s, p, i + 1);
    }
}

pub fn matches_at_exec_b(s: &[u8], p: &[u8], i: usize) -> (r: bool)
    ensures
        r == matches_at_b(s@, p@, i as int),
{
    if i > s.len() || p.len() > s.len() - i {
        return false;
    }
    let end = i + p.len();
    let mut k: usize = 0;
    while k < p.len()
        invariant
            end == i + p@.len(),
            end <= s@.len(),
            k <= p@.len(),
            forall|j: int| 0 <= j < k ==> s@[i + j] == p@[j],
        decreases p@.len() - k,
    {
        if s[i + k] != p[k] {
            assert(s@.subrange(i as int, i + p@.len())[k as int] != p@[k as int]);
            return false;
        }
        k = k + 1;
    }
    assert(s@.subrange(i as int, i + p@.len()) =~= p@);
    true
}

pub fn starts_with_exec_b(s: &[u8], p: &[u8]) -> (r: bool)
    ensures
        r == starts_with_b(s@, p@),
{
    matches_at_exec_b(s, p, 0)
}

pub fn find_from_exec_b(s: &[u8], p: &[u8], i: usize) -> (r: Option<usize>)
    ensures
        r matches Some(k) ==> find_from_b(s@, p@, i as nat) == Some(k as nat),
        r is None ==> find_from_b(s@, p@, i as nat) is None,
{
    let mut k = i;
    while k <= s.len() && p.len() <= s.len() - k
        invariant
            i <= k,
            find_from_b(s@, p@, i as nat) == find_from_b(s@, p@, k as nat),
        decreases s@.len() + 1 - k,
    {
        if matches_at_exec_b(s, p, k) {
            return Some(k);
        }
        if k == s.len() {
            assert(p@.len() > 0) by {
                if p@.len() == 0 {
                    assert(s@.subrange(k as int, k as int) =~= p@);
                }
            }
            return None;
        }
        k = k + 1;
    }
    None
}

pub fn find_exec_b(s: &[u8], p: &[u8]) -> (r: Option<usize>)
    ensures
        r matches Some(k) ==> find_b(s@, p@) == Some(k as nat),
        r is None ==> find_b(s@, p@) is None,
{
    find_from_exec_b(s, p, 0)
}

pub fn contains_exec_b(s: &[u8], p: &[u8]) -> (r: bool)
    ensures
        r == contains_b(s@, p@),
{
    find_exec_b(s, p).is_some()
}

/// `str::split_b(p)` over `s[i..]` for a non-empty pattern.
pub open spec fn split_from_b(s: Seq<u8>, p: Seq<u8>, i: nat) -> Seq<Seq<u8>>
    recommends
        p.len() > 0,
    decreases s.len() + 1 - i,
{
    if i > s.len() || p.len() == 0 {
        seq![]
    } else {
        match find_from_b(s, p, i) {
            Some(k) => if k + p.len() <= s.len() && i <= k {
                seq![s.subrange(i as int, k as int)] + split_from_b(s, p, k + p.len())
            } else {
                seq![]
            },
            None => seq![s.subrange(i as int, s.len() as int)],
        }
    }
}

/// `str::split_b(p)` for a non-empty pattern.
pub open spec fn split_b(s: Seq<u8>, p: Seq<u8>) -> Seq<Seq<u8>> {
    split_from_b(s, p, 0)
}

pub proof fn lemma_deep_view_chars_b(v: Vec<u8>)
    ensures
        v.deep_view() =~= v@,
{
}

pub fn split_vec_b(s: &[u8], p: &[u8]) -> (r: Vec<Vec<u8>>)
    requires
        p@.len() > 0,
    ensures
        r.deep_view() == split_b(s@, p@),
{
    let mut r: Vec<Vec<u8>> = Vec::new();
    let mut i: usize = 0;
    loop
        invariant
            i <= s@.len(),
            p@.len() > 0,
            split_b(s@, p@) == r.deep_view() + split_from_b(s@, p@, i as nat),
        decreases s@.len() + 1 - i,
    {
        let f = find_from_exec_b(s, p, i);
        proof {
            lemma_find_from_props_b(s@, p@, i as nat);
        }
        match f {
            Some(k) => {
                assert(k + p@.len() <= s@.len());
                assert(k + p.len() <= s.len());
                let piece = copy_range_b(s, i, k);
                proof { lemma_deep_view_chars_b(piece); }
                let ghost old_r = r.deep_view();
                r.push(piece);
                assert(r.deep_view() =~= old_r + seq![s@.subrange(i as int, k as int)]);
                i = k + p.len();
            },
            None => {
                let piece = copy_range_b(s, i, s.len());
                proof { lemma_deep_view_chars_b(piece); }
                let ghost old_r = r.deep_view();
                r.push(piece);
                assert(r.deep_view() =~= old_r + seq![s@.subrange(i as int, s@.len() as int)]);
                assert(split_b(s@, p@) =~= r.deep_view());
                return r;
            },
        }
    }
}

pub open spec fn all_digits_b(s: Seq<u8>) -> bool {
    forall|i: int| 0 <= i < s.len() ==> is_digit_b(#[trigger] s[i])
}

/// Decimal value of a digit string.
pub open spec fn digits_value_b(s: Seq<u8>) -> int
    decreases s.len(),
{
    if s.len() == 0 {
        0
    } else {
        digits_value_b(s.drop_last()) * 10 + digit_val_b(s.last())
    }
}

/// The integer that `s` spells: an optional `+` or `-`, then one or more digits.
pub open spec fn parse_int_b(s: Seq<u8>) -> Option<int> {
    if s.len() > 0 && (s[0] == 45u8 || s[0] == 43u8) {
        let d = s.drop_first();
        if d.len() > 0 && all_digits_b(d) {
            Some(if s[0] == 45u8 { -digits_value_b(d) } else { digits_value_b(d) })
        } else {
            None
        }
    } else if s.len() > 0 && all_digits_b(s) {
        Some(digits_value_b(s))
    } else {
        None
    }
}

/// `str::parse::<i64>().ok()`
pub open spec fn parse_i64_b(s: Seq<u8>) -> Option<i64> {
    match parse_int_b(s) {
        Some(v) => if i64::MIN <= v <= i64::MAX {
            Some(v as i64)
        } else {
            None
        },
        None => None,
    }
}

/// `str::parse::<i32>().ok()`
pub open spec fn parse_i32_b(s: Seq<u8>) -> Option<i32> {
    match parse_int_b(s) {
        Some(v) => if i32::MIN <= v <= i32::MAX {
            Some(v as i32)
        } else {
            None
        },
        None => None,
    }
}

proof fn lemma_digits_value_nonneg_b(s: Seq<u8>)
    requires
        all_digits_b(s),
    ensures
        digits_value_b(s) >= 0,
    decreases s.len(),
{
    if s.len() > 0 {
        assert(all_digits_b(s.drop_last())) by {
            assert forall|i: int| 0 <= i < s.drop_last().len() implies is_digit_b(
                #[trigger] s.drop_last()[i],
            ) by {
                assert(s.drop_last()[i] == s[i]);
            }
        }
        lemma_digits_value_nonneg_b(s.drop_last());
        assert(is_digit_b(s[s.len() - 1]));
    }
}

/// Magnitude of the digit run `s[a..]`, or `None` once it exceeds 2^63.
fn digits_magnitude_b(s: &[u8], a: usize) -> (r: Option<u64>)
    requires
        a <= s@.len(),
        all_digits_b(s@.subrange(a as int, s@.len() as int)),
    ensures
        r matches Some(v) ==> v == digits_value_b(s@.subrange(a as int, s@.len() as int)) && v
            <= 0x8000_0000_0000_0000u64,
        r is None ==> digits_value_b(s@.subrange(a as int, s@.len() as int))
            > 0x8000_0000_0000_0000u64,
{
    let ghost d = s@.subrange(a as int, s@.len() as int);
    let mut acc: u128 = 0;
    let mut big = false;
    let mut i = a;
    assert(d.take(0) =~= Seq::<u8>::empty());
    while i < s.len()
        invariant
            a <= i <= s@.len(),
            d == s@.subrange(a as int, s@.len() as int),
            all_digits_b(d),
            !big ==> acc == digits_value_b(d.take(i - a)) && acc <= 0x8000_0000_0000_0000u128,
            big ==> digits_value_b(d.take(i - a)) > 0x8000_0000_0000_0000u64,
        decreases s@.len() - i,
    {
        let c = s[i];
        assert(c == d[i - a]);
        assert(is_digit_b(d[i - a]));
        let dv = (c - 48u8) as u128;
        let ghost t = d.take(i - a + 1);
        assert(t.drop_last() =~= d.take(i - a));
        assert(t.last() == c);
        assert(digits_value_b(t) == digits_value_b(d.take(i - a)) * 10 + digit_val_b(c));
        if !big {
            acc = acc * 10 + dv;
            if acc > 0x8000_0000_0000_0000u128 {
                big = true;
            }
        }
        i = i + 1;
    }
    assert(d.take(i - a) =~= d);
    if big {
        None
    } else {
        Some(acc as u64)
    }
}

pub fn parse_i64_exec_b(s: &[u8]) -> (r: Option<i64>)
    ensures
        r == parse_i64_b(s@),
{
    let n = s.len();
    if n == 0 {
        return None;
    }
    let mut start: usize = 0;
    let mut neg = false;
    if s[0] == 45u8 || s[0] == 43u8 {
        neg = s[0] == 45u8;
        start = 1;
        if n == 1 {
            assert(s@.drop_first().len() == 0);
            return None;
        }
    }
    let mut i = start;
    while i < n
        invariant
            start <= i <= n == s@.len(),
            start <= 1,
            n > 0,
            start == 0 ==> !(s@[0] == 45u8 || s@[0] == 43u8),
            start == 1 ==> (s@[0] == 45u8 || s@[0] == 43u8) && neg == (s@[0] == 45u8) && n > 1,
            forall|j: int| start <= j < i ==> is_digit_b(s@[j]),
        decreases n - i,
    {
        if !(s[i] >= 48u8 && s[i] <= 57u8) {
            proof {
                assert(!is_digit_b(s@[i as int]));
                if start == 1 {
                    assert(s@.drop_first()[i - 1] == s@[i as int]);
                    assert(!all_digits_b(s@.drop_first()));
                } else {
                    assert(!all_digits_b(s@));
                }
            }
            return None;
        }
        i = i + 1;
    }
    let ghost d = s@.subrange(start as int, n as int);
    assert(all_digits_b(d)) by {
        assert forall|j: int| 0 <= j < d.len() implies is_digit_b(#[trigger] d[j]) by {
            assert(d[j] == s@[start + j]);
        }
    }
    proof {
        lemma_digits_value_nonneg_b(d);
        if start == 1 {
            assert(d =~= s@.drop_first());
        } else {
            assert(d =~= s@);
        }
    }
    match digits_magnitude_b(s, start) {
        None => None,
        Some(m) => {
            if neg {
                if m == 0x8000_0000_0000_0000u64 {
                    Some(i64::MIN)
                } else {
                    Some(-(m as i64))
                }
            } else {
                if m > 0x7fff_ffff_ffff_ffffu64 {
                    None
                } else {
                    Some(m as i64)
                }
            }
        },
    }
}

pub fn parse_i32_exec_b(s: &[u8]) -> (r: Option<i32>)
    ensures
        r == parse_i32_b(s@),
{
    match parse_i64_exec_b(s) {
        Some(v) => {
            if v >= i32::MIN as i64 && v <= i32::MAX as i64 {
                Some(v as i32)
            } else {
                None
            }
        },
        None => None,
    }
}


} // verus!
