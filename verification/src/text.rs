//! Character-sequence primitives shared by the line-oriented parsers.
//!
//! Text is handled as `Vec<char>` in executable code and as `Seq<char>` in
//! specifications. Each operation mirrors the meaning of the corresponding
//! `str` method (`trim`, `lines`, `split`, `find`, `parse::<i64>`).
use vstd::prelude::*;

verus! {

// ---------------------------------------------------------------------------
// Character classes
// ---------------------------------------------------------------------------

/// Unicode `White_Space`, the property behind `char::is_whitespace`.
pub open spec fn is_ws(c: char) -> bool {
    ||| c == ' '
    ||| ('\t' <= c && c <= '\r')
    ||| c == '\u{85}'
    ||| c == '\u{a0}'
    ||| c == '\u{1680}'
    ||| ('\u{2000}' <= c && c <= '\u{200a}')
    ||| c == '\u{2028}'
    ||| c == '\u{2029}'
    ||| c == '\u{202f}'
    ||| c == '\u{205f}'
    ||| c == '\u{3000}'
}

pub fn char_is_ws(c: char) -> (r: bool)
    ensures
        r == is_ws(c),
{
    c == ' ' || ('\t' <= c && c <= '\r') || c == '\u{85}' || c == '\u{a0}' || c == '\u{1680}'
        || ('\u{2000}' <= c && c <= '\u{200a}') || c == '\u{2028}' || c == '\u{2029}'
        || c == '\u{202f}' || c == '\u{205f}' || c == '\u{3000}'
}

pub open spec fn is_digit(c: char) -> bool {
    '0' <= c && c <= '9'
}

pub open spec fn digit_val(c: char) -> int {
    c as int - '0' as int
}

// ---------------------------------------------------------------------------
// Skipping and trimming
// ---------------------------------------------------------------------------

/// Index of the first position at or after `i` whose character fails `p`.
pub open spec fn skip_fwd(s: Seq<char>, p: spec_fn(char) -> bool, i: nat) -> nat
    decreases s.len() - i,
{
    if i < s.len() && p(s[i as int]) {
        skip_fwd(s, p, i + 1)
    } else {
        i
    }
}

/// Index just past the last position before `j` whose character fails `p`.
pub open spec fn skip_back(s: Seq<char>, p: spec_fn(char) -> bool, j: nat) -> nat
    decreases j,
{
    if 0 < j && j <= s.len() && p(s[j - 1]) {
        skip_back(s, p, (j - 1) as nat)
    } else {
        j
    }
}

pub open spec fn ws_pred() -> spec_fn(char) -> bool {
    |c: char| is_ws(c)
}

pub open spec fn eq_pred(x: char) -> spec_fn(char) -> bool {
    |c: char| c == x
}

/// `str::trim_start`
pub open spec fn trim_start(s: Seq<char>) -> Seq<char> {
    s.skip(skip_fwd(s, ws_pred(), 0) as int)
}

/// `str::trim_end`
pub open spec fn trim_end(s: Seq<char>) -> Seq<char> {
    s.take(skip_back(s, ws_pred(), s.len()) as int)
}

/// `str::trim`
pub open spec fn trim(s: Seq<char>) -> Seq<char> {
    trim_end(trim_start(s))
}

/// `str::trim_start_matches(c)`
pub open spec fn trim_start_char(s: Seq<char>, c: char) -> Seq<char> {
    s.skip(skip_fwd(s, eq_pred(c), 0) as int)
}

/// `str::trim_end_matches(c)`
pub open spec fn trim_end_char(s: Seq<char>, c: char) -> Seq<char> {
    s.take(skip_back(s, eq_pred(c), s.len()) as int)
}

/// `str::trim_matches(c)`
pub open spec fn trim_char(s: Seq<char>, c: char) -> Seq<char> {
    trim_end_char(trim_start_char(s, c), c)
}

/// Number of leading `' '` characters.
pub open spec fn leading_spaces(s: Seq<char>) -> nat {
    skip_fwd(s, eq_pred(' '), 0)
}

proof fn lemma_skip_fwd_bounds(s: Seq<char>, p: spec_fn(char) -> bool, i: nat)
    requires
        i <= s.len(),
    ensures
        i <= skip_fwd(s, p, i) <= s.len(),
    decreases s.len() - i,
{
    if i < s.len() && p(s[i as int]) {
        lemma_skip_fwd_bounds(s, p, i + 1);
    }
}

proof fn lemma_skip_back_bounds(s: Seq<char>, p: spec_fn(char) -> bool, j: nat)
    requires
        j <= s.len(),
    ensures
        skip_back(s, p, j) <= j,
    decreases j,
{
    if 0 < j && p(s[j - 1]) {
        lemma_skip_back_bounds(s, p, (j - 1) as nat);
    }
}

/// Copy of `s[a..b]`.
pub fn copy_range(s: &[char], a: usize, b: usize) -> (r: Vec<char>)
    requires
        a <= b <= s@.len(),
    ensures
        r@ == s@.subrange(a as int, b as int),
{
    let mut r: Vec<char> = Vec::new();
    let mut i = a;
    while i < b
        invariant
            a <= i <= b <= s@.len(),
            r@ == s@.subrange(a as int, i as int),
        decreases b - i,
    {
        r.push(s[i]);
        i = i + 1;
    }
    r
}

/// Index of the first non-whitespace character at or after `i`.
pub fn skip_ws_fwd(s: &[char], i: usize) -> (r: usize)
    requires
        i <= s@.len(),
    ensures
        r == skip_fwd(s@, ws_pred(), i as nat),
        i <= r <= s@.len(),
{
    let mut k = i;
    while k < s.len() && char_is_ws(s[k])
        invariant
            i <= k <= s@.len(),
            skip_fwd(s@, ws_pred(), i as nat) == skip_fwd(s@, ws_pred(), k as nat),
        decreases s@.len() - k,
    {
        k = k + 1;
    }
    k
}

/// Index just past the last non-whitespace character before `j`.
pub fn skip_ws_back(s: &[char], j: usize) -> (r: usize)
    requires
        j <= s@.len(),
    ensures
        r == skip_back(s@, ws_pred(), j as nat),
        r <= j,
{
    let mut k = j;
    while k > 0 && char_is_ws(s[k - 1])
        invariant
            k <= j <= s@.len(),
            skip_back(s@, ws_pred(), j as nat) == skip_back(s@, ws_pred(), k as nat),
        decreases k,
    {
        k = k - 1;
    }
    k
}

/// Index of the first character at or after `i` that differs from `c`.
pub fn skip_char_fwd(s: &[char], c: char, i: usize) -> (r: usize)
    requires
        i <= s@.len(),
    ensures
        r == skip_fwd(s@, eq_pred(c), i as nat),
        i <= r <= s@.len(),
{
    let mut k = i;
    while k < s.len() && s[k] == c
        invariant
            i <= k <= s@.len(),
            skip_fwd(s@, eq_pred(c), i as nat) == skip_fwd(s@, eq_pred(c), k as nat),
        decreases s@.len() - k,
    {
        k = k + 1;
    }
    k
}

/// Index just past the last character before `j` that differs from `c`.
pub fn skip_char_back(s: &[char], c: char, j: usize) -> (r: usize)
    requires
        j <= s@.len(),
    ensures
        r == skip_back(s@, eq_pred(c), j as nat),
        r <= j,
{
    let mut k = j;
    while k > 0 && s[k - 1] == c
        invariant
            k <= j <= s@.len(),
            skip_back(s@, eq_pred(c), j as nat) == skip_back(s@, eq_pred(c), k as nat),
        decreases k,
    {
        k = k - 1;
    }
    k
}

pub fn trim_start_vec(s: &[char]) -> (r: Vec<char>)
    ensures
        r@ == trim_start(s@),
{
    let a = skip_ws_fwd(s, 0);
    copy_range(s, a, s.len())
}

pub fn trim_end_vec(s: &[char]) -> (r: Vec<char>)
    ensures
        r@ == trim_end(s@),
{
    let b = skip_ws_back(s, s.len());
    copy_range(s, 0, b)
}

pub fn trim_vec(s: &[char]) -> (r: Vec<char>)
    ensures
        r@ == trim(s@),
{
    let t = trim_start_vec(s);
    trim_end_vec(&t)
}

pub fn trim_start_char_vec(s: &[char], c: char) -> (r: Vec<char>)
    ensures
        r@ == trim_start_char(s@, c),
{
    let a = skip_char_fwd(s, c, 0);
    copy_range(s, a, s.len())
}

pub fn trim_end_char_vec(s: &[char], c: char) -> (r: Vec<char>)
    ensures
        r@ == trim_end_char(s@, c),
{
    let b = skip_char_back(s, c, s.len());
    copy_range(s, 0, b)
}

pub fn trim_char_vec(s: &[char], c: char) -> (r: Vec<char>)
    ensures
        r@ == trim_char(s@, c),
{
    let t = trim_start_char_vec(s, c);
    trim_end_char_vec(&t, c)
}

pub fn leading_spaces_count(s: &[char]) -> (r: usize)
    ensures
        r == leading_spaces(s@),
        r <= s@.len(),
{
    skip_char_fwd(s, ' ', 0)
}

// ---------------------------------------------------------------------------
// Prefixes and substring search
// ---------------------------------------------------------------------------

/// `s[i..]` begins with `p`.
pub open spec fn matches_at(s: Seq<char>, p: Seq<char>, i: int) -> bool {
    0 <= i && i + p.len() <= s.len() && s.subrange(i, i + p.len()) == p
}

/// `str::starts_with`
pub open spec fn starts_with(s: Seq<char>, p: Seq<char>) -> bool {
    matches_at(s, p, 0)
}

/// `str::ends_with`
pub open spec fn ends_with(s: Seq<char>, p: Seq<char>) -> bool {
    matches_at(s, p, s.len() - p.len())
}

/// Leftmost match of `p` in `s` at or after `i`.
pub open spec fn find_from(s: Seq<char>, p: Seq<char>, i: nat) -> Option<nat>
    decreases s.len() + 1 - i,
{
    if i + p.len() > s.len() {
        None
    } else if matches_at(s, p, i as int) {
        Some(i)
    } else {
        find_from(s, p, i + 1)
    }
}

/// `str::find` (as a character index)
pub open spec fn find(s: Seq<char>, p: Seq<char>) -> Option<nat> {
    find_from(s, p, 0)
}

/// `str::contains`
pub open spec fn contains(s: Seq<char>, p: Seq<char>) -> bool {
    find(s, p) is Some
}

pub proof fn lemma_find_from_props(s: Seq<char>, p: Seq<char>, i: nat)
    ensures
        find_from(s, p, i) matches Some(k) ==> i <= k && k + p.len() <= s.len() && matches_at(
            s,
            p,
            k as int,
        ) && (forall|j: int| i <= j < k ==> !matches_at(s, p, j)),
        find_from(s, p, i) is None ==> forall|j: int| i <= j ==> !matches_at(s, p, j),
    decreases s.len() + 1 - i,
{
    if i + p.len() > s.len() {
    } else if matches_at(s, p, i as int) {
    } else {
        lemma_find_from_props(s, p, i + 1);
    }
}

pub fn matches_at_exec(s: &[char], p: &[char], i: usize) -> (r: bool)
    ensures
        r == matches_at(s@, p@, i as int),
{
    if i > s.len() || p.len() > s.len() - i {
        return false;
    }
    let end = i + p.len();
    let mut k: usize = 0;
    while k < p.len()
        invariant
            end == i + p@.len(),
            end <= s@.len(),
            k <= p@.len(),
            forall|j: int| 0 <= j < k ==> s@[i + j] == p@[j],
        decreases p@.len() - k,
    {
        if s[i + k] != p[k] {
            assert(s@.subrange(i as int, i + p@.len())[k as int] != p@[k as int]);
            return false;
        }
        k = k + 1;
    }
    assert(s@.subrange(i as int, i + p@.len()) =~= p@);
    true
}

pub fn starts_with_exec(s: &[char], p: &[char]) -> (r: bool)
    ensures
        r == starts_with(s@, p@),
{
    matches_at_exec(s, p, 0)
}

pub fn find_from_exec(s: &[char], p: &[char], i: usize) -> (r: Option<usize>)
    ensures
        r matches Some(k) ==> find_from(s@, p@, i as nat) == Some(k as nat),
        r is None ==> find_from(s@, p@, i as nat) is None,
{
    let mut k = i;
    while k <= s.len() && p.len() <= s.len() - k
        invariant
            i <= k,
            find_from(s@, p@, i as nat) == find_from(s@, p@, k as nat),
        decreases s@.len() + 1 - k,
    {
        if matches_at_exec(s, p, k) {
            return Some(k);
        }
        if k == s.len() {
            assert(p@.len() > 0) by {
                if p@.len() == 0 {
                    assert(s@.subrange(k as int, k as int) =~= p@);
                }
            }
            return None;
        }
        k = k + 1;
    }
    None
}

pub fn find_exec(s: &[char], p: &[char]) -> (r: Option<usize>)
    ensures
        r matches Some(k) ==> find(s@, p@) == Some(k as nat),
        r is None ==> find(s@, p@) is None,
{
    find_from_exec(s, p, 0)
}

pub fn contains_exec(s: &[char], p: &[char]) -> (r: bool)
    ensures
        r == contains(s@, p@),
{
    find_exec(s, p).is_some()
}

// ---------------------------------------------------------------------------
// Lines and splitting
// ---------------------------------------------------------------------------

/// Drop one trailing `'\r'`.
pub open spec fn strip_cr(s: Seq<char>) -> Seq<char> {
    if s.len() > 0 && s.last() == '\r' {
        s.drop_last()
    } else {
        s
    }
}

/// `str::lines` over `s[i..]`
pub open spec fn lines_from(s: Seq<char>, i: nat) -> Seq<Seq<char>>
    decreases s.len() - i,
{
    if i >= s.len() {
        seq![]
    } else {
        match find_from(s, seq!['\n'], i) {
            Some(k) => if i <= k < s.len() {
                seq![strip_cr(s.subrange(i as int, k as int))] + lines_from(s, k + 1)
            } else {
                seq![]
            },
            None => seq![s.subrange(i as int, s.len() as int)],
        }
    }
}

/// `str::lines`: split at `"\n"` or `"\r\n"`, with no final empty line.
pub open spec fn lines(s: Seq<char>) -> Seq<Seq<char>> {
    lines_from(s, 0)
}

/// `str::split(p)` over `s[i..]` for a non-empty pattern.
pub open spec fn split_from(s: Seq<char>, p: Seq<char>, i: nat) -> Seq<Seq<char>>
    recommends
        p.len() > 0,
    decreases s.len() + 1 - i,
{
    if i > s.len() || p.len() == 0 {
        seq![]
    } else {
        match find_from(s, p, i) {
            Some(k) => if k + p.len() <= s.len() && i <= k {
                seq![s.subrange(i as int, k as int)] + split_from(s, p, k + p.len())
            } else {
                seq![]
            },
            None => seq![s.subrange(i as int, s.len() as int)],
        }
    }
}

/// `str::split(p)` for a non-empty pattern.
pub open spec fn split(s: Seq<char>, p: Seq<char>) -> Seq<Seq<char>> {
    split_from(s, p, 0)
}

pub proof fn lemma_deep_view_chars(v: Vec<char>)
    ensures
        v.deep_view() =~= v@,
{
}

/// The number of leftmost, non-overlapping matches of a non-empty `p` in
/// `s[i..]` (`str::matches(p).count()`).
pub open spec fn match_count_from(s: Seq<char>, p: Seq<char>, i: nat) -> nat
    decreases s.len() + 1 - i,
{
    if i > s.len() || p.len() == 0 {
        0
    } else {
        match find_from(s, p, i) {
            Some(k) => if k + p.len() <= s.len() && i <= k {
                1 + match_count_from(s, p, k + p.len())
            } else {
                0
            },
            None => 0,
        }
    }
}

/// `str::matches(p).count()` for a non-empty pattern.
pub open spec fn match_count(s: Seq<char>, p: Seq<char>) -> nat {
    match_count_from(s, p, 0)
}

/// Joining a first item to the others puts one separator between them.
pub proof fn lemma_join_cons(a: Seq<char>, rest: Seq<Seq<char>>, sep: Seq<char>)
    requires
        rest.len() >= 1,
    ensures
        join(seq![a] + rest, sep) == a + sep + join(rest, sep),
    decreases rest.len(),
{
    let all = seq![a] + rest;
    assert(all.drop_last() =~= seq![a] + rest.drop_last());
    assert(all.last() == rest.last());
    if rest.len() == 1 {
        assert(all.drop_last() =~= seq![a]);
        assert(join(rest, sep) == rest[0]);
        assert(join(all.drop_last(), sep) == a);
    } else {
        lemma_join_cons(a, rest.drop_last(), sep);
        assert(join(all, sep) == join(all.drop_last(), sep) + sep + all.last());
        assert(join(rest, sep) == join(rest.drop_last(), sep) + sep + rest.last());
        assert(a + sep + join(rest.drop_last(), sep) + sep + rest.last() =~= a + sep + (join(
            rest.drop_last(),
            sep,
        ) + sep + rest.last()));
    }
}

/// A stretch of `s` in which `p` matches nowhere holds no `p`.
pub proof fn lemma_no_match_in_range(s: Seq<char>, p: Seq<char>, i: int, k: int)
    requires
        p.len() > 0,
        0 <= i <= k <= s.len(),
        forall|j: int| i <= j < k ==> !matches_at(s, p, j),
    ensures
        !contains(s.subrange(i, k), p),
{
    let sub = s.subrange(i, k);
    lemma_find_from_props(sub, p, 0);
    if contains(sub, p) {
        let m = find(sub, p)->0 as int;
        assert(s.subrange(i + m, i + m + p.len()) =~= sub.subrange(m, m + p.len()));
        assert(matches_at(s, p, i + m));
    }
}

/// Splitting `s[i..]` at a non-empty `p` loses nothing: the pieces joined
/// with `p` give `s[i..]` back, there is one more piece than matches, and
/// no piece holds `p`.
pub proof fn lemma_split_from_props(s: Seq<char>, p: Seq<char>, i: nat)
    requires
        p.len() > 0,
        i <= s.len(),
    ensures
        split_from(s, p, i).len() == match_count_from(s, p, i) + 1,
        join(split_from(s, p, i), p) == s.subrange(i as int, s.len() as int),
        forall|j: int|
            0 <= j < split_from(s, p, i).len() ==> !contains(#[trigger] split_from(s, p, i)[j], p),
    decreases s.len() + 1 - i,
{
    lemma_find_from_props(s, p, i);
    match find_from(s, p, i) {
        Some(k) => {
            let next = (k + p.len()) as nat;
            let head = s.subrange(i as int, k as int);
            let rest = split_from(s, p, next);
            lemma_split_from_props(s, p, next);
            lemma_join_cons(head, rest, p);
            lemma_no_match_in_range(s, p, i as int, k as int);
            assert(split_from(s, p, i) == seq![head] + rest);
            assert(s.subrange(k as int, next as int) =~= p);
            assert(s.subrange(i as int, s.len() as int) =~= head + p + s.subrange(
                next as int,
                s.len() as int,
            ));
            assert forall|j: int| 0 <= j < split_from(s, p, i).len() implies !contains(
                #[trigger] split_from(s, p, i)[j],
                p,
            ) by {
                if j > 0 {
                    assert(split_from(s, p, i)[j] == rest[j - 1]);
                }
            }
        },
        None => {
            lemma_no_match_in_range(s, p, i as int, s.len() as int);
            assert(split_from(s, p, i) == seq![s.subrange(i as int, s.len() as int)]);
        },
    }
}

pub fn lines_vec(s: &[char]) -> (r: Vec<Vec<char>>)
    ensures
        r.deep_view() == lines(s@),
{
    let ghost nl = seq!['\n'];
    let nlv: Vec<char> = vec!['\n'];
    assert(nlv@ =~= nl);
    let mut r: Vec<Vec<char>> = Vec::new();
    let mut i: usize = 0;
    while i < s.len()
        invariant
            i <= s@.len(),
            nlv@ == nl,
            nl == seq!['\n'],
            lines(s@) == r.deep_view() + lines_from(s@, i as nat),
        decreases s@.len() - i,
    {
        let f = find_from_exec(s, &nlv, i);
        proof {
            lemma_find_from_props(s@, nl, i as nat);
        }
        match f {
            Some(k) => {
                let mut line = copy_range(s, i, k);
                if line.len() > 0 && line[line.len() - 1] == '\r' {
                    line.pop();
                }
                assert(line@ =~= strip_cr(s@.subrange(i as int, k as int)));
                proof { lemma_deep_view_chars(line); }
                let ghost old_r = r.deep_view();
                r.push(line);
                assert(r.deep_view() =~= old_r + seq![strip_cr(s@.subrange(i as int, k as int))]);
                i = k + 1;
            },
            None => {
                let line = copy_range(s, i, s.len());
                proof { lemma_deep_view_chars(line); }
                let ghost old_r = r.deep_view();
                r.push(line);
                assert(r.deep_view() =~= old_r + seq![s@.subrange(i as int, s@.len() as int)]);
                assert(lines_from(s@, s@.len() as nat) == Seq::<Seq<char>>::empty());
                i = s.len();
            },
        }
    }
    assert(lines_from(s@, i as nat) == Seq::<Seq<char>>::empty());
    assert(r.deep_view() + Seq::<Seq<char>>::empty() =~= r.deep_view());
    r
}

pub fn split_vec(s: &[char], p: &[char]) -> (r: Vec<Vec<char>>)
    requires
        p@.len() > 0,
    ensures
        r.deep_view() == split(s@, p@),
{
    let mut r: Vec<Vec<char>> = Vec::new();
    let mut i: usize = 0;
    loop
        invariant
            i <= s@.len(),
            p@.len() > 0,
            split(s@, p@) == r.deep_view() + split_from(s@, p@, i as nat),
        decreases s@.len() + 1 - i,
    {
        let f = find_from_exec(s, p, i);
        proof {
            lemma_find_from_props(s@, p@, i as nat);
        }
        match f {
            Some(k) => {
                assert(k + p@.len() <= s@.len());
                assert(k + p.len() <= s.len());
                let piece = copy_range(s, i, k);
                proof { lemma_deep_view_chars(piece); }
                let ghost old_r = r.deep_view();
                r.push(piece);
                assert(r.deep_view() =~= old_r + seq![s@.subrange(i as int, k as int)]);
                i = k + p.len();
            },
            None => {
                let piece = copy_range(s, i, s.len());
                proof { lemma_deep_view_chars(piece); }
                let ghost old_r = r.deep_view();
                r.push(piece);
                assert(r.deep_view() =~= old_r + seq![s@.subrange(i as int, s@.len() as int)]);
                assert(split(s@, p@) =~= r.deep_view());
                return r;
            },
        }
    }
}

// ---------------------------------------------------------------------------
// Integer parsing (`str::parse::<i64>` / `::<i32>`)
// ---------------------------------------------------------------------------

pub open spec fn all_digits(s: Seq<char>) -> bool {
    forall|i: int| 0 <= i < s.len() ==> is_digit(#[trigger] s[i])
}

/// Decimal value of a digit string.
pub open spec fn digits_value(s: Seq<char>) -> int
    decreases s.len(),
{
    if s.len() == 0 {
        0
    } else {
        digits_value(s.drop_last()) * 10 + digit_val(s.last())
    }
}

/// The integer that `s` spells: an optional `+` or `-`, then one or more digits.
pub open spec fn parse_int(s: Seq<char>) -> Option<int> {
    if s.len() > 0 && (s[0] == '-' || s[0] == '+') {
        let d = s.drop_first();
        if d.len() > 0 && all_digits(d) {
            Some(if s[0] == '-' { -digits_value(d) } else { digits_value(d) })
        } else {
            None
        }
    } else if s.len() > 0 && all_digits(s) {
        Some(digits_value(s))
    } else {
        None
    }
}

/// `str::parse::<i64>().ok()`
pub open spec fn parse_i64(s: Seq<char>) -> Option<i64> {
    match parse_int(s) {
        Some(v) => if i64::MIN <= v <= i64::MAX {
            Some(v as i64)
        } else {
            None
        },
        None => None,
    }
}

/// `str::parse::<i32>().ok()`
pub open spec fn parse_i32(s: Seq<char>) -> Option<i32> {
    match parse_int(s) {
        Some(v) => if i32::MIN <= v <= i32::MAX {
            Some(v as i32)
        } else {
            None
        },
        None => None,
    }
}

pub proof fn lemma_digits_value_nonneg(s: Seq<char>)
    requires
        all_digits(s),
    ensures
        digits_value(s) >= 0,
    decreases s.len(),
{
    if s.len() > 0 {
        assert(all_digits(s.drop_last())) by {
            assert forall|i: int| 0 <= i < s.drop_last().len() implies is_digit(
                #[trigger] s.drop_last()[i],
            ) by {
                assert(s.drop_last()[i] == s[i]);
            }
        }
        lemma_digits_value_nonneg(s.drop_last());
        assert(is_digit(s[s.len() - 1]));
    }
}

/// Magnitude of the digit run `s[a..]`, or `None` once it exceeds 2^63.
fn digits_magnitude(s: &[char], a: usize) -> (r: Option<u64>)
    requires
        a <= s@.len(),
        all_digits(s@.subrange(a as int, s@.len() as int)),
    ensures
        r matches Some(v) ==> v == digits_value(s@.subrange(a as int, s@.len() as int)) && v
            <= 0x8000_0000_0000_0000u64,
        r is None ==> digits_value(s@.subrange(a as int, s@.len() as int))
            > 0x8000_0000_0000_0000u64,
{
    let ghost d = s@.subrange(a as int, s@.len() as int);
    let mut acc: u128 = 0;
    let mut big = false;
    let mut i = a;
    assert(d.take(0) =~= Seq::<char>::empty());
    while i < s.len()
        invariant
            a <= i <= s@.len(),
            d == s@.subrange(a as int, s@.len() as int),
            all_digits(d),
            !big ==> acc == digits_value(d.take(i - a)) && acc <= 0x8000_0000_0000_0000u128,
            big ==> digits_value(d.take(i - a)) > 0x8000_0000_0000_0000u64,
        decreases s@.len() - i,
    {
        let c = s[i];
        assert(c == d[i - a]);
        assert(is_digit(d[i - a]));
        let dv = (c as u32 - '0' as u32) as u128;
        let ghost t = d.take(i - a + 1);
        assert(t.drop_last() =~= d.take(i - a));
        assert(t.last() == c);
        assert(digits_value(t) == digits_value(d.take(i - a)) * 10 + digit_val(c));
        if !big {
            acc = acc * 10 + dv;
            if acc > 0x8000_0000_0000_0000u128 {
                big = true;
            }
        }
        i = i + 1;
    }
    assert(d.take(i - a) =~= d);
    if big {
        None
    } else {
        Some(acc as u64)
    }
}

pub fn parse_i64_exec(s: &[char]) -> (r: Option<i64>)
    ensures
        r == parse_i64(s@),
{
    let n = s.len();
    if n == 0 {
        return None;
    }
    let mut start: usize = 0;
    let mut neg = false;
    if s[0] == '-' || s[0] == '+' {
        neg = s[0] == '-';
        start = 1;
        if n == 1 {
            assert(s@.drop_first().len() == 0);
            return None;
        }
    }
    let mut i = start;
    while i < n
        invariant
            start <= i <= n == s@.len(),
            start <= 1,
            n > 0,
            start == 0 ==> !(s@[0] == '-' || s@[0] == '+'),
            start == 1 ==> (s@[0] == '-' || s@[0] == '+') && neg == (s@[0] == '-') && n > 1,
            forall|j: int| start <= j < i ==> is_digit(s@[j]),
        decreases n - i,
    {
        if !(s[i] >= '0' && s[i] <= '9') {
            proof {
                assert(!is_digit(s@[i as int]));
                if start == 1 {
                    assert(s@.drop_first()[i - 1] == s@[i as int]);
                    assert(!all_digits(s@.drop_first()));
                } else {
                    assert(!all_digits(s@));
                }
            }
            return None;
        }
        i = i + 1;
    }
    let ghost d = s@.subrange(start as int, n as int);
    assert(all_digits(d)) by {
        assert forall|j: int| 0 <= j < d.len() implies is_digit(#[trigger] d[j]) by {
            assert(d[j] == s@[start + j]);
        }
    }
    proof {
        lemma_digits_value_nonneg(d);
        if start == 1 {
            assert(d =~= s@.drop_first());
        } else {
            assert(d =~= s@);
        }
    }
    match digits_magnitude(s, start) {
        None => None,
        Some(m) => {
            if neg {
                if m == 0x8000_0000_0000_0000u64 {
                    Some(i64::MIN)
                } else {
                    Some(-(m as i64))
                }
            } else {
                if m > 0x7fff_ffff_ffff_ffffu64 {
                    None
                } else {
                    Some(m as i64)
                }
            }
        },
    }
}

pub fn parse_i32_exec(s: &[char]) -> (r: Option<i32>)
    ensures
        r == parse_i32(s@),
{
    match parse_i64_exec(s) {
        Some(v) => {
            if v >= i32::MIN as i64 && v <= i32::MAX as i64 {
                Some(v as i32)
            } else {
                None
            }
        },
        None => None,
    }
}

// ---------------------------------------------------------------------------
// Conversions between `str`/`String` and character vectors
// ---------------------------------------------------------------------------

pub fn chars_of(s: &str) -> (r: Vec<char>)
    ensures
        r@ == s@,
{
    let mut r: Vec<char> = Vec::new();
    let mut i: usize = 0;
    let n = s.unicode_len();
    while i < n
        invariant
            n == s@.len(),
            i <= n,
            r@ == s@.take(i as int),
        decreases n - i,
    {
        r.push(s.get_char(i));
        i = i + 1;
        assert(r@ =~= s@.take(i as int));
    }
    assert(s@.take(n as int) =~= s@);
    r
}

/// `String: FromIterator<char>` — the string holding exactly the given characters.
#[verifier::external_body]
pub(crate) fn string_of(cs: &[char]) -> (r: String)
    ensures
        r@ == cs@,
{
    cs.iter().collect()
}

} // verus!

verus! {

/// What `str::to_lowercase` returns for a string with these characters: the
/// Unicode lowercase mapping, character by character, with its
/// multi-character expansions and final-sigma rule.
pub uninterp spec fn lowercase(s: Seq<char>) -> Seq<char>;

/// What `str::to_uppercase` gives for a string (Unicode case mapping).
pub uninterp spec fn uppercase(s: Seq<char>) -> Seq<char>;

/// `str::to_uppercase`. The contract names its result `uppercase(s@)`; the
/// Unicode case tables behind that name are not restated here.
#[verifier::external_body]
pub(crate) fn to_uppercase(s: &str) -> (r: String)
    ensures
        r@ == uppercase(s@),
{
    s.to_uppercase()
}

/// `str::to_lowercase`. The contract names its result `lowercase(s@)`; the
/// Unicode case tables behind that name are not restated here.
#[verifier::external_body]
pub(crate) fn to_lowercase(s: &str) -> (r: String)
    ensures
        r@ == lowercase(s@),
{
    s.to_lowercase()
}

/// The string `a` followed by `b`.
pub fn concat_chars(a: &[char], b: &str) -> (r: String)
    ensures
        r@ == a@ + b@,
{
    let bc = chars_of(b);
    let mut v = copy_range(a, 0, a.len());
    assert(a@.subrange(0, a@.len() as int) =~= a@);
    let mut i: usize = 0;
    while i < bc.len()
        invariant
            i <= bc@.len(),
            v@ == a@ + bc@.take(i as int),
        decreases bc@.len() - i,
    {
        v.push(bc[i]);
        i = i + 1;
        assert(v@ =~= a@ + bc@.take(i as int));
    }
    assert(bc@.take(i as int) =~= bc@);
    string_of(&v)
}

} // verus!

verus! {

// ---------------------------------------------------------------------------
// Decimal rendering (`i64::to_string`, `u64::to_string`)
// ---------------------------------------------------------------------------

pub open spec fn digit_char(d: nat) -> char {
    ('0' as nat + d) as char
}

/// Decimal digits of `n`, without leading zeros (`"0"` for zero).
pub open spec fn decimal_nat(n: nat) -> Seq<char>
    decreases n,
{
    if n < 10 {
        seq![digit_char(n)]
    } else {
        decimal_nat(n / 10).push(digit_char(n % 10))
    }
}

/// Decimal rendering of an integer, with a leading `-` when negative.
pub open spec fn decimal_int(v: int) -> Seq<char> {
    if v < 0 {
        seq!['-'] + decimal_nat((-v) as nat)
    } else {
        decimal_nat(v as nat)
    }
}

fn digit_to_char(d: u64) -> (c: char)
    requires
        d < 10,
    ensures
        c == digit_char(d as nat),
{
    if d == 0 {
        '0'
    } else if d == 1 {
        '1'
    } else if d == 2 {
        '2'
    } else if d == 3 {
        '3'
    } else if d == 4 {
        '4'
    } else if d == 5 {
        '5'
    } else if d == 6 {
        '6'
    } else if d == 7 {
        '7'
    } else if d == 8 {
        '8'
    } else {
        '9'
    }
}

fn decimal_u64_vec(n: u64) -> (r: Vec<char>)
    ensures
        r@ == decimal_nat(n as nat),
    decreases n,
{
    let c = digit_to_char(n % 10);
    if n < 10 {
        let mut r: Vec<char> = Vec::new();
        r.push(c);
        assert(r@ =~= seq![digit_char(n as nat)]);
        r
    } else {
        let mut r = decimal_u64_vec(n / 10);
        r.push(c);
        r
    }
}

/// `u64::to_string`
pub fn u64_to_string(n: u64) -> (r: String)
    ensures
        r@ == decimal_nat(n as nat),
{
    let v = decimal_u64_vec(n);
    string_of(&v)
}

/// `i64::to_string`
pub fn i64_to_string(v: i64) -> (r: String)
    ensures
        r@ == decimal_int(v as int),
{
    if v < 0 {
        let m: u64 = if v == i64::MIN {
            0x8000_0000_0000_0000u64
        } else {
            (-v) as u64
        };
        let digits = decimal_u64_vec(m);
        let mut r: Vec<char> = vec!['-'];
        let mut i: usize = 0;
        while i < digits.len()
            invariant
                i <= digits@.len(),
                r@ == seq!['-'] + digits@.take(i as int),
            decreases digits@.len() - i,
        {
            r.push(digits[i]);
            i = i + 1;
            assert(r@ =~= seq!['-'] + digits@.take(i as int));
        }
        assert(digits@.take(i as int) =~= digits@);
        string_of(&r)
    } else {
        u64_to_string(v as u64)
    }
}

} // verus!

verus! {

/// Append the characters of `s`.
pub fn push_str(v: &mut Vec<char>, s: &str)
    ensures
        final(v)@ == old(v)@ + s@,
{
    let c = chars_of(s);
    push_chars(v, &c);
}

/// Append the characters of `c`.
pub fn push_chars(v: &mut Vec<char>, c: &[char])
    ensures
        final(v)@ == old(v)@ + c@,
{
    let ghost start = v@;
    let mut i: usize = 0;
    while i < c.len()
        invariant
            i <= c@.len(),
            v@ == start + c@.take(i as int),
        decreases c@.len() - i,
    {
        v.push(c[i]);
        i = i + 1;
        assert(v@ =~= start + c@.take(i as int));
    }
    assert(c@.take(i as int) =~= c@);
}

/// Append the decimal rendering of `n`.
pub fn push_u64(v: &mut Vec<char>, n: u64)
    ensures
        final(v)@ == old(v)@ + decimal_nat(n as nat),
{
    let s = u64_to_string(n);
    push_str(v, s.as_str());
}

/// Append the decimal rendering of `n`.
pub fn push_i64(v: &mut Vec<char>, n: i64)
    ensures
        final(v)@ == old(v)@ + decimal_int(n as int),
{
    let s = i64_to_string(n);
    push_str(v, s.as_str());
}

/// A copy of a string.
pub fn copy_string(s: &String) -> (r: String)
    ensures
        r@ == s@,
{
    s.clone()
}

/// `s`, left-padded with spaces to at least `width` characters
/// (`format!("{:>width$}")`).
pub open spec fn pad_left(s: Seq<char>, width: nat) -> Seq<char> {
    if s.len() >= width {
        s
    } else {
        Seq::new((width - s.len()) as nat, |i: int| ' ') + s
    }
}

pub fn pad_left_vec(s: &[char], width: usize) -> (r: Vec<char>)
    ensures
        r@ == pad_left(s@, width as nat),
{
    let mut r: Vec<char> = Vec::new();
    if s.len() < width {
        let n = width - s.len();
        let mut i: usize = 0;
        while i < n
            invariant
                i <= n,
                r@ == Seq::new(i as nat, |j: int| ' '),
            decreases n - i,
        {
            r.push(' ');
            i = i + 1;
            assert(r@ =~= Seq::new(i as nat, |j: int| ' '));
        }
    }
    let ghost pre = r@;
    push_chars(&mut r, s);
    assert(r@ =~= pad_left(s@, width as nat));
    r
}

/// `s`, right-padded with spaces to at least `width` characters
/// (`format!("{:<width$}")`).
pub open spec fn pad_right(s: Seq<char>, width: nat) -> Seq<char> {
    if s.len() >= width {
        s
    } else {
        s + Seq::new((width - s.len()) as nat, |i: int| ' ')
    }
}

/// Append `s`, right-padded with spaces to at least `width` characters.
pub fn push_padded(v: &mut Vec<char>, s: &str, width: usize)
    ensures
        final(v)@ == old(v)@ + pad_right(s@, width as nat),
{
    let c = chars_of(s);
    let ghost start = v@;
    push_chars(v, &c);
    if c.len() < width {
        let n = width - c.len();
        let mut i: usize = 0;
        while i < n
            invariant
                i <= n,
                v@ == start + s@ + Seq::new(i as nat, |j: int| ' '),
            decreases n - i,
        {
            v.push(' ');
            i = i + 1;
            assert(v@ =~= start + s@ + Seq::new(i as nat, |j: int| ' '));
        }
    } else {
        assert(v@ =~= start + s@);
    }
    assert(v@ =~= start + pad_right(s@, width as nat));
}

/// Whether two strings hold the same characters.
pub fn str_eq(a: &str, b: &str) -> (r: bool)
    ensures
        r == (a@ == b@),
{
    let ac = chars_of(a);
    let bc = chars_of(b);
    if ac.len() != bc.len() {
        return false;
    }
    let mut i: usize = 0;
    while i < ac.len()
        invariant
            ac@ == a@,
            bc@ == b@,
            ac@.len() == bc@.len(),
            i <= ac@.len(),
            forall|j: int| 0 <= j < i ==> ac@[j] == bc@[j],
        decreases ac@.len() - i,
    {
        if ac[i] != bc[i] {
            assert(ac@[i as int] != bc@[i as int]);
            return false;
        }
        i = i + 1;
    }
    assert(ac@ =~= bc@);
    true
}

/// `items` joined with `sep` between them.
pub open spec fn join(items: Seq<Seq<char>>, sep: Seq<char>) -> Seq<char>
    decreases items.len(),
{
    if items.len() == 0 {
        seq![]
    } else if items.len() == 1 {
        items[0]
    } else {
        join(items.drop_last(), sep) + sep + items.last()
    }
}

/// The views of a sequence of string slices.
pub open spec fn strs_view(s: Seq<&str>) -> Seq<Seq<char>> {
    s.map_values(|a: &str| a@)
}

/// The views of a sequence of strings.
pub open spec fn strings_view(s: Seq<String>) -> Seq<Seq<char>> {
    s.map_values(|a: String| a@)
}

/// `items` joined with `sep`, as characters.
pub fn join_strings(items: &[String], sep: &str) -> (r: Vec<char>)
    ensures
        r@ == join(strings_view(items@), sep@),
{
    let ghost views = strings_view(items@);
    let mut v: Vec<char> = Vec::new();
    let mut i: usize = 0;
    while i < items.len()
        invariant
            i <= items@.len(),
            views == strings_view(items@),
            v@ == join(views.take(i as int), sep@),
        decreases items@.len() - i,
    {
        if i > 0 {
            push_str(&mut v, sep);
        }
        push_str(&mut v, items[i].as_str());
        proof {
            let t = views.take(i + 1);
            assert(t.drop_last() =~= views.take(i as int));
            assert(t.last() == items@[i as int]@);
            if i == 0 {
                assert(t.len() == 1);
                assert(v@ =~= t[0]);
            } else {
                assert(v@ =~= join(t.drop_last(), sep@) + sep@ + t.last());
            }
        }
        i = i + 1;
    }
    assert(views.take(i as int) =~= views);
    v
}

/// Copies of string slices as owned strings.
pub fn to_strings(items: &[&str]) -> (r: Vec<String>)
    ensures
        strings_view(r@) == strs_view(items@),
{
    let mut r: Vec<String> = Vec::new();
    let mut i: usize = 0;
    while i < items.len()
        invariant
            i <= items@.len(),
            strings_view(r@) == strs_view(items@).take(i as int),
        decreases items@.len() - i,
    {
        let ghost before = r@;
        r.push(String::from_str(items[i]));
        assert(r@ =~= before.push(r@.last()));
        assert(strings_view(r@) =~= strings_view(before).push(items@[i as int]@));
        assert(strs_view(items@).take(i + 1) =~= strs_view(items@).take(i as int).push(
            items@[i as int]@,
        ));
        i = i + 1;
    }
    assert(strs_view(items@).take(i as int) =~= strs_view(items@));
    r
}

/// `str::parse::<u64>().ok()`: an optional `+`, then one or more digits,
/// no larger than `u64::MAX`.
pub open spec fn parse_u64(s: Seq<char>) -> Option<u64> {
    if s.len() > 0 && s[0] == '-' {
        None
    } else {
        match parse_int(s) {
            Some(v) => if 0 <= v <= u64::MAX {
                Some(v as u64)
            } else {
                None
            },
            None => None,
        }
    }
}

/// Value of the digit run `s[a..]`, or `None` once it exceeds `u64::MAX`.
fn digits_u64(s: &[char], a: usize) -> (r: Option<u64>)
    requires
        a <= s@.len(),
        all_digits(s@.subrange(a as int, s@.len() as int)),
    ensures
        r matches Some(v) ==> v == digits_value(s@.subrange(a as int, s@.len() as int)),
        r is None ==> digits_value(s@.subrange(a as int, s@.len() as int)) > u64::MAX,
{
    let ghost d = s@.subrange(a as int, s@.len() as int);
    let mut acc: u128 = 0;
    let mut big = false;
    let mut i = a;
    assert(d.take(0) =~= Seq::<char>::empty());
    while i < s.len()
        invariant
            a <= i <= s@.len(),
            d == s@.subrange(a as int, s@.len() as int),
            all_digits(d),
            !big ==> acc == digits_value(d.take(i - a)) && acc <= u64::MAX,
            big ==> digits_value(d.take(i - a)) > u64::MAX,
        decreases s@.len() - i,
    {
        let c = s[i];
        assert(c == d[i - a]);
        assert(is_digit(d[i - a]));
        let dv = (c as u32 - '0' as u32) as u128;
        let ghost t = d.take(i - a + 1);
        assert(t.drop_last() =~= d.take(i - a));
        assert(t.last() == c);
        assert(digits_value(t) == digits_value(d.take(i - a)) * 10 + digit_val(c));
        if !big {
            acc = acc * 10 + dv;
            if acc > 0xffff_ffff_ffff_ffffu128 {
                big = true;
            }
        } else {
            proof {
                lemma_digits_value_nonneg(d.take(i - a));
            }
        }
        i = i + 1;
    }
    assert(d.take(i - a) =~= d);
    if big {
        None
    } else {
        Some(acc as u64)
    }
}

pub fn parse_u64_exec(s: &[char]) -> (r: Option<u64>)
    ensures
        r == parse_u64(s@),
{
    if s.len() == 0 || s[0] == '-' {
        return None;
    }
    let a: usize = if s[0] == '+' {
        1
    } else {
        0
    };
    if a >= s.len() {
        return None;
    }
    let mut i = a;
    while i < s.len()
        invariant
            a <= i <= s@.len(),
            a < s@.len(),
            s@[0] != '-',
            a == 1 <==> s@[0] == '+',
            a == 0 || a == 1,
            forall|j: int| a <= j < i ==> is_digit(#[trigger] s@[j]),
        decreases s@.len() - i,
    {
        if !('0' <= s[i] && s[i] <= '9') {
            proof {
                let d = s@.subrange(a as int, s@.len() as int);
                assert(!is_digit(d[i - a]));
                if a == 1 {
                    assert(s@.drop_first() =~= d);
                } else {
                    assert(s@ =~= d);
                }
            }
            return None;
        }
        i = i + 1;
    }
    let ghost d = s@.subrange(a as int, s@.len() as int);
    assert(all_digits(d)) by {
        assert forall|j: int| 0 <= j < d.len() implies is_digit(#[trigger] d[j]) by {
            assert(d[j] == s@[j + a]);
        }
    }
    proof {
        if a == 1 {
            assert(s@.drop_first() =~= d);
        } else {
            assert(s@ =~= d);
            assert(s@[0] != '+' && s@[0] != '-');
        }
        lemma_digits_value_nonneg(d);
    }
    digits_u64(s, a)
}

/// The view of an optional string.
pub open spec fn opt_view(o: Option<String>) -> Option<Seq<char>> {
    match o {
        Some(s) => Some(s@),
        None => None,
    }
}

/// The view of an optional string slice.
pub open spec fn opt_str_view(o: Option<&str>) -> Option<Seq<char>> {
    match o {
        Some(s) => Some(s@),
        None => None,
    }
}

/// A copy of an optional string slice.
pub fn copy_opt(o: Option<&str>) -> (r: Option<String>)
    ensures
        opt_view(r) == opt_str_view(o),
{
    match o {
        Some(s) => Some(String::from_str(s)),
        None => None,
    }
}

/// A copy of an optional string.
pub fn copy_opt_string(o: &Option<String>) -> (r: Option<String>)
    ensures
        opt_view(r) == opt_view(*o),
{
    match o {
        Some(s) => Some(copy_string(s)),
        None => None,
    }
}

/// Whether two character sequences are equal.
pub fn chars_eq(a: &[char], b: &[char]) -> (r: bool)
    ensures
        r == (a@ == b@),
{
    if a.len() != b.len() {
        return false;
    }
    let mut i: usize = 0;
    while i < a.len()
        invariant
            a@.len() == b@.len(),
            i <= a@.len(),
            forall|j: int| 0 <= j < i ==> a@[j] == b@[j],
        decreases a@.len() - i,
    {
        if a[i] != b[i] {
            assert(a@[i as int] != b@[i as int]);
            return false;
        }
        i = i + 1;
    }
    assert(a@ =~= b@);
    true
}

/// The views of a sequence of character vectors.
pub open spec fn chars_views(v: Seq<Vec<char>>) -> Seq<Seq<char>> {
    v.map_values(|x: Vec<char>| x@)
}

/// Character sequences joined with `sep`.
pub fn join_chars(items: &[Vec<char>], sep: &str) -> (r: Vec<char>)
    ensures
        r@ == join(chars_views(items@), sep@),
{
    let ghost views = chars_views(items@);
    let mut v: Vec<char> = Vec::new();
    let mut i: usize = 0;
    while i < items.len()
        invariant
            i <= items@.len(),
            views == chars_views(items@),
            v@ == join(views.take(i as int), sep@),
        decreases items@.len() - i,
    {
        if i > 0 {
            push_str(&mut v, sep);
        }
        push_chars(&mut v, items[i].as_slice());
        proof {
            let t = views.take(i + 1);
            assert(t.drop_last() =~= views.take(i as int));
            assert(t.last() == items@[i as int]@);
            if i == 0 {
                assert(t.len() == 1);
                assert(v@ =~= t[0]);
            } else {
                assert(v@ =~= join(t.drop_last(), sep@) + sep@ + t.last());
            }
        }
        i = i + 1;
    }
    assert(views.take(i as int) =~= views);
    v
}

/// `str::replace(p, r)` over `s[i..]`: every leftmost non-overlapping
/// match of `p` becomes `r`; an empty `p` matches before every character and
/// at the end.
pub open spec fn replace_from(s: Seq<char>, p: Seq<char>, r: Seq<char>, i: nat) -> Seq<char>
    decreases s.len() + 1 - i,
{
    if i > s.len() {
        seq![]
    } else if p.len() == 0 {
        if i == s.len() {
            r
        } else {
            r + seq![s[i as int]] + replace_from(s, p, r, i + 1)
        }
    } else {
        match find_from(s, p, i) {
            Some(k) => if i <= k && k + p.len() <= s.len() {
                s.subrange(i as int, k as int) + r + replace_from(s, p, r, k + p.len())
            } else {
                seq![]
            },
            None => s.subrange(i as int, s.len() as int),
        }
    }
}

/// `str::replace`
pub open spec fn replace(s: Seq<char>, p: Seq<char>, r: Seq<char>) -> Seq<char> {
    replace_from(s, p, r, 0)
}

/// With no match of a non-empty pattern, replacing changes nothing.
pub proof fn lemma_replace_absent(s: Seq<char>, p: Seq<char>, r: Seq<char>)
    requires
        p.len() > 0,
        find(s, p) is None,
    ensures
        replace(s, p, r) == s,
{
    assert(s.subrange(0, s.len() as int) =~= s);
}

pub fn replace_exec(s: &[char], p: &[char], r: &[char]) -> (out: Vec<char>)
    ensures
        out@ == replace(s@, p@, r@),
{
    let mut out: Vec<char> = Vec::new();
    let mut i: usize = 0;
    if p.len() == 0 {
        while i < s.len()
            invariant
                i <= s@.len(),
                p@.len() == 0,
                replace(s@, p@, r@) == out@ + replace_from(s@, p@, r@, i as nat),
            decreases s@.len() - i,
        {
            let ghost before = out@;
            push_chars(&mut out, r);
            out.push(s[i]);
            assert(out@ =~= before + (r@ + seq![s@[i as int]]));
            assert(before + (r@ + seq![s@[i as int]] + replace_from(s@, p@, r@, i as nat + 1))
                =~= out@ + replace_from(s@, p@, r@, i as nat + 1));
            i = i + 1;
        }
        push_chars(&mut out, r);
        return out;
    }
    loop
        invariant
            i <= s@.len(),
            p@.len() > 0,
            replace(s@, p@, r@) == out@ + replace_from(s@, p@, r@, i as nat),
        decreases s@.len() + 1 - i,
    {
        let f = find_from_exec(s, p, i);
        proof {
            lemma_find_from_props(s@, p@, i as nat);
        }
        match f {
            Some(k) => {
                assert(k + p@.len() <= s@.len());
                assert(k + p.len() <= s.len());
                let ghost before = out@;
                let piece = copy_range(s, i, k);
                push_chars(&mut out, &piece);
                push_chars(&mut out, r);
                assert(out@ =~= before + (s@.subrange(i as int, k as int) + r@));
                assert(before + (s@.subrange(i as int, k as int) + r@ + replace_from(
                    s@,
                    p@,
                    r@,
                    (k + p@.len()) as nat,
                )) =~= out@ + replace_from(s@, p@, r@, (k + p@.len()) as nat));
                i = k + p.len();
            },
            None => {
                let ghost before = out@;
                let piece = copy_range(s, i, s.len());
                push_chars(&mut out, &piece);
                assert(out@ =~= before + s@.subrange(i as int, s@.len() as int));
                return out;
            },
        }
    }
}

} // verus!
