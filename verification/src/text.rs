//! Character-level text scanning.
//!
//! The enumeration output of the external snapshot manager is plain text:
//! lines of whitespace-separated fields.  This module gives the crate its
//! notion of lines, tokens and decimal numbers, each pinned down by a spec
//! function over sequences of characters, together with executable
//! scanners proved to match those spec functions.

use vstd::prelude::*;

verus! {

/// The blank characters that separate fields within a line.
pub open spec fn is_space_char(c: char) -> bool {
    c == ' ' || c == '\t' || c == '\r' || c == '\n'
}

/// Splits `s` into whitespace-separated tokens, with `cur` the token
/// under construction when the scan enters `s`.
pub open spec fn split_ws_from(s: Seq<char>, cur: Seq<char>) -> Seq<Seq<char>>
    decreases s.len(),
{
    if s.len() == 0 {
        if cur.len() == 0 {
            Seq::empty()
        } else {
            seq![cur]
        }
    } else if is_space_char(s[0]) {
        if cur.len() == 0 {
            split_ws_from(s.drop_first(), Seq::empty())
        } else {
            seq![cur] + split_ws_from(s.drop_first(), Seq::empty())
        }
    } else {
        split_ws_from(s.drop_first(), cur.push(s[0]))
    }
}

/// The whitespace-separated tokens of `s`, in order.
pub open spec fn spec_tokens(s: Seq<char>) -> Seq<Seq<char>> {
    split_ws_from(s, Seq::empty())
}

/// Splits `s` at newline characters, with `cur` the line under
/// construction; every position of `s` lands in exactly one line.
pub open spec fn split_nl_from(s: Seq<char>, cur: Seq<char>) -> Seq<Seq<char>>
    decreases s.len(),
{
    if s.len() == 0 {
        seq![cur]
    } else if s[0] == '\n' {
        seq![cur] + split_nl_from(s.drop_first(), Seq::empty())
    } else {
        split_nl_from(s.drop_first(), cur.push(s[0]))
    }
}

/// The lines of `s`: the pieces between newline characters.  A trailing
/// newline contributes one final empty line, which callers that skip
/// blank lines never observe.
pub open spec fn spec_lines(s: Seq<char>) -> Seq<Seq<char>> {
    split_nl_from(s, Seq::empty())
}

/// The views of a sequence of string slices.
pub open spec fn views_of(ts: Seq<&str>) -> Seq<Seq<char>> {
    ts.map_values(|t: &str| t@)
}

/// Whether `c` is a decimal digit.
pub open spec fn is_digit_char(c: char) -> bool {
    48 <= (c as u32) && (c as u32) <= 57
}

/// The numeric value of the decimal digit `c`.
pub open spec fn digit_val(c: char) -> int {
    (c as u32) as int - 48
}

/// Whether `t` consists of decimal digits only.
pub open spec fn all_digits(t: Seq<char>) -> bool {
    forall|i: int| 0 <= i < t.len() ==> is_digit_char(t[i])
}

/// The number denoted by the digit string `t`, read in base ten.
pub open spec fn digits_val(t: Seq<char>) -> int
    decreases t.len(),
{
    if t.len() == 0 {
        0
    } else {
        digits_val(t.drop_last()) * 10 + digit_val(t.last())
    }
}

pub proof fn lemma_digits_val_nonneg(t: Seq<char>)
    requires
        all_digits(t),
    ensures
        digits_val(t) >= 0,
    decreases t.len(),
{
    if t.len() > 0 {
        assert(all_digits(t.drop_last()));
        lemma_digits_val_nonneg(t.drop_last());
    }
}

/// A prefix of a digit string never denotes more than the whole string.
pub proof fn lemma_digits_val_prefix_le(t: Seq<char>, i: int)
    requires
        all_digits(t),
        0 <= i <= t.len(),
    ensures
        digits_val(t.subrange(0, i)) <= digits_val(t),
    decreases t.len(),
{
    if i == t.len() {
        assert(t.subrange(0, i) =~= t);
    } else {
        let u = t.drop_last();
        assert(all_digits(u));
        assert(u.subrange(0, i) =~= t.subrange(0, i));
        lemma_digits_val_prefix_le(u, i);
        lemma_digits_val_nonneg(u);
    }
}

fn is_space(c: char) -> (r: bool)
    ensures
        r == is_space_char(c),
{
    c == ' ' || c == '\t' || c == '\r' || c == '\n'
}

/// Splits `s` into its whitespace-separated tokens.
pub fn tokenize<'a>(s: &'a str) -> (r: Vec<&'a str>)
    ensures
        views_of(r@) == spec_tokens(s@),
{
    let n = s.unicode_len();
    let mut toks: Vec<&'a str> = Vec::new();
    let mut i: usize = 0;
    proof {
        assert(s@.subrange(0, n as int) =~= s@);
        assert(toks@ =~= Seq::<&str>::empty());
        assert(views_of(toks@) =~= Seq::<Seq<char>>::empty());
        assert(views_of(toks@) + split_ws_from(s@, Seq::empty()) =~= split_ws_from(
            s@,
            Seq::empty(),
        ));
    }
    while i < n
        invariant
            i <= n,
            n == s@.len(),
            spec_tokens(s@) =~= views_of(toks@) + split_ws_from(
                s@.subrange(i as int, n as int),
                Seq::empty(),
            ),
        decreases n - i,
    {
        let c = s.get_char(i);
        if is_space(c) {
            proof {
                assert(s@.subrange(i as int, n as int).drop_first() =~= s@.subrange(
                    i + 1 as int,
                    n as int,
                ));
            }
            i = i + 1;
        } else {
            let st = i;
            i = i + 1;
            proof {
                assert(s@.subrange(st as int, n as int).drop_first() =~= s@.subrange(
                    i as int,
                    n as int,
                ));
                assert(Seq::<char>::empty().push(s@[st as int]) =~= s@.subrange(
                    st as int,
                    i as int,
                ));
            }
            while i < n && !is_space(s.get_char(i))
                invariant
                    st < i <= n,
                    n == s@.len(),
                    spec_tokens(s@) =~= views_of(toks@) + split_ws_from(
                        s@.subrange(i as int, n as int),
                        s@.subrange(st as int, i as int),
                    ),
                    s@.subrange(st as int, i as int).len() > 0,
                decreases n - i,
            {
                proof {
                    assert(s@.subrange(i as int, n as int).drop_first() =~= s@.subrange(
                        i + 1 as int,
                        n as int,
                    ));
                    assert(s@.subrange(st as int, i as int).push(s@[i as int]) =~= s@.subrange(
                        st as int,
                        i + 1 as int,
                    ));
                }
                i = i + 1;
            }
            let tok = s.substring_char(st, i);
            proof {
                assert(views_of(toks@.push(tok)) =~= views_of(toks@).push(tok@));
                if i < n {
                    assert(is_space_char(s@.subrange(i as int, n as int)[0]));
                }
            }
            toks.push(tok);
        }
    }
    proof {
        assert(s@.subrange(n as int, n as int).len() == 0);
    }
    toks
}

/// Splits `s` into its lines.
pub fn split_lines<'a>(s: &'a str) -> (r: Vec<&'a str>)
    ensures
        views_of(r@) == spec_lines(s@),
{
    let n = s.unicode_len();
    let mut lines: Vec<&'a str> = Vec::new();
    let mut st: usize = 0;
    let mut i: usize = 0;
    proof {
        assert(s@.subrange(0, n as int) =~= s@);
        assert(s@.subrange(0, 0) =~= Seq::<char>::empty());
        assert(lines@ =~= Seq::<&str>::empty());
        assert(views_of(lines@) =~= Seq::<Seq<char>>::empty());
        assert(views_of(lines@) + split_nl_from(s@, Seq::empty()) =~= split_nl_from(
            s@,
            Seq::empty(),
        ));
    }
    while i < n
        invariant
            st <= i <= n,
            n == s@.len(),
            spec_lines(s@) =~= views_of(lines@) + split_nl_from(
                s@.subrange(i as int, n as int),
                s@.subrange(st as int, i as int),
            ),
        decreases n - i,
    {
        let c = s.get_char(i);
        proof {
            assert(s@.subrange(i as int, n as int).drop_first() =~= s@.subrange(
                i + 1 as int,
                n as int,
            ));
        }
        if c == '\n' {
            let line = s.substring_char(st, i);
            proof {
                assert(s@.subrange(i + 1 as int, i + 1 as int) =~= Seq::<char>::empty());
                assert(views_of(lines@.push(line)) =~= views_of(lines@) + seq![line@]);
                assert((views_of(lines@) + seq![line@]) + split_nl_from(
                    s@.subrange(i + 1 as int, n as int),
                    Seq::empty(),
                ) =~= views_of(lines@) + (seq![line@] + split_nl_from(
                    s@.subrange(i + 1 as int, n as int),
                    Seq::empty(),
                )));
            }
            lines.push(line);
            st = i + 1;
        } else {
            proof {
                assert(s@.subrange(st as int, i as int).push(s@[i as int]) =~= s@.subrange(
                    st as int,
                    i + 1 as int,
                ));
            }
        }
        i = i + 1;
    }
    let line = s.substring_char(st, n);
    proof {
        assert(views_of(lines@.push(line)) =~= views_of(lines@).push(line@));
    }
    lines.push(line);
    lines
}

/// Reads a decimal number from `t`: every character must be a digit and
/// the value must fit in a `u32`.
pub fn parse_u32(t: &str) -> (r: Option<u32>)
    ensures
        r is Some <==> t@.len() > 0 && all_digits(t@) && digits_val(t@) <= u32::MAX,
        r is Some ==> r->Some_0 == digits_val(t@),
{
    let n = t.unicode_len();
    let mut acc: u64 = 0;
    let mut i: usize = 0;
    while i < n
        invariant
            i <= n,
            n == t@.len(),
            all_digits(t@.subrange(0, i as int)),
            acc == digits_val(t@.subrange(0, i as int)),
            acc <= u32::MAX,
        decreases n - i,
    {
        let c = t.get_char(i);
        let u = c as u32;
        if u < 48 || u > 57 {
            assert(!all_digits(t@));
            return None;
        }
        proof {
            assert(t@.subrange(0, i + 1 as int).drop_last() =~= t@.subrange(0, i as int));
        }
        acc = acc * 10 + (u - 48) as u64;
        i = i + 1;
        if acc > u32::MAX as u64 {
            proof {
                if all_digits(t@) && digits_val(t@) <= u32::MAX {
                    lemma_digits_val_prefix_le(t@, i as int);
                }
            }
            return None;
        }
    }
    proof {
        assert(t@.subrange(0, n as int) =~= t@);
    }
    if n == 0 {
        None
    } else {
        Some(acc as u32)
    }
}

/// Whether `pat` occurs in `s` at position `i`.
pub open spec fn match_at(s: Seq<char>, pat: Seq<char>, i: int) -> bool {
    0 <= i && i + pat.len() <= s.len() && s.subrange(i, i + pat.len()) == pat
}

/// Whether position `i` is the first occurrence of `pat` in `s`.
pub open spec fn first_match_at(s: Seq<char>, pat: Seq<char>, i: int) -> bool {
    match_at(s, pat, i) && forall|j: int| 0 <= j < i ==> !match_at(s, pat, j)
}

/// The position of the first occurrence of `pat` in `s`, if any.
pub open spec fn find_pat(s: Seq<char>, pat: Seq<char>) -> Option<int>
    decreases s.len(),
{
    if pat.len() > s.len() {
        None
    } else if s.subrange(0, pat.len() as int) == pat {
        Some(0)
    } else if s.len() == 0 {
        None
    } else {
        match find_pat(s.drop_first(), pat) {
            Some(i) => Some(i + 1),
            None => None,
        }
    }
}

/// What `find_pat` returns is the first match, and `None` means there
/// is none.
pub proof fn lemma_find_pat(s: Seq<char>, pat: Seq<char>)
    ensures
        match find_pat(s, pat) {
            Some(i) => first_match_at(s, pat, i),
            None => forall|j: int| !match_at(s, pat, j),
        },
    decreases s.len(),
{
    if pat.len() > s.len() {
    } else if s.subrange(0, pat.len() as int) == pat {
        assert(match_at(s, pat, 0));
    } else if s.len() == 0 {
        assert(pat.len() == 0);
        assert(s.subrange(0, 0) =~= pat);
    } else {
        let t = s.drop_first();
        lemma_find_pat(t, pat);
        assert(!match_at(s, pat, 0));
        assert forall|j: int| 0 <= j implies (#[trigger] match_at(t, pat, j) <==> match_at(
            s,
            pat,
            j + 1,
        )) by {
            if j + pat.len() <= t.len() {
                assert(t.subrange(j, j + pat.len()) =~= s.subrange(j + 1, j + 1 + pat.len()));
            }
        }
        match find_pat(t, pat) {
            Some(i) => {
                assert(match_at(s, pat, i + 1));
                assert forall|j: int| 0 <= j < i + 1 implies !match_at(s, pat, j) by {
                    if j > 0 {
                        assert(!match_at(t, pat, j - 1));
                    }
                }
            },
            None => {
                assert forall|j: int| !match_at(s, pat, j) by {
                    if j > 0 {
                        assert(!match_at(t, pat, j - 1));
                    }
                }
            },
        }
    }
}

/// Whether `s` begins with `p`.
pub fn starts_with(s: &str, p: &str) -> (r: bool)
    ensures
        r == p@.is_prefix_of(s@),
{
    let n = s.unicode_len();
    let m = p.unicode_len();
    if m > n {
        return false;
    }
    let mut i: usize = 0;
    while i < m
        invariant
            i <= m <= n,
            n == s@.len(),
            m == p@.len(),
            forall|j: int| 0 <= j < i ==> s@[j] == p@[j],
        decreases m - i,
    {
        if s.get_char(i) != p.get_char(i) {
            proof {
                assert(s@.subrange(0, m as int)[i as int] == s@[i as int]);
            }
            return false;
        }
        i = i + 1;
    }
    proof {
        assert(p@ =~= s@.subrange(0, m as int));
    }
    true
}

/// Finds the position of the first occurrence of `pat` in `s`.
pub fn find_sub(s: &str, pat: &str) -> (r: Option<usize>)
    ensures
        r matches Some(i) ==> find_pat(s@, pat@) == Some(i as int) && first_match_at(
            s@,
            pat@,
            i as int,
        ),
        r is None ==> find_pat(s@, pat@) is None && (forall|j: int| !match_at(s@, pat@, j)),
{
    proof {
        lemma_find_pat(s@, pat@);
    }
    let n = s.unicode_len();
    let m = pat.unicode_len();
    if m > n {
        return None;
    }
    if m == 0 {
        proof {
            assert(s@.subrange(0, 0) =~= pat@);
        }
        return Some(0);
    }
    let mut i: usize = 0;
    while i <= n - m
        invariant
            0 < m <= n,
            i <= n - m + 1,
            n == s@.len(),
            m == pat@.len(),
            forall|j: int| 0 <= j < i ==> !match_at(s@, pat@, j),
        decreases n - i,
    {
        let mut k: usize = 0;
        let mut ok: bool = true;
        while k < m
            invariant
                k <= m,
                i + m <= n,
                n == s@.len(),
                m == pat@.len(),
                ok ==> forall|t: int| 0 <= t < k ==> s@[i + t] == pat@[t],
                !ok ==> !match_at(s@, pat@, i as int),
            decreases m - k,
        {
            if s.get_char(i + k) != pat.get_char(k) {
                proof {
                    if match_at(s@, pat@, i as int) {
                        assert(s@.subrange(i as int, i + m as int)[k as int] == s@[i + k]);
                    }
                }
                ok = false;
                k = m;
            } else {
                k = k + 1;
            }
        }
        if ok {
            proof {
                lemma_find_pat(s@, pat@);
                assert(pat@ =~= s@.subrange(i as int, i + m as int));
                assert(match_at(s@, pat@, i as int));
                let fp = find_pat(s@, pat@);
                if fp is Some {
                    let ip = fp->Some_0;
                    if ip < i as int {
                        assert(!match_at(s@, pat@, ip));
                    }
                }
            }
            return Some(i);
        }
        i = i + 1;
    }
    proof {
        lemma_find_pat(s@, pat@);
        assert forall|j: int| !match_at(s@, pat@, j) by {
            if 0 <= j && j + pat@.len() <= s@.len() {
                assert(j < i);
            }
        }
    }
    None
}

/// Compares two string slices character by character.
pub fn str_eq(a: &str, b: &str) -> (r: bool)
    ensures
        r == (a@ == b@),
{
    let n = a.unicode_len();
    let m = b.unicode_len();
    if n != m {
        return false;
    }
    let mut i: usize = 0;
    while i < n
        invariant
            i <= n,
            n == a@.len(),
            n == b@.len(),
            forall|j: int| 0 <= j < i ==> a@[j] == b@[j],
        decreases n - i,
    {
        if a.get_char(i) != b.get_char(i) {
            return false;
        }
        i = i + 1;
    }
    proof {
        assert(a@ =~= b@);
    }
    true
}

} // verus!
