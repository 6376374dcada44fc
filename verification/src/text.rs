//! Character-level string scanning: substring matching, splitting on a
//! pattern, joining, lexicographic comparison and decimal parsing.
//!
//! Everything here works over the character view of a string (`Seq<char>`),
//! so lengths and positions count characters.

use vstd::prelude::*;

verus! {

/// True iff `pat` occurs in `s` starting at position `i`.
pub open spec fn has_match_at(s: Seq<char>, pat: Seq<char>, i: int) -> bool {
    0 <= i && i + pat.len() <= s.len() && s.subrange(i, i + pat.len() as int) == pat
}

/// True iff `pat` occurs somewhere in `s`.
pub open spec fn contains_seq(s: Seq<char>, pat: Seq<char>) -> bool {
    exists|i: int| has_match_at(s, pat, i)
}

/// Does `pat` match `s` at position `i`?
pub fn match_at(s: &str, pat: &str, i: usize) -> (b: bool)
    requires
        i <= s@.len(),
    ensures
        b == has_match_at(s@, pat@, i as int),
{
    let slen: usize = s.unicode_len();
    let plen: usize = pat.unicode_len();
    if plen > slen - i {
        assert(!has_match_at(s@, pat@, i as int));
        return false;
    }
    let mut j: usize = 0;
    while j < plen
        invariant
            i + plen <= slen,
            slen == s@.len(),
            plen == pat@.len(),
            j <= plen,
            forall|m: int| 0 <= m < j ==> s@[i + m] == pat@[m],
        decreases plen - j,
    {
        if s.get_char(i + j) != pat.get_char(j) {
            assert(s@.subrange(i as int, i + plen as int) != pat@) by {
                assert(s@.subrange(i as int, i + plen as int)[j as int] == s@[i + j]);
            }
            return false;
        }
        j = j + 1;
    }
    assert(s@.subrange(i as int, i + plen as int) =~= pat@);
    true
}

/// The parts of `s` between the leftmost, non-overlapping occurrences of
/// `pat`, scanning left to right: splitting `"a.b"` on `"."` gives
/// `["a", "b"]`, splitting `""` gives `[""]`, and a separator at either end
/// contributes an empty part.
pub open spec fn split_on(s: Seq<char>, pat: Seq<char>) -> Seq<Seq<char>>
    decreases s.len(),
{
    if pat.len() < 1 || s.len() < pat.len() {
        seq![s]
    } else if s.subrange(0, pat.len() as int) == pat {
        seq![Seq::<char>::empty()] + split_on(s.skip(pat.len() as int), pat)
    } else {
        let rest = split_on(s.skip(1), pat);
        seq![seq![s[0]] + rest[0]] + rest.skip(1)
    }
}

pub proof fn lemma_split_len(s: Seq<char>, pat: Seq<char>)
    ensures
        split_on(s, pat).len() >= 1,
    decreases s.len(),
{
    if pat.len() < 1 || s.len() < pat.len() {
    } else if s.subrange(0, pat.len() as int) == pat {
        lemma_split_len(s.skip(pat.len() as int), pat);
    } else {
        lemma_split_len(s.skip(1), pat);
    }
}

/// A match of `pat` inside a suffix of `s` is a match inside `s`, shifted.
pub proof fn lemma_match_shift(s: Seq<char>, pat: Seq<char>, k: int, m: int)
    requires
        0 <= k <= s.len(),
        0 <= m,
    ensures
        has_match_at(s.skip(k), pat, m) == has_match_at(s, pat, k + m),
{
    if m + pat.len() <= s.len() - k {
        assert(s.skip(k).subrange(m, m + pat.len() as int) =~= s.subrange(
            k + m,
            k + m + pat.len() as int,
        ));
    }
}

/// Splitting leaves a match-free prefix of `s` attached to the first part of
/// the split of the rest.
pub proof fn lemma_split_prefix(s: Seq<char>, pat: Seq<char>, j: int)
    requires
        pat.len() >= 1,
        0 <= j <= s.len(),
        forall|m: int| 0 <= m < j ==> !has_match_at(s, pat, m),
    ensures
        split_on(s.skip(j), pat).len() >= 1,
        split_on(s, pat) == seq![s.subrange(0, j) + split_on(s.skip(j), pat)[0]] + split_on(
            s.skip(j),
            pat,
        ).skip(1),
    decreases j,
{
    lemma_split_len(s.skip(j), pat);
    lemma_split_len(s, pat);
    if j == 0 {
        assert(s.skip(0) =~= s);
        let sp = split_on(s, pat);
        assert(s.subrange(0, 0) + sp[0] =~= sp[0]);
        assert(seq![s.subrange(0, 0) + sp[0]] + sp.skip(1) =~= sp);
    } else if s.len() < pat.len() {
        assert(split_on(s, pat) == seq![s]);
        assert(s.skip(j).len() < pat.len());
        assert(split_on(s.skip(j), pat) == seq![s.skip(j)]);
        assert(s.subrange(0, j) + s.skip(j) =~= s);
        assert(seq![s.subrange(0, j) + s.skip(j)] + seq![s.skip(j)].skip(1) =~= seq![s]);
    } else {
        assert(!has_match_at(s, pat, 0));
        assert(s.subrange(0, pat.len() as int) != pat);
        let r = split_on(s.skip(1), pat);
        assert(split_on(s, pat) == seq![seq![s[0]] + r[0]] + r.skip(1));
        assert forall|m: int| 0 <= m < j - 1 implies !has_match_at(s.skip(1), pat, m) by {
            lemma_match_shift(s, pat, 1, m);
        }
        lemma_split_prefix(s.skip(1), pat, j - 1);
        assert(s.skip(1).skip(j - 1) =~= s.skip(j));
        let q = split_on(s.skip(j), pat);
        assert(r == seq![s.skip(1).subrange(0, j - 1) + q[0]] + q.skip(1));
        assert(r[0] == s.skip(1).subrange(0, j - 1) + q[0]);
        assert(r.skip(1) =~= q.skip(1));
        assert(seq![s[0]] + (s.skip(1).subrange(0, j - 1) + q[0]) =~= s.subrange(0, j) + q[0]);
        assert(seq![seq![s[0]] + r[0]] + r.skip(1) =~= seq![s.subrange(0, j) + q[0]] + q.skip(1));
    }
}

/// Where `s` has no occurrence of `pat` at all, the split is `s` alone.
pub proof fn lemma_split_no_match(s: Seq<char>, pat: Seq<char>)
    requires
        pat.len() >= 1,
        forall|m: int| !has_match_at(s, pat, m),
    ensures
        split_on(s, pat) == seq![s],
{
    lemma_split_prefix(s, pat, s.len() as int);
    let tail = s.skip(s.len() as int);
    assert(tail =~= Seq::<char>::empty());
    assert(split_on(tail, pat) == seq![tail]);
    assert(s.subrange(0, s.len() as int) + tail =~= s);
    assert(seq![s.subrange(0, s.len() as int) + tail] + seq![tail].skip(1) =~= seq![s]);
}

/// Where the first occurrence of `pat` in `s` is at `j`, the split is the
/// prefix before `j` followed by the split of what comes after the match.
pub proof fn lemma_split_first_match(s: Seq<char>, pat: Seq<char>, j: int)
    requires
        pat.len() >= 1,
        has_match_at(s, pat, j),
        forall|m: int| 0 <= m < j ==> !has_match_at(s, pat, m),
    ensures
        split_on(s, pat) == seq![s.subrange(0, j)] + split_on(s.skip(j + pat.len()), pat),
    decreases s.len(),
{
    lemma_split_prefix(s, pat, j);
    let t = s.skip(j);
    assert(t.len() >= pat.len());
    assert(t.subrange(0, pat.len() as int) =~= s.subrange(j, j + pat.len() as int));
    assert(t.subrange(0, pat.len() as int) == pat);
    assert(split_on(t, pat) == seq![Seq::<char>::empty()] + split_on(
        t.skip(pat.len() as int),
        pat,
    ));
    assert(t.skip(pat.len() as int) =~= s.skip(j + pat.len()));
    let q = split_on(s.skip(j + pat.len()), pat);
    assert(split_on(t, pat)[0] == Seq::<char>::empty());
    assert(split_on(t, pat).skip(1) =~= q);
    assert(s.subrange(0, j) + Seq::<char>::empty() =~= s.subrange(0, j));
    assert(seq![s.subrange(0, j) + split_on(t, pat)[0]] + split_on(t, pat).skip(1) =~= seq![
        s.subrange(0, j),
    ] + q);
}

/// The position of the first occurrence of `pat` in `s` at or after `start`.
pub fn find_from(s: &str, pat: &str, start: usize) -> (r: Option<usize>)
    requires
        pat@.len() >= 1,
        start <= s@.len(),
    ensures
        match r {
            Some(i) => start <= i && has_match_at(s@, pat@, i as int) && forall|m: int|
                start <= m < i ==> !has_match_at(s@, pat@, m),
            None => forall|m: int| start <= m ==> !has_match_at(s@, pat@, m),
        },
{
    let slen: usize = s.unicode_len();
    let plen: usize = pat.unicode_len();
    if plen > slen {
        return None;
    }
    let mut i: usize = start;
    while i <= slen - plen
        invariant
            pat@.len() == plen >= 1,
            s@.len() == slen,
            plen <= slen,
            start <= i,
            i <= slen + 1,
            forall|m: int| start <= m < i ==> !has_match_at(s@, pat@, m),
        decreases slen - i,
    {
        if match_at(s, pat, i) {
            return Some(i);
        }
        i = i + 1;
    }
    None
}

/// Does `pat` occur anywhere in `s`?
pub fn contains_pat(s: &str, pat: &str) -> (b: bool)
    requires
        pat@.len() >= 1,
    ensures
        b == contains_seq(s@, pat@),
{
    match find_from(s, pat, 0) {
        Some(i) => {
            assert(has_match_at(s@, pat@, i as int));
            true
        },
        None => false,
    }
}

/// Splits `s` on the leftmost, non-overlapping occurrences of `pat`,
/// exactly as `split_on` describes.
pub fn split_on_str(s: &str, pat: &str) -> (parts: Vec<String>)
    requires
        pat@.len() >= 1,
    ensures
        parts@.map_values(|p: String| p@) == split_on(s@, pat@),
{
    let slen: usize = s.unicode_len();
    let plen: usize = pat.unicode_len();
    let mut parts: Vec<String> = Vec::new();
    let mut rest_start: usize = 0;
    proof {
        assert(s@.skip(0) =~= s@);
        assert(parts@.map_values(|p: String| p@) + split_on(s@, pat@) =~= split_on(s@, pat@));
    }
    loop
        invariant
            pat@.len() == plen >= 1,
            s@.len() == slen,
            rest_start <= slen,
            split_on(s@, pat@) == parts@.map_values(|p: String| p@) + split_on(
                s@.skip(rest_start as int),
                pat@,
            ),
        ensures
            rest_start <= slen,
            split_on(s@, pat@) == parts@.map_values(|p: String| p@) + split_on(
                s@.skip(rest_start as int),
                pat@,
            ),
            forall|m: int| rest_start as int <= m ==> !has_match_at(s@, pat@, m),
        decreases slen - rest_start,
    {
        match find_from(s, pat, rest_start) {
            None => {
                break ;
            },
            Some(i) => {
                let part = s.substring_char(rest_start, i).to_owned();
                proof {
                    let t = s@.skip(rest_start as int);
                    assert forall|m: int| 0 <= m < i - rest_start implies !has_match_at(
                        t,
                        pat@,
                        m,
                    ) by {
                        lemma_match_shift(s@, pat@, rest_start as int, m);
                    }
                    lemma_match_shift(s@, pat@, rest_start as int, i - rest_start);
                    lemma_split_first_match(t, pat@, i - rest_start);
                    assert(t.subrange(0, i - rest_start) =~= s@.subrange(
                        rest_start as int,
                        i as int,
                    ));
                    assert(t.skip(i - rest_start + pat@.len()) =~= s@.skip(i + plen));
                    assert(parts@.push(part).map_values(|p: String| p@) =~= parts@.map_values(
                        |p: String| p@,
                    ) + seq![part@]);
                    assert(parts@.map_values(|p: String| p@) + (seq![t.subrange(0, i - rest_start)]
                        + split_on(s@.skip(i + plen), pat@)) =~= (parts@.map_values(|p: String| p@)
                        + seq![part@]) + split_on(s@.skip(i + plen), pat@));
                }
                parts.push(part);
                rest_start = i + plen;
            },
        }
    }
    let last = s.substring_char(rest_start, slen).to_owned();
    proof {
        let t = s@.skip(rest_start as int);
        assert forall|m: int| !has_match_at(t, pat@, m) by {
            if 0 <= m {
                lemma_match_shift(s@, pat@, rest_start as int, m);
            }
        }
        lemma_split_no_match(t, pat@);
        assert(last@ =~= t);
        assert(parts@.push(last).map_values(|p: String| p@) =~= parts@.map_values(|p: String| p@)
            + seq![t]);
    }
    parts.push(last);
    parts
}

/// The parts joined back together with `sep` between neighbours.
pub open spec fn join_with(parts: Seq<Seq<char>>, sep: Seq<char>) -> Seq<char>
    decreases parts.len(),
{
    if parts.len() == 0 {
        Seq::empty()
    } else if parts.len() == 1 {
        parts[0]
    } else {
        join_with(parts.drop_last(), sep) + sep + parts.last()
    }
}

/// Joins the strings with `sep` between neighbours.
pub fn join_strings(parts: &Vec<String>, sep: &str) -> (r: String)
    ensures
        r@ == join_with(parts@.map_values(|p: String| p@), sep@),
{
    let ghost pv = parts@.map_values(|p: String| p@);
    let mut r = String::new();
    let mut k: usize = 0;
    while k < parts.len()
        invariant
            pv == parts@.map_values(|p: String| p@),
            k <= parts@.len(),
            r@ == join_with(pv.take(k as int), sep@),
        decreases parts@.len() - k,
    {
        if k > 0 {
            r.append(sep);
        }
        r.append(parts[k].as_str());
        proof {
            assert(pv.take(k + 1).drop_last() =~= pv.take(k as int));
            assert(pv.take(k + 1).last() == pv[k as int]);
            if k == 0 {
                assert(r@ =~= pv.take(1)[0]);
            }
        }
        k = k + 1;
    }
    proof {
        assert(pv.take(parts@.len() as int) =~= pv);
    }
    r
}

/// What replacing every leftmost, non-overlapping occurrence of `pat` in `s`
/// by `rep` leaves: the split parts joined back with `rep`.
pub open spec fn replace_seq(s: Seq<char>, pat: Seq<char>, rep: Seq<char>) -> Seq<char> {
    join_with(split_on(s, pat), rep)
}

/// Replaces every leftmost, non-overlapping occurrence of `pat` by `rep`.
pub fn replace_all(s: &str, pat: &str, rep: &str) -> (r: String)
    requires
        pat@.len() >= 1,
    ensures
        r@ == replace_seq(s@, pat@, rep@),
{
    let parts = split_on_str(s, pat);
    join_strings(&parts, rep)
}

/// Strict lexicographic order on character sequences, by code point; a
/// proper prefix precedes any extension of it.
pub open spec fn lex_lt(a: Seq<char>, b: Seq<char>) -> bool
    decreases a.len(),
{
    if b.len() == 0 {
        false
    } else if a.len() == 0 {
        true
    } else if a[0] != b[0] {
        (a[0] as u32) < (b[0] as u32)
    } else {
        lex_lt(a.skip(1), b.skip(1))
    }
}

/// No sequence is lexicographically before itself.
pub proof fn lemma_lex_lt_irrefl(a: Seq<char>)
    ensures
        !lex_lt(a, a),
    decreases a.len(),
{
    if a.len() > 0 {
        lemma_lex_lt_irrefl(a.skip(1));
    }
}

/// Is `a` strictly before `b` in lexicographic order?
pub fn str_lt(a: &str, b: &str) -> (r: bool)
    ensures
        r == lex_lt(a@, b@),
{
    let alen: usize = a.unicode_len();
    let blen: usize = b.unicode_len();
    let mut k: usize = 0;
    proof {
        assert(a@.skip(0) =~= a@);
        assert(b@.skip(0) =~= b@);
    }
    loop
        invariant
            a@.len() == alen,
            b@.len() == blen,
            k <= alen,
            k <= blen,
            lex_lt(a@, b@) == lex_lt(a@.skip(k as int), b@.skip(k as int)),
        decreases alen - k,
    {
        if k == blen {
            return false;
        }
        if k == alen {
            return true;
        }
        let ca = a.get_char(k);
        let cb = b.get_char(k);
        if ca != cb {
            return (ca as u32) < (cb as u32);
        }
        proof {
            assert(a@.skip(k as int).skip(1) =~= a@.skip(k + 1));
            assert(b@.skip(k as int).skip(1) =~= b@.skip(k + 1));
        }
        k = k + 1;
    }
}

pub open spec fn is_digit(c: char) -> bool {
    48 <= c as u32 <= 57
}

pub open spec fn digit_val(c: char) -> int {
    c as u32 - 48
}

pub open spec fn all_digits(s: Seq<char>) -> bool {
    forall|i: int| 0 <= i < s.len() ==> is_digit(#[trigger] s[i])
}

/// The numeric value of a sequence of decimal digits.
pub open spec fn digits_val(s: Seq<char>) -> int
    decreases s.len(),
{
    if s.len() == 0 {
        0
    } else {
        digits_val(s.drop_last()) * 10 + digit_val(s.last())
    }
}

/// The digits of a decimal literal: an optional single leading `+` sign is
/// not part of them.
pub open spec fn digits_part(s: Seq<char>) -> Seq<char> {
    if s.len() >= 1 && s[0] == '+' {
        s.skip(1)
    } else {
        s
    }
}

/// The value a string denotes as an unsigned 64-bit decimal: an optional
/// leading `+`, then one or more digits, whose value fits in `u64`; `None`
/// otherwise.
pub open spec fn parsed_u64(s: Seq<char>) -> Option<u64> {
    let d = digits_part(s);
    if d.len() >= 1 && all_digits(d) && digits_val(d) <= u64::MAX {
        Some(digits_val(d) as u64)
    } else {
        None
    }
}

proof fn lemma_digits_val_nonneg(s: Seq<char>)
    requires
        all_digits(s),
    ensures
        digits_val(s) >= 0,
    decreases s.len(),
{
    if s.len() > 0 {
        assert(all_digits(s.drop_last()));
        lemma_digits_val_nonneg(s.drop_last());
    }
}

proof fn lemma_digits_val_monotone(s: Seq<char>, i: int, j: int)
    requires
        all_digits(s),
        0 <= i <= j <= s.len(),
    ensures
        digits_val(s.take(i)) <= digits_val(s.take(j)),
    decreases j - i,
{
    if i < j {
        lemma_digits_val_monotone(s, i, j - 1);
        assert(s.take(j).drop_last() =~= s.take(j - 1));
        assert(all_digits(s.take(j - 1)));
        lemma_digits_val_nonneg(s.take(j - 1));
    }
}

/// Parses a string as `u64::from_str` would: an optional single leading
/// `+`, then one or more decimal digits; fails on anything else and on
/// values beyond `u64::MAX`.
pub fn parse_u64(s: &str) -> (r: Option<u64>)
    ensures
        r == parsed_u64(s@),
{
    let len: usize = s.unicode_len();
    let mut k: usize = 0;
    if len >= 1 && s.get_char(0) == '+' {
        k = 1;
    }
    let ghost k0 = k as int;
    let ghost d = digits_part(s@);
    proof {
        assert(d =~= s@.skip(k0));
    }
    if k == len {
        return None;
    }
    let mut val: u64 = 0;
    while k < len
        invariant
            s@.len() == len,
            0 <= k0 <= k <= len,
            k0 < len,
            d == s@.skip(k0),
            d == digits_part(s@),
            forall|m: int| 0 <= m < k - k0 ==> is_digit(#[trigger] d[m]),
            val == digits_val(d.take(k - k0)),
        decreases len - k,
    {
        let c = s.get_char(k);
        let cv = c as u32;
        if !(48 <= cv && cv <= 57) {
            assert(!is_digit(d[k - k0]));
            return None;
        }
        let digit = (cv - 48) as u64;
        proof {
            assert(d.take(k - k0 + 1).drop_last() =~= d.take(k - k0));
            assert(d.take(k - k0 + 1).last() == d[k - k0]);
        }
        let next = match val.checked_mul(10) {
            Some(v) => v.checked_add(digit),
            None => None,
        };
        match next {
            Some(v) => {
                val = v;
            },
            None => {
                proof {
                    assert(digits_val(d.take(k - k0 + 1)) > u64::MAX);
                    if all_digits(d) {
                        lemma_digits_val_monotone(d, k - k0 + 1, d.len() as int);
                        assert(d.take(d.len() as int) =~= d);
                    }
                }
                return None;
            },
        }
        k = k + 1;
    }
    proof {
        assert(d.take(d.len() as int) =~= d);
        assert(all_digits(d));
    }
    Some(val)
}

} // verus!
