//! The version comparator: decides whether a new version string counts as
//! an upgrade over an old one.
//!
//! Equal strings are never an upgrade. Strings of different length are first
//! normalized for release-candidate asymmetry (a `-rc` marker becomes a dot;
//! the side without a marker is padded with `.0`). Both strings are then
//! split on dots and walked pairwise up to the shorter segment count; every
//! pair whose new segment exceeds its old one — numerically where both parse
//! as `u64`, lexicographically otherwise — independently counts as one
//! upgrade reason, so one comparison can yield several identical reasons.

use vstd::prelude::*;

use crate::text::contains_pat;
use crate::text::contains_seq;
use crate::text::lex_lt;
use crate::text::parse_u64;
use crate::text::parsed_u64;
use crate::text::replace_all;
use crate::text::replace_seq;
use crate::text::split_on;
use crate::text::split_on_str;
use crate::text::str_lt;

verus! {

/// Are the two strings equal, character for character?
pub fn str_eq(a: &str, b: &str) -> (r: bool)
    ensures
        r == (a@ == b@),
{
    let alen: usize = a.unicode_len();
    let blen: usize = b.unicode_len();
    if alen != blen {
        return false;
    }
    let mut k: usize = 0;
    while k < alen
        invariant
            a@.len() == alen,
            b@.len() == blen,
            alen == blen,
            k <= alen,
            forall|m: int| 0 <= m < k ==> a@[m] == b@[m],
        decreases alen - k,
    {
        if a.get_char(k) != b.get_char(k) {
            return false;
        }
        k = k + 1;
    }
    proof {
        assert(a@ =~= b@);
    }
    true
}

/// Does the pair (old segment, new segment) report an upgrade? Numeric
/// comparison where both segments parse as `u64`, lexicographic otherwise.
pub open spec fn segment_gt(old_seg: Seq<char>, new_seg: Seq<char>) -> bool {
    match (parsed_u64(old_seg), parsed_u64(new_seg)) {
        (Some(o), Some(n)) => n > o,
        _ => lex_lt(old_seg, new_seg),
    }
}

/// How many of the first `k` segment pairs report an upgrade.
pub open spec fn upgrade_count_upto(
    old_parts: Seq<Seq<char>>,
    new_parts: Seq<Seq<char>>,
    k: int,
) -> int
    decreases k,
{
    if k <= 0 {
        0
    } else {
        upgrade_count_upto(old_parts, new_parts, k - 1) + if segment_gt(
            old_parts[k - 1],
            new_parts[k - 1],
        ) {
            1int
        } else {
            0int
        }
    }
}

/// How many segment pairs of the two normalized versions report an upgrade,
/// walking the dot-separated segments up to the shorter segment count.
pub open spec fn upgrade_count(old_n: Seq<char>, new_n: Seq<char>) -> int {
    let op = split_on(old_n, "."@);
    let np = split_on(new_n, "."@);
    upgrade_count_upto(op, np, if op.len() <= np.len() {
        op.len() as int
    } else {
        np.len() as int
    })
}

/// The two version strings after release-candidate normalization. Strings
/// of equal length (counted in characters) pass through unchanged, as do
/// strings of different length where neither side carries an `-rc` marker.
/// Where only one side carries it, that side's markers become dots and the
/// other side is padded with `.0`; where both carry it, both sides' markers
/// become dots.
pub open spec fn normalized_pair(old: Seq<char>, new: Seq<char>) -> (Seq<char>, Seq<char>) {
    if old.len() == new.len() {
        (old, new)
    } else {
        let orc = contains_seq(old, "-rc"@);
        let nrc = contains_seq(new, "-rc"@);
        if orc && !nrc {
            (replace_seq(old, "-rc"@, "."@), new + ".0"@)
        } else if !orc && nrc {
            (old + ".0"@, replace_seq(new, "-rc"@, "."@))
        } else if orc && nrc {
            (replace_seq(old, "-rc"@, "."@), replace_seq(new, "-rc"@, "."@))
        } else {
            (old, new)
        }
    }
}

proof fn lemma_no_trigger_upto(old_parts: Seq<Seq<char>>, new_parts: Seq<Seq<char>>, k: int)
    requires
        forall|i: int| 0 <= i < k ==> !segment_gt(old_parts[i], new_parts[i]),
    ensures
        upgrade_count_upto(old_parts, new_parts, k) == 0,
    decreases k,
{
    if k > 0 {
        lemma_no_trigger_upto(old_parts, new_parts, k - 1);
    }
}

/// Segments beyond the shorter segment count are ignored: where every
/// segment pair over the common length ties, the comparison reports no
/// upgrade, however the two strings differ beyond that length.
pub proof fn lemma_tied_common_segments_no_upgrade(old_n: Seq<char>, new_n: Seq<char>)
    requires
        forall|i: int|
            0 <= i < split_on(old_n, "."@).len() && i < split_on(new_n, "."@).len()
                ==> !segment_gt(#[trigger] split_on(old_n, "."@)[i], split_on(new_n, "."@)[i]),
    ensures
        upgrade_count(old_n, new_n) == 0,
{
    let op = split_on(old_n, "."@);
    let np = split_on(new_n, "."@);
    let k = if op.len() <= np.len() {
        op.len() as int
    } else {
        np.len() as int
    };
    lemma_no_trigger_upto(op, np, k);
}

/// Every segment of a version compared with itself ties, so a version is
/// never an upgrade over itself.
pub proof fn lemma_equal_version_no_upgrade(v: Seq<char>)
    ensures
        upgrade_count(v, v) == 0,
{
    let p = split_on(v, "."@);
    assert forall|i: int| 0 <= i < p.len() && i < p.len() implies !segment_gt(
        #[trigger] p[i],
        p[i],
    ) by {
        crate::text::lemma_lex_lt_irrefl(p[i]);
    }
    lemma_tied_common_segments_no_upgrade(v, v);
}

/// Does one pair of segments report an upgrade?
fn segment_gt_exec(old_seg: &String, new_seg: &String) -> (b: bool)
    ensures
        b == segment_gt(old_seg@, new_seg@),
{
    let old_num = parse_u64(old_seg.as_str());
    let new_num = parse_u64(new_seg.as_str());
    match (old_num, new_num) {
        (Some(o), Some(n)) => n > o,
        _ => str_lt(old_seg.as_str(), new_seg.as_str()),
    }
}

/// Compares two version strings. Returns how many segment pairs report an
/// upgrade — zero means no upgrade, and each counted pair stands for one
/// reported reason — together with the two normalized version strings.
pub fn is_upgrade(old: &str, new: &str) -> (r: (usize, String, String))
    ensures
        r.1@ == normalized_pair(old@, new@).0,
        r.2@ == normalized_pair(old@, new@).1,
        r.0 as int == upgrade_count(normalized_pair(old@, new@).0, normalized_pair(old@, new@).1),
        old@ == new@ ==> r.0 == 0,
{
    proof {
        reveal_strlit("-rc");
        reveal_strlit(".");
        reveal_strlit(".0");
    }
    if str_eq(old, new) {
        proof {
            assert(normalized_pair(old@, new@) == (old@, new@));
            lemma_equal_version_no_upgrade(old@);
        }
        return (0, old.to_owned(), new.to_owned());
    }
    let mut old_n: String;
    let mut new_n: String;
    if old.unicode_len() != new.unicode_len() {
        let orc = contains_pat(old, "-rc");
        let nrc = contains_pat(new, "-rc");
        if orc && !nrc {
            old_n = replace_all(old, "-rc", ".");
            new_n = new.to_owned();
            new_n.append(".0");
        } else if !orc && nrc {
            new_n = replace_all(new, "-rc", ".");
            old_n = old.to_owned();
            old_n.append(".0");
        } else if orc && nrc {
            old_n = replace_all(old, "-rc", ".");
            new_n = replace_all(new, "-rc", ".");
        } else {
            old_n = old.to_owned();
            new_n = new.to_owned();
        }
    } else {
        old_n = old.to_owned();
        new_n = new.to_owned();
    }
    let old_parts = split_on_str(old_n.as_str(), ".");
    let new_parts = split_on_str(new_n.as_str(), ".");
    let ghost op = old_parts@.map_values(|p: String| p@);
    let ghost np = new_parts@.map_values(|p: String| p@);
    let n: usize = if old_parts.len() <= new_parts.len() {
        old_parts.len()
    } else {
        new_parts.len()
    };
    let mut count: usize = 0;
    let mut k: usize = 0;
    while k < n
        invariant
            n <= old_parts@.len(),
            n <= new_parts@.len(),
            op == old_parts@.map_values(|p: String| p@),
            np == new_parts@.map_values(|p: String| p@),
            k <= n,
            count <= k,
            count as int == upgrade_count_upto(op, np, k as int),
        decreases n - k,
    {
        if segment_gt_exec(&old_parts[k], &new_parts[k]) {
            count = count + 1;
        }
        k = k + 1;
    }
    proof {
        assert(count as int == upgrade_count(old_n@, new_n@));
    }
    (count, old_n, new_n)
}

} // verus!
