use nixos_needsreboot::compare::is_upgrade;
use nixos_needsreboot::text::parse_u64;
use nixos_needsreboot::text::replace_all;
use nixos_needsreboot::text::split_on_str;
use nixos_needsreboot::text::str_lt;

#[test]
fn equal_versions_yield_no_reasons() {
    for v in ["6.6.1", "1.2.3", "", "255.2", "6.6.1-rc2"] {
        let (count, old_n, new_n) = is_upgrade(v, v);
        assert_eq!(count, 0);
        assert_eq!(old_n, v);
        assert_eq!(new_n, v);
    }
}

#[test]
fn patch_bump_yields_one_reason() {
    let (count, old_n, new_n) = is_upgrade("1.2.3", "1.2.4");
    assert_eq!(count, 1);
    assert_eq!(old_n, "1.2.3");
    assert_eq!(new_n, "1.2.4");
}

#[test]
fn rc_on_new_side_normalizes_and_reports() {
    let (count, old_n, new_n) = is_upgrade("6.6.1", "6.6.1-rc2");
    assert_eq!(old_n, "6.6.1.0");
    assert_eq!(new_n, "6.6.1.2");
    assert_eq!(count, 1);
}

#[test]
fn rc_on_old_side_normalizes_and_pads_new() {
    let (count, old_n, new_n) = is_upgrade("6.6.1-rc2", "6.6.2");
    assert_eq!(old_n, "6.6.1.2");
    assert_eq!(new_n, "6.6.2.0");
    assert_eq!(count, 1);
}

#[test]
fn rc_on_both_sides_replaces_both() {
    let (count, old_n, new_n) = is_upgrade("6.6.1-rc2", "6.6.1-rc10");
    assert_eq!(old_n, "6.6.1.2");
    assert_eq!(new_n, "6.6.1.10");
    assert_eq!(count, 1);
}

#[test]
fn segment_count_mismatch_without_rc_ties() {
    let (count, old_n, new_n) = is_upgrade("1.2", "1.2.0");
    assert_eq!(count, 0);
    assert_eq!(old_n, "1.2");
    assert_eq!(new_n, "1.2.0");
}

#[test]
fn tie_after_normalization_is_no_upgrade() {
    // Unequal raw strings that tie at every compared segment after the
    // release-candidate normalization produce no reason.
    let (count, old_n, new_n) = is_upgrade("6.6-rc1", "6.6.1");
    assert_eq!(old_n, "6.6.1");
    assert_eq!(new_n, "6.6.1.0");
    assert_eq!(count, 0);
}

#[test]
fn every_triggering_segment_counts() {
    // The walk does not stop at the first triggering pair: each one counts.
    let (count, _, _) = is_upgrade("1.2.3", "2.3.4");
    assert_eq!(count, 3);
}

#[test]
fn equal_length_versions_skip_normalization() {
    // Equal-length strings go straight to the segment walk, markers or not.
    let (count, old_n, new_n) = is_upgrade("6.6-rc2", "6.6-rc3");
    assert_eq!(old_n, "6.6-rc2");
    assert_eq!(new_n, "6.6-rc3");
    // Segments "6" and "6-rc2" vs "6" and "6-rc3": the second pair does not
    // parse numerically and compares lexicographically.
    assert_eq!(count, 1);
}

#[test]
fn non_numeric_segments_compare_lexicographically() {
    let (count, _, _) = is_upgrade("1.a", "1.b");
    assert_eq!(count, 1);
    let (count_rev, _, _) = is_upgrade("1.b", "1.a");
    assert_eq!(count_rev, 0);
}

#[test]
fn downgrade_yields_no_reason() {
    let (count, _, _) = is_upgrade("6.6.2", "6.6.1");
    assert_eq!(count, 0);
}

#[test]
fn parse_u64_accepts_plain_and_signed_digits() {
    assert_eq!(parse_u64("0"), Some(0));
    assert_eq!(parse_u64("255"), Some(255));
    assert_eq!(parse_u64("+10"), Some(10));
    assert_eq!(parse_u64("18446744073709551615"), Some(u64::MAX));
}

#[test]
fn parse_u64_rejects_bad_input() {
    assert_eq!(parse_u64(""), None);
    assert_eq!(parse_u64("+"), None);
    assert_eq!(parse_u64("++1"), None);
    assert_eq!(parse_u64("1a"), None);
    assert_eq!(parse_u64("-1"), None);
    assert_eq!(parse_u64("1 "), None);
    assert_eq!(parse_u64("18446744073709551616"), None);
}

#[test]
fn str_lt_is_lexicographic() {
    assert!(str_lt("abc", "abd"));
    assert!(!str_lt("abd", "abc"));
    assert!(str_lt("1", "10"));
    assert!(!str_lt("10", "1"));
    assert!(str_lt("", "a"));
    assert!(!str_lt("a", "a"));
}

#[test]
fn split_keeps_empty_parts() {
    assert_eq!(split_on_str("a..b", "."), vec!["a", "", "b"]);
    assert_eq!(split_on_str("", "."), vec![""]);
    assert_eq!(split_on_str(".a.", "."), vec!["", "a", ""]);
    assert_eq!(split_on_str("abc", "."), vec!["abc"]);
}

#[test]
fn split_on_marker_is_leftmost_non_overlapping() {
    assert_eq!(
        split_on_str("a-systemd-b-systemd-c", "-systemd-"),
        vec!["a", "b", "c"]
    );
    assert_eq!(split_on_str("-linux-linux-", "-linux-"), vec!["", "linux-"]);
}

#[test]
fn replace_all_replaces_every_occurrence() {
    assert_eq!(replace_all("6.6.1-rc2", "-rc", "."), "6.6.1.2");
    assert_eq!(replace_all("a-rcb-rcc", "-rc", "."), "a.b.c");
    assert_eq!(replace_all("plain", "-rc", "."), "plain");
}
