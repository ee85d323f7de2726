use clipvault::fonts::{is_common_family, order_cjk_families, COMMON_CJK_FRAGMENTS};

#[test]
fn common_fragments_are_lowercase_and_unique() {
    let mut seen = std::collections::HashSet::new();
    for f in COMMON_CJK_FRAGMENTS.iter() {
        assert_eq!(f.to_lowercase(), *f, "fragment should be lowercase: {f}");
        assert!(seen.insert(*f), "duplicate fragment: {f}");
    }
}

fn fams(list: &[(&str, bool)]) -> Vec<(String, bool)> {
    list.iter().map(|(n, c)| (n.to_string(), *c)).collect()
}

#[test]
fn picker_lists_common_block_first_each_sorted_and_unique() {
    let input = fams(&[
        ("Zebra Sans", true),
        ("SimSun", true),
        ("Arial", false),
        ("Noto Sans SC", true),
        ("microsoft yahei", true),
        ("Zebra Sans", true),
        ("apple LiGothic", true),
        ("Microsoft YaHei UI", true),
        ("Courier", false),
    ]);
    let out = order_cjk_families(&input);
    assert_eq!(
        out,
        vec![
            "microsoft yahei",
            "Microsoft YaHei UI",
            "Noto Sans SC",
            "SimSun",
            "apple LiGothic",
            "Zebra Sans",
        ]
    );
}

#[test]
fn picker_keeps_system_order_for_case_ties_and_first_family_decides() {
    let input = fams(&[("KaiTi", true), ("kaiti", true), ("Foo", false), ("Foo", true)]);
    let out = order_cjk_families(&input);
    // "Foo" is listed once and its first family (no CJK) decides.
    assert_eq!(out, vec!["KaiTi", "kaiti"]);
}

#[test]
fn common_family_match_is_on_the_lowercased_name() {
    assert!(is_common_family("微软雅黑 light"));
    assert!(is_common_family("noto serif sc black"));
    assert!(!is_common_family("Noto Serif SC"));
    assert!(!is_common_family("arial"));
}
