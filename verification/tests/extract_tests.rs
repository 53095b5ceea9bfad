use apkdl::extract::{
    has_apk_extension, merge_route, merging_line, plan_bundle, plan_bundle_lenient, split_line,
    MergeRoute,
};

fn names(v: &[&str]) -> Vec<String> {
    v.iter().map(|x| x.to_string()).collect()
}

#[test]
fn plan_keeps_base_and_matching_splits() {
    let n = names(&[
        "base.apk",
        "split_config.arm64_v8a.apk",
        "split_config.x86.apk",
        "split_config.en.apk",
        "readme.txt",
        "split_config.x86_64.apk",
    ]);
    let p = plan_bundle(&n, "arm64_v8a").unwrap();
    assert_eq!(p.base, 0);
    assert_eq!(p.splits, vec![1, 3]);
    let p = plan_bundle(&n, "x86").unwrap();
    assert_eq!(p.splits, vec![2, 3]);
}

#[test]
fn plan_without_base_takes_the_first_apk() {
    let n = names(&["notes.txt", "one.apk", "split_config.x86.apk", "two.apk"]);
    let p = plan_bundle(&n, "arm64_v8a").unwrap();
    assert_eq!(p.base, 1);
    assert_eq!(p.splits, vec![2, 3]);
}

#[test]
fn plan_needs_an_apk() {
    assert!(plan_bundle(&names(&["a.txt", ".apk", "apk"]), "x86").is_none());
    assert!(plan_bundle(&names(&[]), "x86").is_none());
}

#[test]
fn lenient_plan_takes_plain_names_as_base() {
    let n = names(&["app.apk", "split_config.en.apk", "config.arm64_v8a.apk"]);
    let p = plan_bundle_lenient(&n, "arm64_v8a").unwrap();
    assert_eq!(p.base, 0);
    assert_eq!(p.splits, vec![1, 2]);
    // the last base wins
    let n = names(&["a.apk", "b.apk"]);
    let p = plan_bundle_lenient(&n, "arm64_v8a").unwrap();
    assert_eq!(p.base, 1);
    assert!(p.splits.is_empty());
}

#[test]
fn plan_base_is_never_a_split() {
    let n = names(&["x.apk", "base.apk", "y.apk", "base.apk"]);
    let p = plan_bundle(&n, "x86").unwrap();
    assert_eq!(p.base, 3);
    assert!(!p.splits.contains(&p.base));
    assert_eq!(p.splits, vec![0, 2]);
}

#[test]
fn apk_extension() {
    let c = |x: &str| x.chars().collect::<Vec<char>>();
    assert!(has_apk_extension(&c("a.apk")));
    assert!(!has_apk_extension(&c(".apk")));
    assert!(!has_apk_extension(&c("a.APK")));
    assert!(!has_apk_extension(&c("a.apks")));
}

#[test]
fn merge_routes_and_lines() {
    assert_eq!(merge_route(0, true), MergeRoute::CopyBase);
    assert_eq!(merge_route(2, false), MergeRoute::CopyBaseWithoutEditor);
    assert_eq!(merge_route(2, true), MergeRoute::MergeWithEditor);
    assert_eq!(merging_line(3, " with APKEditor..."), "Merging 3 split(s) with APKEditor...");
    assert_eq!(split_line(1, 4, "x.apk"), "Split 1/4: x.apk");
}
