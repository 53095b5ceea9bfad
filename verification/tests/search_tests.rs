use apkdl::search::{
    apkmirror_app_from_page, apkmirror_app_url, apkmirror_search_url,
    apkmirror_versions_from_captures, apkmirror_versions_from_page, apkpure_versions_from_hrefs,
    apkpure_versions_from_page, apkpure_versions_url, play_results_from_captures,
    play_results_from_page, play_results_from_text, play_search_url, slug_of,
    title_from_package, Version,
};

fn s(x: &str) -> String {
    x.to_string()
}

fn chars(x: &str) -> Vec<char> {
    x.chars().collect()
}

fn pairs(v: &[(&str, &str)]) -> Vec<(String, String)> {
    v.iter().map(|(a, b)| (s(a), s(b))).collect()
}

#[test]
fn play_search_url_joins_words_with_plus() {
    assert_eq!(
        play_search_url("  angry   birds\tgame "),
        "https://play.google.com/store/search?q=angry+birds+game&c=apps"
    );
    assert_eq!(play_search_url(""), "https://play.google.com/store/search?q=&c=apps");
    assert_eq!(
        play_search_url("maps\u{3000}go"),
        "https://play.google.com/store/search?q=maps+go&c=apps"
    );
}

#[test]
fn play_results_read_labels_and_ids() {
    let page = [
        r#"<a aria-label="Angry Birds" class="x" href="/store/apps/details?id=com.rovio.angry">"#,
        r#"<a href="/store/apps/details?id=com.other.app" aria-label="Other App">"#,
        r#"<a href="/store/apps/details?id=org.foo.my_cool-app">"#,
    ].concat();
    let got = play_results_from_text(&page).unwrap();
    assert_eq!(
        got,
        pairs(&[
            ("Angry Birds", "com.rovio.angry"),
            ("Other App", "com.other.app"),
            ("My cool app", "org.foo.my_cool-app"),
        ])
    );
}

#[test]
fn play_results_list_each_package_once() {
    let page = [
        r#"<a aria-label="First" href="/store/apps/details?id=com.dup.app">"#,
        r#"<a aria-label="Second" href="/store/apps/details?id=com.dup.app">"#,
        r#"<a href="/store/apps/details?id=com.dup.app">"#,
    ].concat();
    let got = play_results_from_text(&page).unwrap();
    assert_eq!(got, pairs(&[("First", "com.dup.app")]));
}

#[test]
fn play_results_trim_groups() {
    let page = r#"<a aria-label="  Spaced  " href="/store/apps/details?id=com.sp.app">"#;
    assert_eq!(play_results_from_text(&page).unwrap(), pairs(&[("Spaced", "com.sp.app")]));
}

#[test]
fn play_results_skip_empty_labels_but_remember_the_package() {
    let page = [
        r#"<a aria-label="" href="/store/apps/details?id=com.blank.app">"#,
        r#"<a href="/store/apps/details?id=com.blank.app">"#,
    ].concat();
    assert_eq!(play_results_from_text(&page).unwrap(), Vec::<(String, String)>::new());
}

#[test]
fn play_results_from_page_of_invalid_utf8_is_empty() {
    assert_eq!(play_results_from_page(&[0xff, 0xfe]).unwrap(), Vec::<(String, String)>::new());
    let ok = r#"<a href="/store/apps/details?id=a.b.c">"#.as_bytes();
    assert_eq!(play_results_from_page(ok).unwrap(), pairs(&[("C", "a.b.c")]));
}

#[test]
fn play_results_from_captures_swaps_reversed_groups() {
    let m = vec![Some(s("whole")), Some(s("com.rev.app")), Some(s("Rev App"))];
    let got = play_results_from_captures(Some(vec![m]), Some(vec![]), Some(vec![]), Some(vec![]));
    assert_eq!(got.unwrap(), pairs(&[("Rev App", "com.rev.app")]));
}

#[test]
fn play_results_fail_where_reading_panics() {
    // a match without its groups
    let short = vec![Some(s("whole"))];
    assert!(play_results_from_captures(Some(vec![short]), Some(vec![]), Some(vec![]), Some(vec![]))
        .is_none());
    // a pattern that did not compile
    assert!(play_results_from_captures(None, Some(vec![]), Some(vec![]), Some(vec![])).is_none());
    // an id whose title would begin with a non-ASCII character
    let m = vec![Some(s("whole")), Some(s("com.x.\u{c9}pic"))];
    assert!(play_results_from_captures(Some(vec![]), Some(vec![]), Some(vec![]), Some(vec![m]))
        .is_none());
}

#[test]
fn package_titles() {
    assert_eq!(title_from_package(&chars("org.foo.my_cool-app")), Some(chars("My cool app")));
    assert_eq!(title_from_package(&chars("single")), Some(chars("Single")));
    assert_eq!(title_from_package(&chars("com.x.")), Some(chars("")));
    assert_eq!(title_from_package(&chars("com.x.9lives")), Some(chars("9lives")));
    assert_eq!(title_from_package(&chars("com.x.\u{e9}t\u{e9}")), None);
}

#[test]
fn apkmirror_urls() {
    assert_eq!(apkmirror_search_url("com.a.b"), "https://www.apkmirror.com/?s=com+a+b");
    assert_eq!(slug_of("com.a.b"), chars("com-a-b"));
    let hrefs = vec![None, Some(s("/apk/other/app/")), Some(s("/apk/com-a-b/app/")), Some(s("/apk/com-a-b/x/"))];
    assert_eq!(
        apkmirror_app_url(&hrefs, "com.a.b"),
        Some(s("https://www.apkmirror.com/apk/com-a-b/app/"))
    );
    assert_eq!(apkmirror_app_url(&hrefs, "org.none"), None);
}

#[test]
fn apkmirror_app_from_search_page() {
    let page = r#"<html><body><a href="/apk/foo/">x</a><a href="/apk/com-a-b/b/">y</a></body></html>"#;
    assert_eq!(
        apkmirror_app_from_page(page.as_bytes(), "com.a.b"),
        Some(Some(s("https://www.apkmirror.com/apk/com-a-b/b/")))
    );
    assert_eq!(apkmirror_app_from_page(page.as_bytes(), "zz.zz"), Some(None));
}

#[test]
fn apkmirror_versions_from_app_page() {
    let page = [
        "<a href=\"/apk/x/app-1-0/\">\n  <div class=\"t\">  App 1.0 </div>",
        "<a href=\"/apk/x/app-2-0/\"><div>App 2.0</div>",
        "<a href=\"/apk/x/app-1-0/\"><div>Again</div>",
    ].concat();
    let got = apkmirror_versions_from_page(page.as_bytes()).unwrap();
    assert_eq!(
        got,
        vec![
            Version { label: s("App 1.0"), url: s("https://www.apkmirror.com/apk/x/app-1-0/") },
            Version { label: s("App 2.0"), url: s("https://www.apkmirror.com/apk/x/app-2-0/") },
        ]
    );
}

#[test]
fn apkmirror_versions_need_both_groups() {
    let m = vec![Some(s("w")), Some(s("/apk/a/"))];
    assert!(apkmirror_versions_from_captures(Some(vec![m])).is_none());
    assert!(apkmirror_versions_from_captures(None).is_none());
    assert_eq!(apkmirror_versions_from_captures(Some(vec![])).unwrap(), vec![]);
}

#[test]
fn apkpure_versions_from_links() {
    assert_eq!(apkpure_versions_url("com.a.b"), "https://apkpure.com/com-a-b/old-versions");
    let hrefs = vec![
        Some(s("/app/com.a.b/version/1-2-3/")),
        Some(s("https://apkpure.com/x/version/4-5")),
        None,
        Some(s("")),
        Some(s("/app/com.a.b/version/1-2-3/")),
    ];
    assert_eq!(
        apkpure_versions_from_hrefs(&hrefs),
        vec![
            Version { label: s("1 2 3"), url: s("https://apkpure.com/app/com.a.b/version/1-2-3/") },
            Version { label: s("4 5"), url: s("https://apkpure.com/x/version/4-5") },
        ]
    );
}

#[test]
fn apkpure_versions_from_old_versions_page() {
    let page = r#"<div><a href="/a/version/7-1">v</a><a href="/a/other">o</a></div>"#;
    assert_eq!(
        apkpure_versions_from_page(page.as_bytes()).unwrap(),
        vec![Version { label: s("7 1"), url: s("https://apkpure.com/a/version/7-1") }]
    );
}
