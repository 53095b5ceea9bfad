use apkdl::download::{
    apkmirror_download_pages_from_captures, apkmirror_download_pages_from_page,
    apkpure_direct_urls, apkpure_download_page, apkpure_file_links_from_hrefs,
    apkpure_file_links_from_page, big_enough, bundle_extension, classify_fetched,
    file_links_from_captures, file_links_from_page, gplay_arch_flag, gplay_cookie_header,
    gplay_client_error, gplay_summary, is_apkmirror_page, plan_gplay_output, pick_main_apk, is_apkpure_page, plan_gplay, python_for, range_header,
    resume_state, BundleKind, Fetched, GplayCookie, GplayDelivery, GplaySplit, SplitNote,
    APKMIRROR_FAILED, APKPURE_FAILED, MIN_APK_BYTES,
};

fn s(x: &str) -> String {
    x.to_string()
}

#[test]
fn range_header_asks_for_the_rest() {
    assert_eq!(range_header(0), None);
    assert_eq!(range_header(1234), Some(s("bytes=1234-")));
    assert_eq!(range_header(u64::MAX), Some(s("bytes=18446744073709551615-")));
}

#[test]
fn resuming_needs_206_and_a_partial_file() {
    assert_eq!(resume_state(206, 10), (true, 10));
    assert_eq!(resume_state(200, 10), (false, 0));
    assert_eq!(resume_state(206, 0), (false, 0));
    // a resumed download always asked for a range
    assert!(range_header(10).is_some());
}

#[test]
fn fetched_files_are_classified() {
    assert_eq!(classify_fetched("https://x/a.apkm", MIN_APK_BYTES), Fetched::TooSmall);
    assert_eq!(classify_fetched("https://x/a.apkm", 50_001), Fetched::Bundle(BundleKind::Apkm));
    assert_eq!(classify_fetched("https://x/a.xapk?x=1", 60_000), Fetched::Bundle(BundleKind::Xapk));
    assert_eq!(classify_fetched("https://x/a.apk", 60_000), Fetched::Single);
    assert_eq!(bundle_extension(BundleKind::Apkm), "apkm");
    assert_eq!(bundle_extension(BundleKind::Xapk), "xapk");
    assert!(big_enough(50_001));
    assert!(!big_enough(50_000));
}

#[test]
fn page_owners() {
    assert!(is_apkpure_page("https://apkpure.com/a/version/1"));
    assert!(!is_apkpure_page("https://www.apkmirror.com/apk/a"));
    assert!(is_apkmirror_page("https://www.apkmirror.com/apk/a"));
}

#[test]
fn apkpure_links_and_addresses() {
    let hrefs = vec![
        Some(s("/dl/app.apk")),
        None,
        Some(s("https://cdn.example/file.xapk")),
        Some(s("/download/page")),
    ];
    assert_eq!(
        apkpure_file_links_from_hrefs(&hrefs),
        vec![s("https://apkpure.com/dl/app.apk"), s("https://cdn.example/file.xapk")]
    );
    assert_eq!(
        apkpure_direct_urls("com.a.b"),
        vec![
            s("https://d.apkpure.net/b/XAPK/com.a.b?version=latest"),
            s("https://d.apkpure.net/b/APK/com.a.b?version=latest"),
        ]
    );
    assert_eq!(apkpure_download_page("com.a.b"), "https://apkpure.com/com-a-b/download");
    let page = r#"<a href="/download/x.apk">d</a><a href="/about">a</a>"#;
    assert_eq!(
        apkpure_file_links_from_page(page.as_bytes()).unwrap(),
        vec![s("https://apkpure.com/download/x.apk")]
    );
}

#[test]
fn apkmirror_download_pages_take_three() {
    let page = [
        r#"href="/apk/a/b-download/" "#,
        r#"href="/apk/a/c-download/" "#,
        r#"href="/apk/a/d-download/" "#,
        r#"href="/apk/a/e-download/" "#,
    ].concat();
    assert_eq!(
        apkmirror_download_pages_from_page(page.as_bytes()).unwrap(),
        vec![
            s("https://www.apkmirror.com/apk/a/b-download/"),
            s("https://www.apkmirror.com/apk/a/c-download/"),
            s("https://www.apkmirror.com/apk/a/d-download/"),
        ]
    );
    let two = r#"href="/apk/a/b-download/" href="/apk/a/c-download/""#;
    assert!(apkmirror_download_pages_from_page(two.as_bytes()).is_none());
    let missing = vec![vec![Some(s("w"))]];
    assert!(apkmirror_download_pages_from_captures(Some(missing)).is_none());
}

#[test]
fn apkmirror_file_links() {
    let page = br#"x "https://cdn.a/app.apk" y "http://cdn.b/b.apkm" "ftp://no.apk""#;
    assert_eq!(
        file_links_from_page(page).unwrap(),
        vec![Some(s("https://cdn.a/app.apk")), Some(s("http://cdn.b/b.apkm"))]
    );
    let bad = vec![vec![Some(b"w".to_vec()), Some(vec![0xff, 0x2e])], vec![Some(b"w".to_vec())]];
    assert_eq!(file_links_from_captures(&bad), vec![None, None]);
}

fn split(name: &str, url: Option<&str>, size: Option<u64>) -> GplaySplit {
    GplaySplit { name: Some(s(name)), url: url.map(s), size }
}

#[test]
fn gplay_plan_filters_arch_splits() {
    let d = GplayDelivery {
        version_code: Some(42),
        title: Some(s("My App")),
        download_url: Some(s("https://g/base")),
        cookies: Some(vec![
            GplayCookie { name: Some(s("a")), value: Some(s("1")) },
            GplayCookie { name: Some(s("b")), value: None },
            GplayCookie { name: Some(s("c")), value: Some(s("3")) },
        ]),
        splits: Some(vec![
            split("config.arm64_v8a", Some("https://g/arm"), Some(10)),
            split("config.x86", Some("https://g/x86"), Some(10)),
            split("config.en", Some("https://g/en"), Some(600_000_000)),
            split("feature", None, None),
        ]),
    };
    let plan = plan_gplay(&d, "com.my.app", "arm64_v8a");
    assert_eq!(plan.summary, "Google Play: My App (vc 42)");
    assert_eq!(plan.cookie_header, "a=1; c=3");
    assert_eq!(
        plan.files,
        vec![
            (s("https://g/base"), s("base.apk")),
            (s("https://g/arm"), s("com.my.app-42-config.arm64_v8a.apk")),
            (s("https://g/en"), s("com.my.app-42-config.en.apk")),
        ]
    );
    assert_eq!(plan.notes.len(), 2);
    match &plan.notes[0] {
        SplitNote::Skipped { name } => assert_eq!(name, "config.x86"),
        _ => panic!("expected a skipped split"),
    }
    match &plan.notes[1] {
        SplitNote::Large { name, size } => {
            assert_eq!(name, "config.en");
            assert_eq!(*size, 600_000_000);
        },
        _ => panic!("expected a large split"),
    }
    for (_, f) in &plan.files {
        assert!(f.ends_with(".apk"));
    }
}

#[test]
fn gplay_plan_defaults() {
    let d = GplayDelivery { version_code: None, title: None, download_url: None, cookies: None, splits: None };
    assert_eq!(gplay_summary(&d, "com.p"), "Google Play: com.p (vc 0)");
    assert_eq!(gplay_cookie_header(&d), "");
    let plan = plan_gplay(&d, "com.p", "x86");
    assert!(plan.files.is_empty());
    assert!(plan.notes.is_empty());
}

#[test]
fn gplay_flags_and_python() {
    assert_eq!(gplay_arch_flag("arm64_v8a"), "arm64");
    assert_eq!(gplay_arch_flag("armeabi_v7a"), "armv7");
    assert_eq!(gplay_arch_flag("x86"), "arm64");
    assert_eq!(python_for(true), "/tmp/apkdl_venv/bin/python3");
    assert_eq!(python_for(false), "python3");
}

#[test]
fn the_largest_main_apk_is_kept() {
    let files = vec![
        (s("com.a.apk"), 100),
        (s("com.a.split.apk"), 900),
        (s("asset_pack.apk"), 900),
        (s("notes.txt"), 900),
        (s("com.b.apk"), 300),
        (s("com.c.apk"), 300),
    ];
    assert_eq!(pick_main_apk(&files), Some(4));
    assert_eq!(pick_main_apk(&vec![(s("x.split.apk"), 1)]), None);
    assert_eq!(pick_main_apk(&vec![]), None);
}

#[test]
fn gplay_output_is_planned() {
    let out = br#"{"version_code": 7, "title": "Maps", "download_url": "https://g/base",
        "download_size": 1, "cookies": [{"name": "k", "value": "v"}],
        "splits": [{"name": "config.armeabi_v7a", "url": "https://g/v7", "size": 5},
                   {"name": "config.x86_64", "url": "https://g/x64", "size": 5}],
        "additional_files": []}"#;
    let plan = plan_gplay_output(out, "com.maps", "armeabi_v7a").unwrap();
    assert_eq!(plan.summary, "Google Play: Maps (vc 7)");
    assert_eq!(plan.cookie_header, "k=v");
    assert_eq!(
        plan.files,
        vec![
            (s("https://g/base"), s("base.apk")),
            (s("https://g/v7"), s("com.maps-7-config.armeabi_v7a.apk")),
        ]
    );
    assert_eq!(plan.notes.len(), 1);
    match &plan.notes[0] {
        SplitNote::Skipped { name } => assert_eq!(name, "config.x86_64"),
        _ => panic!("expected a skipped split"),
    }
}

#[test]
fn gplay_output_fields_of_another_type_read_as_absent() {
    let plan = plan_gplay_output(br#"{"version_code": "7", "title": 3}"#, "com.p", "x86").unwrap();
    assert_eq!(plan.summary, "Google Play: com.p (vc 0)");
    assert!(plan.files.is_empty());
    let lossy = plan_gplay_output(b"{\"title\": \"A\xffB\", \"version_code\": 1}", "com.p", "x86").unwrap();
    assert_eq!(lossy.summary, "Google Play: A\u{fffd}B (vc 1)");
}

#[test]
fn gplay_output_that_is_not_json_is_an_error() {
    let e = match plan_gplay_output(b"Traceback (most recent call last)", "com.p", "x86") {
        Err(e) => e,
        Ok(_) => panic!("expected an error"),
    };
    assert!(e.starts_with("parse delivery JSON: "));
    assert!(e.len() > "parse delivery JSON: ".len());
    let empty = match plan_gplay_output(b"", "com.p", "x86") {
        Err(e) => e,
        Ok(_) => panic!("expected an error"),
    };
    assert!(empty.starts_with("parse delivery JSON: "));
}

#[test]
fn gplay_client_error_is_trimmed() {
    assert_eq!(gplay_client_error(b"  boom \n"), "gplaydl API: boom");
    assert_eq!(gplay_client_error(b""), "gplaydl API: ");
    assert_eq!(gplay_client_error(b"bad \xff\n"), "gplaydl API: bad \u{fffd}");
}

#[test]
fn source_failures_read_as_the_original_messages() {
    assert_eq!(APKPURE_FAILED, "APKPure: all attempts failed");
    assert_eq!(APKMIRROR_FAILED, "APKMirror: all attempts failed");
}
