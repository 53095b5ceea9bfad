use apkdl::cli::{
    choose_arch, default_apk_name, download_tmp_name, fallback_result, first_success, is_package_id, output_is_directory,
    parse_choice, pick_package, result_line, source_index, source_name, source_tmp_name,
    sources_to_try, tui_output_name, tmp_name_from_lowercase, output_name_from_lowercase,
};
use apkdl::config::{Config, DEFAULT_TIMEOUT_SECS};

fn s(x: &str) -> String {
    x.to_string()
}

#[test]
fn sources() {
    assert_eq!(source_index("gplay"), Some(0));
    assert_eq!(source_index("apkmirror"), Some(1));
    assert_eq!(source_index("apkpure"), Some(2));
    assert_eq!(source_index("other"), None);
    assert_eq!(sources_to_try(None), vec![0, 1, 2]);
    assert_eq!(sources_to_try(Some(2)), vec![2]);
    assert_eq!(source_name(1), "APKMirror");
}

#[test]
fn arch_choice() {
    assert_eq!(choose_arch(Some(s("x86")), Some(s("x86_64"))), "x86");
    assert_eq!(choose_arch(None, Some(s("x86_64"))), "x86_64");
    assert_eq!(choose_arch(None, None), "arm64_v8a");
}

#[test]
fn results_and_choices() {
    assert!(is_package_id("com.a.b"));
    assert!(!is_package_id("chess"));
    assert_eq!(result_line(1, "Chess", "com.chess"), "1. Chess (com.chess)");
    assert_eq!(result_line(12, "com.chess", "Chess"), "12. Chess (com.chess)");
    let r = vec![(s("Chess"), s("com.chess")), (s("org.go"), s("Go")), (s("A"), s("B"))];
    assert_eq!(pick_package(&r, 0), "com.chess");
    assert_eq!(pick_package(&r, 1), "org.go");
    assert_eq!(pick_package(&r, 2), "B");
    assert_eq!(pick_package(&r, 99), "B");
}

#[test]
fn typed_choices() {
    assert_eq!(parse_choice("2\n"), 1);
    assert_eq!(parse_choice("  +3 "), 2);
    assert_eq!(parse_choice("0"), 0);
    assert_eq!(parse_choice(""), 0);
    assert_eq!(parse_choice("abc"), 0);
    assert_eq!(parse_choice("99999999999999999999999"), 0);
    for n in [1usize, 7, 10, 123456] {
        assert_eq!(parse_choice(&n.to_string()), n - 1);
    }
}

#[test]
fn file_names() {
    assert_eq!(default_apk_name("com.whatsapp"), "whatsapp.apk");
    assert_eq!(default_apk_name("plain"), "plain.apk");
    assert!(output_is_directory("out/", false));
    assert!(output_is_directory("out", true));
    assert!(!output_is_directory("out.apk", false));
    assert_eq!(download_tmp_name("com.a.b"), "com_a_b_download_tmp");
    assert_eq!(source_tmp_name("Google Play"), "google_play_tmp");
    assert_eq!(source_tmp_name("APKMirror"), "apkmirror_tmp");
    assert_eq!(tui_output_name("Com.Foo.Bar"), "com_foo_bar.apk");
    assert_eq!(tmp_name_from_lowercase("apkpure"), "apkpure_tmp");
    assert_eq!(output_name_from_lowercase("com.foo"), "com_foo.apk");
}

#[test]
fn config_defaults() {
    let c = Config::default();
    assert!(c.default_arch.is_none() && c.default_source.is_none() && c.output_dir.is_none());
    assert_eq!(c.timeout(), DEFAULT_TIMEOUT_SECS);
    let c = Config { timeout_secs: Some(30), ..Config::default() };
    assert_eq!(c.timeout(), 30);
}

#[test]
fn fallback_keeps_the_last_error_until_a_source_succeeds() {
    assert_eq!(fallback_result(&vec![]), Err(s("no source tried")));
    assert_eq!(fallback_result(&vec![Err(s("a")), Ok(())]), Ok(()));
    assert_eq!(fallback_result(&vec![Err(s("a")), Err(s("b"))]), Err(s("b")));
    assert_eq!(fallback_result(&vec![Ok(()), Err(s("late"))]), Ok(()));
    assert_eq!(fallback_result(&vec![Err(s(""))]), Ok(()));
}

#[test]
fn first_success_or_the_failure() {
    assert_eq!(first_success(&vec![], "none worked"), Err(s("none worked")));
    assert_eq!(first_success(&vec![Err(s("x")), Err(s("y"))], "none worked"), Err(s("none worked")));
    assert_eq!(first_success(&vec![Err(s("x")), Ok(())], "none worked"), Ok(()));
}
