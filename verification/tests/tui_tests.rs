use apkdl::config::Config;
use apkdl::search::Version;
use apkdl::tui::{Action, App, Key, Mode};

fn app() -> App {
    App::new(Config::default())
}

fn s(x: &str) -> String {
    x.to_string()
}

fn typed(a: &mut App, text: &str) {
    for c in text.chars() {
        assert!(matches!(a.handle_key(Key::Char(c)), Action::Nothing));
    }
}

#[test]
fn starts_on_an_empty_search() {
    let a = app();
    assert_eq!(a.mode, Mode::Search);
    assert!(a.input.is_empty() && a.log.is_empty() && !a.quit);
    assert_eq!(a.selected_arch, 0);
    assert_eq!(a.list_selected, None);
}

#[test]
fn typing_and_backspace() {
    let mut a = app();
    typed(&mut a, "maps");
    assert_eq!(a.input, "maps");
    a.handle_key(Key::Backspace);
    assert_eq!(a.input, "map");
    a.handle_key(Key::Char('s'));
    a.handle_key(Key::Backspace);
    assert_eq!(a.input, "map");
    let mut e = app();
    e.handle_key(Key::Backspace);
    assert_eq!(e.input, "");
}

#[test]
fn q_quits_even_while_typing() {
    let mut a = app();
    typed(&mut a, "ab");
    a.handle_key(Key::Char('q'));
    assert!(a.quit);
    assert_eq!(a.input, "ab");
}

#[test]
fn tab_cycles_architectures() {
    let mut a = app();
    for want in [1usize, 2, 3, 0, 1] {
        a.handle_key(Key::Tab);
        assert_eq!(a.selected_arch, want);
    }
}

#[test]
fn enter_asks_for_a_search_only_with_text() {
    let mut a = app();
    assert!(matches!(a.handle_key(Key::Enter), Action::Nothing));
    typed(&mut a, "chess");
    match a.handle_key(Key::Enter) {
        Action::Search(q) => assert_eq!(q, "chess"),
        other => panic!("unexpected {:?}", other),
    }
}

#[test]
fn search_without_results_logs_it() {
    let mut a = app();
    a.apply_search_results(vec![]);
    assert_eq!(a.mode, Mode::Search);
    assert_eq!(a.log, vec![s("No results found.")]);
}

fn to_versions(a: &mut App) {
    a.apply_search_results(vec![(s("Chess"), s("com.chess")), (s("Go"), s("com.go"))]);
    assert_eq!(a.mode, Mode::SelectApp);
    assert_eq!(a.list_selected, Some(0));
    a.handle_key(Key::Down);
    a.handle_key(Key::Down);
    assert_eq!(a.list_selected, Some(1));
    match a.handle_key(Key::Enter) {
        Action::FetchVersions(p) => assert_eq!(p, "com.go"),
        other => panic!("unexpected {:?}", other),
    }
    assert_eq!(a.selected_pkg, "com.go");
    assert_eq!(a.log.last().unwrap(), "Fetching versions for com.go...");
}

#[test]
fn choosing_an_app_fetches_its_versions() {
    let mut a = app();
    to_versions(&mut a);
    a.apply_versions(
        Some(vec![Version { label: s("1.0"), url: s("https://m/1") }]),
        None,
    );
    assert_eq!(a.mode, Mode::SelectVersion);
    assert_eq!(
        a.versions,
        vec![
            Version { label: s("(latest)"), url: s("") },
            Version { label: s("[Mirror] 1.0"), url: s("https://m/1") },
        ]
    );
}

#[test]
fn enter_on_latest_downloads_without_a_version_page() {
    let mut a = app();
    to_versions(&mut a);
    a.apply_versions(None, Some(vec![Version { label: s("2.0"), url: s("https://p/2") }]));
    a.handle_key(Key::Tab);
    match a.handle_key(Key::Enter) {
        Action::Download(r) => {
            assert_eq!(r.pkg, "com.go");
            assert_eq!(r.arch, "armeabi_v7a");
            assert_eq!(r.version_url, None);
        },
        other => panic!("unexpected {:?}", other),
    }
    assert_eq!(a.log.last().unwrap(), "Downloading com.go (arch: armeabi_v7a)...");
}

#[test]
fn enter_on_a_version_downloads_that_page() {
    let mut a = app();
    to_versions(&mut a);
    a.apply_versions(None, Some(vec![Version { label: s("2.0"), url: s("https://p/2") }]));
    a.handle_key(Key::Down);
    a.handle_key(Key::Down);
    a.handle_key(Key::Down);
    assert_eq!(a.list_selected, Some(1));
    a.handle_key(Key::Up);
    a.handle_key(Key::Down);
    match a.handle_key(Key::Enter) {
        Action::Download(r) => assert_eq!(r.version_url, Some(s("https://p/2"))),
        other => panic!("unexpected {:?}", other),
    }
}

#[test]
fn finishing_a_download() {
    let mut a = app();
    a.note_source_failure("Google Play", "boom");
    assert_eq!(a.log.last().unwrap(), "Google Play: boom");
    a.finish_download(Err(s("all failed")));
    assert_eq!(a.mode, Mode::Done);
    assert!(!a.download_ok);
    assert_eq!(a.download_msg, "all failed");
    assert_eq!(a.log.last().unwrap(), "Failed: all failed");
    a.finish_download(Ok((s("Done! x.apk (1.0 MB)"), s("x.apk"))));
    assert!(a.download_ok);
    assert_eq!(a.download_msg, "x.apk");
    // Enter on the result screen starts over
    typed(&mut a, "zz");
    assert_eq!(a.input, "");
    a.handle_key(Key::Enter);
    assert_eq!(a.mode, Mode::Search);
    assert!(a.log.is_empty());
}

#[test]
fn esc_goes_back_to_search() {
    let mut a = app();
    to_versions(&mut a);
    a.handle_key(Key::Esc);
    assert_eq!(a.mode, Mode::Search);
    assert!(a.input.is_empty());
    assert!(a.search_results.is_empty());
}

#[test]
fn up_stops_at_the_top() {
    let mut a = app();
    a.apply_search_results(vec![(s("A"), s("a.b"))]);
    a.handle_key(Key::Up);
    assert_eq!(a.list_selected, Some(0));
    a.handle_key(Key::Down);
    assert_eq!(a.list_selected, Some(0));
}

#[test]
fn enter_after_a_search_picks_the_first_result() {
    let mut a = app();
    a.apply_search_results(vec![(s("Chess"), s("com.chess")), (s("Go"), s("com.go"))]);
    match a.handle_key(Key::Enter) {
        Action::FetchVersions(p) => assert_eq!(p, "com.chess"),
        other => panic!("unexpected {:?}", other),
    }
}

#[test]
fn keys_on_other_screens_do_not_edit_the_search() {
    let mut a = app();
    typed(&mut a, "ab");
    a.apply_search_results(vec![(s("A"), s("a.b"))]);
    a.handle_key(Key::Char('x'));
    a.handle_key(Key::Backspace);
    assert_eq!(a.input, "ab");
    assert!(matches!(a.handle_key(Key::Other), Action::Nothing));
}
