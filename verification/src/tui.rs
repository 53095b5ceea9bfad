//! The terminal interface as a state machine: each key press moves the state and names the
//! outside work (a search, a version lookup, a download) that the caller performs and reports
//! back.

use vstd::prelude::*;

use crate::config::Config;
use crate::search::{pairs_view, versions_view, Version};
use crate::text::{chars_of, push_str_chars, string_of};
use crate::util::{arch_name, arch_names};

verus! {

/// The screen being shown.
#[derive(Debug, Clone, Copy, PartialEq, Eq, Structural)]
pub enum Mode {
    Search,
    SelectApp,
    SelectVersion,
    Downloading,
    Done,
}

/// A key press, as far as the interface tells keys apart.
#[derive(Debug, Clone, Copy, PartialEq, Eq, Structural)]
pub enum Key {
    Char(char),
    Tab,
    Esc,
    Enter,
    Down,
    Up,
    Backspace,
    Other,
}

/// A download to perform.
#[derive(Debug)]
pub struct DownloadRequest {
    pub pkg: String,
    pub arch: String,
    pub version_url: Option<String>,
}

/// The outside work that a key press asks for.
#[derive(Debug)]
pub enum Action {
    Nothing,
    /// Search the store for this text; report with `App::apply_search_results`.
    Search(String),
    /// Look up the versions of this package; report with `App::apply_versions`.
    FetchVersions(String),
    /// Download; report with `App::note_source_failure` and `App::finish_download`.
    Download(DownloadRequest),
}

/// An action as values.
pub enum ActionView {
    Nothing,
    Search(Seq<char>),
    FetchVersions(Seq<char>),
    Download(Seq<char>, Seq<char>, Option<Seq<char>>),
}

impl View for Action {
    type V = ActionView;

    open spec fn view(&self) -> ActionView {
        match self {
            Action::Nothing => ActionView::Nothing,
            Action::Search(q) => ActionView::Search(q@),
            Action::FetchVersions(p) => ActionView::FetchVersions(p@),
            Action::Download(r) => ActionView::Download(
                r.pkg@,
                r.arch@,
                crate::scrape::opt_text(r.version_url),
            ),
        }
    }
}

/// The interface's state.
pub struct App {
    pub mode: Mode,
    pub input: String,
    pub search_results: Vec<(String, String)>,
    /// The highlighted row of the list on screen.
    pub list_selected: Option<usize>,
    pub versions: Vec<Version>,
    pub selected_pkg: String,
    /// Index into `ARCHES`.
    pub selected_arch: usize,
    pub log: Vec<String>,
    pub download_ok: bool,
    pub download_msg: String,
    pub quit: bool,
    pub cfg: Config,
}

/// The state as values.
pub struct AppView {
    pub mode: Mode,
    pub input: Seq<char>,
    pub search_results: Seq<(Seq<char>, Seq<char>)>,
    pub list_selected: Option<usize>,
    pub versions: Seq<(Seq<char>, Seq<char>)>,
    pub selected_pkg: Seq<char>,
    pub selected_arch: usize,
    pub log: Seq<Seq<char>>,
    pub download_ok: bool,
    pub download_msg: Seq<char>,
    pub quit: bool,
}

/// The texts of a list of strings.
pub open spec fn lines_view(v: Vec<String>) -> Seq<Seq<char>> {
    v@.map_values(|s: String| s@)
}

impl View for App {
    type V = AppView;

    open spec fn view(&self) -> AppView {
        AppView {
            mode: self.mode,
            input: self.input@,
            search_results: pairs_view(self.search_results),
            list_selected: self.list_selected,
            versions: versions_view(self.versions),
            selected_pkg: self.selected_pkg@,
            selected_arch: self.selected_arch,
            log: lines_view(self.log),
            download_ok: self.download_ok,
            download_msg: self.download_msg@,
            quit: self.quit,
        }
    }
}

/// The number of architectures one can cycle through.
pub const ARCH_COUNT: usize = 4;

/// A well-formed state: the architecture index is in range, and the highlighted row can
/// still move down without overflow.
pub open spec fn state_ok(s: AppView) -> bool {
    &&& s.selected_arch < ARCH_COUNT
    &&& s.list_selected matches Some(i) ==> i < usize::MAX
}

/// The last row that the highlight can move to: rows of whichever list is longer.
pub open spec fn last_row(s: AppView) -> int {
    let n = if s.search_results.len() >= s.versions.len() {
        s.search_results.len()
    } else {
        s.versions.len()
    };
    if n >= 1 {
        n - 1
    } else {
        0
    }
}

/// `Fetching versions for {pkg}...`
pub open spec fn fetch_line(pkg: Seq<char>) -> Seq<char> {
    "Fetching versions for "@ + pkg + "..."@
}

/// `Downloading {pkg} (arch: {arch})...`
pub open spec fn download_line(pkg: Seq<char>, arch: Seq<char>) -> Seq<char> {
    "Downloading "@ + pkg + " (arch: "@ + arch + ")..."@
}

/// The page of the highlighted version, unless it is the `(latest)` entry without one.
pub open spec fn chosen_version_url(s: AppView) -> Option<Seq<char>> {
    match s.list_selected {
        Some(i) => if i < s.versions.len() && s.versions[i as int].1.len() > 0 {
            Some(s.versions[i as int].1)
        } else {
            None
        },
        None => None,
    }
}

/// What Enter does on each screen.
pub open spec fn enter_step(s: AppView) -> (AppView, ActionView) {
    match s.mode {
        Mode::Search => if s.input.len() > 0 {
            (s, ActionView::Search(s.input))
        } else {
            (s, ActionView::Nothing)
        },
        Mode::SelectApp => match s.list_selected {
            Some(i) => if i < s.search_results.len() {
                let pkg = s.search_results[i as int].1;
                (
                    AppView { selected_pkg: pkg, log: s.log.push(fetch_line(pkg)), ..s },
                    ActionView::FetchVersions(pkg),
                )
            } else {
                (s, ActionView::Nothing)
            },
            None => (s, ActionView::Nothing),
        },
        Mode::SelectVersion => {
            let arch = arch_names()[s.selected_arch as int];
            (
                AppView { log: s.log.push(download_line(s.selected_pkg, arch)), ..s },
                ActionView::Download(s.selected_pkg, arch, chosen_version_url(s)),
            )
        },
        Mode::Done => (
            AppView { mode: Mode::Search, input: Seq::empty(), log: Seq::empty(), ..s },
            ActionView::Nothing,
        ),
        Mode::Downloading => (s, ActionView::Nothing),
    }
}

/// What a key press does: the next state and the outside work it asks for.
pub open spec fn key_step(s: AppView, k: Key) -> (AppView, ActionView) {
    match k {
        Key::Char(c) => if c == 'q' {
            (AppView { quit: true, ..s }, ActionView::Nothing)
        } else if s.mode == Mode::Search {
            (AppView { input: s.input.push(c), ..s }, ActionView::Nothing)
        } else {
            (s, ActionView::Nothing)
        },
        Key::Tab => (
            AppView { selected_arch: ((s.selected_arch + 1) % (ARCH_COUNT as int)) as usize, ..s },
            ActionView::Nothing,
        ),
        Key::Esc => (
            AppView { mode: Mode::Search, input: Seq::empty(), search_results: Seq::empty(), ..s },
            ActionView::Nothing,
        ),
        Key::Enter => enter_step(s),
        Key::Down => match s.list_selected {
            Some(i) => {
                let next = if i + 1 <= last_row(s) {
                    i + 1
                } else {
                    last_row(s)
                };
                (AppView { list_selected: Some(next as usize), ..s }, ActionView::Nothing)
            },
            None => (s, ActionView::Nothing),
        },
        Key::Up => match s.list_selected {
            Some(i) => {
                let prev: usize = if i > 0 {
                    (i - 1) as usize
                } else {
                    0
                };
                (AppView { list_selected: Some(prev), ..s }, ActionView::Nothing)
            },
            None => (s, ActionView::Nothing),
        },
        Key::Backspace => if s.mode == Mode::Search && s.input.len() > 0 {
            (AppView { input: s.input.drop_last(), ..s }, ActionView::Nothing)
        } else {
            (s, ActionView::Nothing)
        },
        Key::Other => (s, ActionView::Nothing),
    }
}

/// `String::push`.
#[verifier::external_body]
fn string_push(s: &mut String, c: char)
    ensures
        final(s)@ == old(s)@.push(c),
{
    s.push(c)
}

/// `String::pop`.
#[verifier::external_body]
fn string_pop(s: &mut String) -> (res: Option<char>)
    ensures
        old(s)@.len() == 0 ==> res is None && final(s)@ == old(s)@,
        old(s)@.len() > 0 ==> res == Some(old(s)@.last()) && final(s)@ == old(s)@.drop_last(),
{
    s.pop()
}

/// Pushes a line onto a log.
fn push_line(log: &mut Vec<String>, line: Vec<char>)
    ensures
        lines_view(*final(log)) == lines_view(*old(log)).push(line@),
{
    let ghost before = lines_view(*log);
    log.push(string_of(&line));
    assert(lines_view(*log) =~= before.push(line@));
}

impl App {
    /// A well-formed state (see `state_ok`).
    pub open spec fn wf(&self) -> bool {
        state_ok(self@)
    }

    /// The search screen with nothing typed, nothing found and an empty log.
    pub fn new(cfg: Config) -> (res: App)
        ensures
            res.wf(),
            res@.mode == Mode::Search,
            res@.input.len() == 0,
            res@.search_results.len() == 0,
            res@.list_selected is None,
            res@.versions.len() == 0,
            res@.selected_pkg.len() == 0,
            res@.selected_arch == 0,
            res@.log.len() == 0,
            !res@.download_ok,
            res@.download_msg.len() == 0,
            !res@.quit,
            res.cfg == cfg,
    {
        let app = App {
            mode: Mode::Search,
            input: String::new(),
            search_results: Vec::new(),
            list_selected: None,
            versions: Vec::new(),
            selected_pkg: String::new(),
            selected_arch: 0,
            log: Vec::new(),
            download_ok: false,
            download_msg: String::new(),
            quit: false,
            cfg,
        };
        assert(app@.search_results =~= Seq::<(Seq<char>, Seq<char>)>::empty());
        assert(app@.versions =~= Seq::<(Seq<char>, Seq<char>)>::empty());
        assert(app@.log =~= Seq::<Seq<char>>::empty());
        app
    }

    fn enter(&mut self) -> (act: Action)
        requires
            old(self).wf(),
        ensures
            final(self).wf(),
            (final(self)@, act@) == enter_step(old(self)@),
            final(self).cfg == old(self).cfg,
    {
        match self.mode {
            Mode::Search => {
                if !self.input.as_str().is_empty() {
                    Action::Search(self.input.clone())
                } else {
                    Action::Nothing
                }
            },
            Mode::SelectApp => {
                match self.list_selected {
                    Some(i) => {
                        if i < self.search_results.len() {
                            let pkg = self.search_results[i].1.clone();
                            assert(pkg@ == self@.search_results[i as int].1);
                            self.selected_pkg = pkg.clone();
                            let mut line: Vec<char> = Vec::new();
                            push_str_chars(&mut line, "Fetching versions for ");
                            push_str_chars(&mut line, pkg.as_str());
                            push_str_chars(&mut line, "...");
                            push_line(&mut self.log, line);
                            Action::FetchVersions(pkg)
                        } else {
                            Action::Nothing
                        }
                    },
                    None => Action::Nothing,
                }
            },
            Mode::SelectVersion => {
                let version_url: Option<String> = match self.list_selected {
                    Some(i) => {
                        if i < self.versions.len() && !self.versions[i].url.as_str().is_empty() {
                            assert(self@.versions[i as int] == self.versions@[i as int]@);
                            Some(self.versions[i].url.clone())
                        } else {
                            proof {
                                if i < self.versions.len() {
                                    assert(self@.versions[i as int] == self.versions@[i as int]@);
                                }
                            }
                            None
                        }
                    },
                    None => None,
                };
                let arch = arch_name(self.selected_arch);
                let pkg = self.selected_pkg.clone();
                let mut line: Vec<char> = Vec::new();
                push_str_chars(&mut line, "Downloading ");
                push_str_chars(&mut line, pkg.as_str());
                push_str_chars(&mut line, " (arch: ");
                push_str_chars(&mut line, arch);
                push_str_chars(&mut line, ")...");
                push_line(&mut self.log, line);
                let archs = crate::text::string_from(arch);
                Action::Download(DownloadRequest { pkg, arch: archs, version_url })
            },
            Mode::Done => {
                self.mode = Mode::Search;
                self.input = String::new();
                self.log = Vec::new();
                assert(self@.log =~= Seq::<Seq<char>>::empty());
                Action::Nothing
            },
            Mode::Downloading => Action::Nothing,
        }
    }

    /// Handles a key press: moves to the next state and names the outside work to do.
    pub fn handle_key(&mut self, key: Key) -> (act: Action)
        requires
            old(self).wf(),
        ensures
            final(self).wf(),
            (final(self)@, act@) == key_step(old(self)@, key),
            final(self).cfg == old(self).cfg,
    {
        match key {
            Key::Char(c) => {
                if c == 'q' {
                    self.quit = true;
                } else if self.mode == Mode::Search {
                    string_push(&mut self.input, c);
                }
                Action::Nothing
            },
            Key::Tab => {
                self.selected_arch = (self.selected_arch + 1) % ARCH_COUNT;
                Action::Nothing
            },
            Key::Esc => {
                self.mode = Mode::Search;
                self.input = String::new();
                self.search_results = Vec::new();
                assert(self@.search_results =~= Seq::<(Seq<char>, Seq<char>)>::empty());
                Action::Nothing
            },
            Key::Enter => self.enter(),
            Key::Down => {
                match self.list_selected {
                    Some(i) => {
                        let n = if self.search_results.len() >= self.versions.len() {
                            self.search_results.len()
                        } else {
                            self.versions.len()
                        };
                        let last = if n >= 1 {
                            n - 1
                        } else {
                            0
                        };
                        let next = if i + 1 <= last {
                            i + 1
                        } else {
                            last
                        };
                        self.list_selected = Some(next);
                    },
                    None => {},
                }
                Action::Nothing
            },
            Key::Up => {
                match self.list_selected {
                    Some(i) => {
                        let prev = if i > 0 {
                            i - 1
                        } else {
                            0
                        };
                        self.list_selected = Some(prev);
                    },
                    None => {},
                }
                Action::Nothing
            },
            Key::Backspace => {
                if self.mode == Mode::Search {
                    let _ = string_pop(&mut self.input);
                }
                Action::Nothing
            },
            Key::Other => Action::Nothing,
        }
    }
}

/// `No results found.`
pub open spec fn no_results_line() -> Seq<char> {
    "No results found."@
}

/// What a finished search does: with results, show them with the first highlighted;
/// without, only log that nothing was found.
pub open spec fn after_search(s: AppView, r: Seq<(Seq<char>, Seq<char>)>) -> AppView {
    if r.len() == 0 {
        AppView { log: s.log.push(no_results_line()), ..s }
    } else {
        AppView { search_results: r, list_selected: Some(0), mode: Mode::SelectApp, ..s }
    }
}

/// The versions of one source with `prefix` put before each label.
pub open spec fn labelled(v: Option<Seq<(Seq<char>, Seq<char>)>>, prefix: Seq<char>) -> Seq<
    (Seq<char>, Seq<char>),
> {
    match v {
        Some(vs) => vs.map_values(|x: (Seq<char>, Seq<char>)| (prefix + x.0, x.1)),
        None => Seq::empty(),
    }
}

/// The entry that downloads the latest version: it names no page.
pub open spec fn latest_entry() -> (Seq<char>, Seq<char>) {
    ("(latest)"@, Seq::empty())
}

/// What a finished version lookup does: `(latest)` first, then APKMirror's versions, then
/// APKPure's (a source that failed contributes none), the first row highlighted.
pub open spec fn after_versions(
    s: AppView,
    mirror: Option<Seq<(Seq<char>, Seq<char>)>>,
    pure: Option<Seq<(Seq<char>, Seq<char>)>>,
) -> AppView {
    let all = labelled(mirror, "[Mirror] "@) + labelled(pure, "[Pure] "@);
    AppView {
        versions: seq![latest_entry()] + all,
        list_selected: Some(0),
        mode: Mode::SelectVersion,
        ..s
    }
}

/// The versions of an optional list.
pub open spec fn opt_versions(v: Option<Vec<Version>>) -> Option<Seq<(Seq<char>, Seq<char>)>> {
    match v {
        Some(x) => Some(versions_view(x)),
        None => None,
    }
}

/// `{source}: {error}`
pub open spec fn failure_line(source: Seq<char>, err: Seq<char>) -> Seq<char> {
    source + ": "@ + err
}

/// `Failed: {error}`
pub open spec fn failed_line(err: Seq<char>) -> Seq<char> {
    "Failed: "@ + err
}

/// The state with one more log line.
pub open spec fn logged(s: AppView, line: Seq<char>) -> AppView {
    AppView { log: s.log.push(line), ..s }
}

/// The result screen after a download: `ok` tells success, `line` is logged and `msg` shown.
pub open spec fn after_finish(s: AppView, ok: bool, line: Seq<char>, msg: Seq<char>) -> AppView {
    AppView { log: s.log.push(line), download_ok: ok, download_msg: msg, mode: Mode::Done, ..s }
}

/// Appends the versions of one source, each label prefixed.
fn push_labelled(all: &mut Vec<Version>, src: &Option<Vec<Version>>, prefix: &str)
    ensures
        versions_view(*final(all)) == versions_view(*old(all)) + labelled(opt_versions(*src), prefix@),
{
    match src {
        None => {
            assert(versions_view(*all) =~= versions_view(*all) + Seq::<(Seq<char>, Seq<char>)>::empty());
        },
        Some(v) => {
            let ghost start = versions_view(*all);
            let ghost want = labelled(opt_versions(*src), prefix@);
            let mut i: usize = 0;
            assert(start + want.take(0) =~= start);
            while i < v.len()
                invariant
                    0 <= i <= v.len(),
                    want == versions_view(*v).map_values(
                        |x: (Seq<char>, Seq<char>)| (prefix@ + x.0, x.1),
                    ),
                    versions_view(*all) == start + want.take(i as int),
                decreases v.len() - i,
            {
                let mut label: Vec<char> = Vec::new();
                push_str_chars(&mut label, prefix);
                push_str_chars(&mut label, v[i].label.as_str());
                let ghost before = versions_view(*all);
                all.push(Version { label: string_of(&label), url: v[i].url.clone() });
                assert(versions_view(*all) =~= before.push((label@, v@[i as int].url@)));
                assert(want[i as int] == (prefix@ + v@[i as int].label@, v@[i as int].url@));
                assert(want.take(i + 1) =~= want.take(i as int).push(want[i as int]));
                i = i + 1;
            }
            assert(want.take(v.len() as int) =~= want);
        },
    }
}

impl App {
    /// Reports the results of the search that `Action::Search` asked for.
    pub fn apply_search_results(&mut self, results: Vec<(String, String)>)
        requires
            old(self).wf(),
        ensures
            final(self).wf(),
            final(self)@ == after_search(old(self)@, pairs_view(results)),
            final(self).cfg == old(self).cfg,
    {
        if results.len() == 0 {
            let line = chars_of("No results found.");
            push_line(&mut self.log, line);
            return;
        }
        self.search_results = results;
        self.list_selected = Some(0);
        self.mode = Mode::SelectApp;
    }

    /// Reports the versions that `Action::FetchVersions` asked for, from APKMirror and from
    /// APKPure (`None` for a source that failed).
    pub fn apply_versions(&mut self, mirror: Option<Vec<Version>>, pure: Option<Vec<Version>>)
        requires
            old(self).wf(),
        ensures
            final(self).wf(),
            final(self)@ == after_versions(old(self)@, opt_versions(mirror), opt_versions(pure)),
            final(self).cfg == old(self).cfg,
    {
        let mut all: Vec<Version> = Vec::new();
        all.push(Version { label: crate::text::string_from("(latest)"), url: String::new() });
        assert(versions_view(all) =~= seq![latest_entry()]);
        push_labelled(&mut all, &mirror, "[Mirror] ");
        push_labelled(&mut all, &pure, "[Pure] ");
        assert(versions_view(all) =~= seq![latest_entry()] + (labelled(opt_versions(mirror), "[Mirror] "@)
            + labelled(opt_versions(pure), "[Pure] "@)));
        self.versions = all;
        self.list_selected = Some(0);
        self.mode = Mode::SelectVersion;
    }

    /// Reports that the source named `source` failed with `err` during a download.
    pub fn note_source_failure(&mut self, source: &str, err: &str)
        requires
            old(self).wf(),
        ensures
            final(self).wf(),
            final(self)@ == logged(old(self)@, failure_line(source@, err@)),
            final(self).cfg == old(self).cfg,
    {
        let mut line: Vec<char> = Vec::new();
        push_str_chars(&mut line, source);
        push_str_chars(&mut line, ": ");
        push_str_chars(&mut line, err);
        push_line(&mut self.log, line);
    }

    /// Reports the end of a download: `Ok((done line, output path))` when a source delivered
    /// the app, `Err(last error)` when every source failed.
    pub fn finish_download(&mut self, outcome: Result<(String, String), String>)
        requires
            old(self).wf(),
        ensures
            final(self).wf(),
            final(self).cfg == old(self).cfg,
            final(self)@ == match outcome {
                Ok((line, out)) => after_finish(old(self)@, true, line@, out@),
                Err(e) => after_finish(old(self)@, false, failed_line(e@), e@),
            },
    {
        match outcome {
            Ok((line, out)) => {
                let l = chars_of(line.as_str());
                push_line(&mut self.log, l);
                self.download_ok = true;
                self.download_msg = out;
            },
            Err(e) => {
                let mut l: Vec<char> = Vec::new();
                push_str_chars(&mut l, "Failed: ");
                push_str_chars(&mut l, e.as_str());
                push_line(&mut self.log, l);
                self.download_ok = false;
                self.download_msg = e;
            },
        }
        self.mode = Mode::Done;
    }
}

// ---------------------------------------------------------------------------
// Laws
// ---------------------------------------------------------------------------

/// Every key press keeps the state well-formed.
pub proof fn law_keys_keep_state_ok(s: AppView, k: Key)
    requires
        state_ok(s),
        s.search_results.len() <= usize::MAX,
        s.versions.len() <= usize::MAX,
    ensures
        state_ok(key_step(s, k).0),
{
}

/// `q` quits from every screen, even while typing a search.
pub proof fn law_q_quits(s: AppView)
    ensures
        key_step(s, Key::Char('q')).0.quit,
        key_step(s, Key::Char('q')).1 is Nothing,
{
}

/// Tab cycles through the architectures: four presses come back to the start and change
/// nothing else.
pub proof fn law_tab_cycles(s: AppView)
    requires
        state_ok(s),
    ensures
        key_step(key_step(key_step(key_step(s, Key::Tab).0, Key::Tab).0, Key::Tab).0, Key::Tab).0
            == s,
{
}

/// On the search screen, typing a character other than `q` and then Backspace gives back
/// the text typed before.
pub proof fn law_backspace_undoes_typing(s: AppView, c: char)
    requires
        s.mode == Mode::Search,
        c != 'q',
    ensures
        key_step(key_step(s, Key::Char(c)).0, Key::Backspace).0 == s,
{
    assert(s.input.push(c).drop_last() =~= s.input);
}

/// Esc leads back to an empty search screen from anywhere.
pub proof fn law_esc_resets_search(s: AppView)
    ensures
        key_step(s, Key::Esc).0.mode == Mode::Search,
        key_step(s, Key::Esc).0.input.len() == 0,
        key_step(s, Key::Esc).0.search_results.len() == 0,
{
}

/// A search is asked for only with text typed, and with exactly that text.
pub proof fn law_search_needs_text(s: AppView, k: Key)
    ensures
        key_step(s, k).1 matches ActionView::Search(q) ==> s.mode == Mode::Search && q == s.input
            && q.len() > 0,
{
}

/// The highlight never moves below the last row of the longer list.
pub proof fn law_down_stays_in_list(s: AppView)
    requires
        s.list_selected matches Some(i) && i <= last_row(s),
    ensures
        key_step(s, Key::Down).0.list_selected matches Some(j) && j <= last_row(s),
{
}

/// After a search that found something, Enter looks up the versions of the first result.
pub proof fn law_enter_after_search_picks_first(s: AppView, r: Seq<(Seq<char>, Seq<char>)>)
    requires
        r.len() > 0,
    ensures
        key_step(after_search(s, r), Key::Enter).1 == ActionView::FetchVersions(r[0].1),
{
}

/// After the versions arrive, Enter downloads the latest version (no version page) of the
/// selected package for the selected architecture.
pub proof fn law_enter_after_versions_downloads_latest(
    s: AppView,
    mirror: Option<Seq<(Seq<char>, Seq<char>)>>,
    pure: Option<Seq<(Seq<char>, Seq<char>)>>,
)
    requires
        state_ok(s),
    ensures
        key_step(after_versions(s, mirror, pure), Key::Enter).1 == ActionView::Download(
            s.selected_pkg,
            arch_names()[s.selected_arch as int],
            None,
        ),
{
    let t = after_versions(s, mirror, pure);
    assert(t.versions[0] == latest_entry());
}

/// The versions of a source that answered, none for one that failed.
pub open spec fn answered(v: Option<Seq<(Seq<char>, Seq<char>)>>) -> Seq<(Seq<char>, Seq<char>)> {
    match v {
        Some(vs) => vs,
        None => Seq::empty(),
    }
}

/// After a version lookup the list offers `(latest)`, then every version APKMirror gave, then
/// every version APKPure gave, each once and in the order given, labelled with its source and
/// keeping its page; nothing else is listed.
pub proof fn law_versions_list_every_answer(
    s: AppView,
    mirror: Option<Seq<(Seq<char>, Seq<char>)>>,
    pure: Option<Seq<(Seq<char>, Seq<char>)>>,
)
    ensures
        ({
            let v = after_versions(s, mirror, pure).versions;
            let m = answered(mirror);
            let p = answered(pure);
            &&& v.len() == 1 + m.len() + p.len()
            &&& v[0] == ("(latest)"@, Seq::<char>::empty())
            &&& forall|i: int| 0 <= i < m.len() ==> #[trigger] v[1 + i] == ("[Mirror] "@ + m[i].0, m[i].1)
            &&& forall|j: int| 0 <= j < p.len() ==> #[trigger] v[1 + m.len() + j] == ("[Pure] "@ + p[j].0, p[j].1)
        }),
{
    let v = after_versions(s, mirror, pure).versions;
    let m = answered(mirror);
    let p = answered(pure);
    let lm = labelled(mirror, "[Mirror] "@);
    let lp = labelled(pure, "[Pure] "@);
    assert(lm.len() == m.len());
    assert(lp.len() == p.len());
    assert forall|i: int| 0 <= i < m.len() implies #[trigger] v[1 + i] == ("[Mirror] "@ + m[i].0, m[i].1) by {
        assert(v[1 + i] == lm[i]);
    }
    assert forall|j: int| 0 <= j < p.len() implies #[trigger] v[1 + m.len() + j] == ("[Pure] "@ + p[j].0, p[j].1) by {
        assert(v[1 + m.len() + j] == lp[j]);
    }
}

/// Enter on the result screen starts over with an empty search and an empty log.
pub proof fn law_enter_when_done_starts_over(s: AppView)
    requires
        s.mode == Mode::Done,
    ensures
        key_step(s, Key::Enter).0.mode == Mode::Search,
        key_step(s, Key::Enter).0.input.len() == 0,
        key_step(s, Key::Enter).0.log.len() == 0,
{
}

} // verus!
