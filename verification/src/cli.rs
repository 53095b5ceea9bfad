//! The choices of the command line: which sources to try, which architecture, which search
//! result, and the names that files are written under.

use vstd::prelude::*;

use crate::text::{
    after_last, after_last_char, chars_of, contains_char, decimal, decimal_of, has_suffix,
    parse_usize, parses_as_usize, digits_value, unsigned_digits, push_all, push_str_chars,
    replace_char, replace_char_with, string_of, trim, trim_chars,
};

verus! {

/// The download sources, in the order they are tried.
pub const SOURCE_NAMES: [&'static str; 3] = ["Google Play", "APKMirror", "APKPure"];

/// The name of source `i < 3`.
pub open spec fn source_names() -> Seq<Seq<char>> {
    seq!["Google Play"@, "APKMirror"@, "APKPure"@]
}

/// The name of source `i`.
pub fn source_name(i: usize) -> (res: &'static str)
    requires
        i < 3,
    ensures
        res@ == source_names()[i as int],
{
    SOURCE_NAMES[i]
}

/// The source that `--source` names: `gplay`, `apkmirror` or `apkpure`.
pub open spec fn source_index_spec(name: Seq<char>) -> Option<usize> {
    if name == "gplay"@ {
        Some(0)
    } else if name == "apkmirror"@ {
        Some(1)
    } else if name == "apkpure"@ {
        Some(2)
    } else {
        None
    }
}

/// The source that `--source` names, if it names one.
pub fn source_index(name: &str) -> (res: Option<usize>)
    ensures
        res == source_index_spec(name@),
        res matches Some(i) ==> i < 3,
{
    let n = chars_of(name);
    if crate::text::seq_equal(&n, &chars_of("gplay")) {
        Some(0)
    } else if crate::text::seq_equal(&n, &chars_of("apkmirror")) {
        Some(1)
    } else if crate::text::seq_equal(&n, &chars_of("apkpure")) {
        Some(2)
    } else {
        None
    }
}

/// The sources to try, in order: the forced one alone, else all three.
pub open spec fn sources_to_try_spec(force: Option<usize>) -> Seq<usize> {
    match force {
        Some(i) => seq![i],
        None => seq![0usize, 1usize, 2usize],
    }
}

/// The sources to try, in order; the download stops at the first that succeeds.
pub fn sources_to_try(force: Option<usize>) -> (res: Vec<usize>)
    ensures
        res@ == sources_to_try_spec(force),
{
    let mut v: Vec<usize> = Vec::new();
    match force {
        Some(i) => {
            v.push(i);
        },
        None => {
            v.push(0);
            v.push(1);
            v.push(2);
        },
    }
    assert(v@ =~= sources_to_try_spec(force));
    v
}

/// A forced source is the only one tried; without one, all three are tried, Google Play
/// first, each once.
pub proof fn law_forced_source_alone(force: Option<usize>)
    ensures
        force matches Some(i) ==> sources_to_try_spec(force).len() == 1
            && sources_to_try_spec(force)[0] == i,
        force is None ==> sources_to_try_spec(force).len() == 3 && forall|k: int|
            0 <= k < 3 ==> #[trigger] sources_to_try_spec(force)[k] == k,
{
}

/// The architecture used when neither `--arch` nor `APKDL_ARCH` names one.
pub const DEFAULT_ARCH: &'static str = "arm64_v8a";

/// The architecture: the `--arch` option, else the `APKDL_ARCH` variable, else `arm64_v8a`.
pub fn choose_arch(option: Option<String>, env: Option<String>) -> (res: String)
    ensures
        res@ == match option {
            Some(a) => a@,
            None => match env {
                Some(e) => e@,
                None => DEFAULT_ARCH@,
            },
        },
{
    match option {
        Some(a) => a,
        None => match env {
            Some(e) => e,
            None => crate::text::string_from(DEFAULT_ARCH),
        },
    }
}

/// A query with a dot is taken as a package id as it stands.
pub fn is_package_id(query: &str) -> (res: bool)
    ensures
        res == query@.contains('.'),
{
    contains_char(&chars_of(query), '.')
}

/// The title and package to show for a search result: the one with a dot is the package.
pub open spec fn shown_pair(t: Seq<char>, p: Seq<char>) -> (Seq<char>, Seq<char>) {
    if p.contains('.') {
        (t, p)
    } else {
        (p, t)
    }
}

/// The line listing search result number `n` (counting from 1).
pub open spec fn result_line_spec(n: nat, t: Seq<char>, p: Seq<char>) -> Seq<char> {
    let sp = shown_pair(t, p);
    decimal(n) + ". "@ + sp.0 + " ("@ + sp.1 + seq![')']
}

/// The line listing a search result: `{n}. {title} ({package})`.
pub fn result_line(n: u64, t: &str, p: &str) -> (res: String)
    ensures
        res@ == result_line_spec(n as nat, t@, p@),
{
    let tv = chars_of(t);
    let pv = chars_of(p);
    let (a, b) = if contains_char(&pv, '.') {
        (tv, pv)
    } else {
        (pv, tv)
    };
    let mut out = decimal_of(n);
    push_str_chars(&mut out, ". ");
    push_all(&mut out, &a);
    push_str_chars(&mut out, " (");
    push_all(&mut out, &b);
    out.push(')');
    string_of(&out)
}

/// The package that choice `idx` (counting from 0, past the end meaning the last) stands for:
/// the part of the result with a dot, the package part when neither has one.
pub open spec fn picked_package(results: Seq<(Seq<char>, Seq<char>)>, idx: int) -> Seq<char> {
    let i = if idx < results.len() - 1 {
        idx
    } else {
        results.len() - 1
    };
    let t = results[i].0;
    let p = results[i].1;
    if p.contains('.') {
        p
    } else if t.contains('.') {
        t
    } else {
        p
    }
}

/// The package that choice `idx` stands for among non-empty `results`.
pub fn pick_package(results: &Vec<(String, String)>, idx: usize) -> (res: String)
    requires
        results.len() > 0,
    ensures
        res@ == picked_package(crate::search::pairs_view(*results), idx as int),
{
    let last = results.len() - 1;
    let i = if idx < last {
        idx
    } else {
        last
    };
    let t = &results[i].0;
    let p = &results[i].1;
    if contains_char(&chars_of(p.as_str()), '.') {
        p.clone()
    } else if contains_char(&chars_of(t.as_str()), '.') {
        t.clone()
    } else {
        p.clone()
    }
}

/// The choice typed at the prompt, counting from 0: the number typed less one, 0 for `0`,
/// and the first for anything that is not a number.
pub open spec fn choice_spec(line: Seq<char>) -> usize {
    let t = trim(line);
    let n = if parses_as_usize(t) {
        digits_value(unsigned_digits(t))
    } else {
        1
    };
    if n >= 1 {
        (n - 1) as usize
    } else {
        0
    }
}

/// Reads the choice typed at the prompt.
pub fn parse_choice(line: &str) -> (res: usize)
    ensures
        res == choice_spec(line@),
{
    let t = trim_chars(&chars_of(line));
    let n: usize = match parse_usize(&t) {
        Some(v) => v,
        None => 1,
    };
    n.saturating_sub(1)
}

/// The file an app is saved as: the last part of its package id, with `.apk`.
pub open spec fn default_apk_name_spec(pkg: Seq<char>) -> Seq<char> {
    after_last(pkg, '.') + ".apk"@
}

/// The file an app is saved as by default.
pub fn default_apk_name(pkg: &str) -> (res: String)
    ensures
        res@ == default_apk_name_spec(pkg@),
{
    let mut out = after_last_char(&chars_of(pkg), '.');
    push_str_chars(&mut out, ".apk");
    string_of(&out)
}

/// The default file name is the package id's last dot-separated part followed by `.apk`:
/// what comes before `.apk` is an end of the id that holds no dot, and it is either the whole
/// id or starts right after a dot.
pub proof fn law_default_name_is_last_part(pkg: Seq<char>)
    ensures
        ({
            let name = default_apk_name_spec(pkg);
            let stem = name.take(name.len() - 4);
            &&& name.len() >= 4
            &&& name.skip(name.len() - 4) == ".apk"@
            &&& stem.len() <= pkg.len()
            &&& stem == pkg.skip(pkg.len() - stem.len())
            &&& !stem.contains('.')
            &&& stem.len() < pkg.len() ==> pkg[pkg.len() - stem.len() - 1] == '.'
        }),
{
    crate::text::lemma_after_last_is_tail(pkg, '.');
    let t = after_last(pkg, '.');
    let name = default_apk_name_spec(pkg);
    reveal_strlit(".apk");
    assert(name.take(name.len() - 4) =~= t);
    assert(name.skip(name.len() - 4) =~= ".apk"@);
}

/// The output given is a directory: it exists as one, or it ends with `/`.
pub fn output_is_directory(spec: &str, is_dir: bool) -> (res: bool)
    ensures
        res == (is_dir || has_suffix(spec@, seq!['/'])),
{
    is_dir || crate::text::ends_with_char(&chars_of(spec), '/')
}

/// The scratch file a download is assembled in: `{pkg with _ for .}_download_tmp`.
pub open spec fn download_tmp_name_spec(pkg: Seq<char>) -> Seq<char> {
    replace_char(pkg, '.', seq!['_']) + "_download_tmp"@
}

/// The scratch file a download is assembled in.
pub fn download_tmp_name(pkg: &str) -> (res: String)
    ensures
        res@ == download_tmp_name_spec(pkg@),
{
    proof {
        reveal_strlit("_");
        assert("_"@ =~= seq!['_']);
    }
    let mut out = replace_char_with(&chars_of(pkg), '.', "_");
    push_str_chars(&mut out, "_download_tmp");
    string_of(&out)
}

/// What `str::to_lowercase` returns: the Unicode lower case of the text.
pub uninterp spec fn lowercase(s: Seq<char>) -> Seq<char>;

/// `str::to_lowercase`; its result is named, not restated.
#[verifier::external_body]
fn to_lowercase(s: &str) -> (res: String)
    ensures
        res@ == lowercase(s@),
{
    s.to_lowercase()
}

/// The scratch file of one source: its name with `_` for spaces, in lower case, then `_tmp`.
pub open spec fn source_tmp_name_spec(name: Seq<char>) -> Seq<char> {
    lowercase(replace_char(name, ' ', seq!['_'])) + "_tmp"@
}

/// The scratch file name for a source name already in lower case.
pub fn tmp_name_from_lowercase(lower: &str) -> (res: String)
    ensures
        res@ == lower@ + "_tmp"@,
{
    let mut out = chars_of(lower);
    push_str_chars(&mut out, "_tmp");
    string_of(&out)
}

/// The scratch file of the source named `name`.
pub fn source_tmp_name(name: &str) -> (res: String)
    ensures
        res@ == source_tmp_name_spec(name@),
{
    proof {
        reveal_strlit("_");
        assert("_"@ =~= seq!['_']);
    }
    let underscored = string_of(&replace_char_with(&chars_of(name), ' ', "_"));
    let lower = to_lowercase(underscored.as_str());
    tmp_name_from_lowercase(lower.as_str())
}

/// The file the interface saves an app as: the package id in lower case with `_` for dots,
/// then `.apk`.
pub open spec fn tui_output_name_spec(pkg: Seq<char>) -> Seq<char> {
    replace_char(lowercase(pkg), '.', seq!['_']) + ".apk"@
}

/// The output file name for a package id already in lower case: `_` for dots, then `.apk`.
pub fn output_name_from_lowercase(lower: &str) -> (res: String)
    ensures
        res@ == replace_char(lower@, '.', seq!['_']) + ".apk"@,
{
    proof {
        reveal_strlit("_");
        assert("_"@ =~= seq!['_']);
    }
    let mut out = replace_char_with(&chars_of(lower), '.', "_");
    push_str_chars(&mut out, ".apk");
    string_of(&out)
}

/// The file the interface saves an app as.
pub fn tui_output_name(pkg: &str) -> (res: String)
    ensures
        res@ == tui_output_name_spec(pkg@),
{
    let lower = to_lowercase(pkg);
    output_name_from_lowercase(lower.as_str())
}

} // verus!

verus! {

/// Typing the number `n` shown before a search result chooses that result: the choice is
/// `n - 1`, counting from 0.
pub proof fn law_typed_number_chooses_it(n: nat)
    requires
        1 <= n <= usize::MAX,
    ensures
        choice_spec(decimal(n)) == n - 1,
{
    crate::text::lemma_decimal_untrimmed(n);
    crate::text::law_decimal_reads_back(n);
}

} // verus!

verus! {

// ---------------------------------------------------------------------------
// Trying sources in turn
// ---------------------------------------------------------------------------

/// The outcome of each try, as values.
pub open spec fn outcomes_view(v: Vec<Result<(), String>>) -> Seq<Result<(), Seq<char>>> {
    v@.map_values(|r: Result<(), String>| match r {
        Ok(()) => Ok(()),
        Err(e) => Err(e@),
    })
}

/// The error left after the tries `outs`, `last` being the error before them: a success
/// clears it and ends the tries, a failure replaces it.
pub open spec fn error_after(outs: Seq<Result<(), Seq<char>>>, last: Seq<char>) -> Seq<char>
    decreases outs.len(),
{
    if outs.len() == 0 {
        last
    } else {
        match outs[0] {
            Ok(()) => Seq::empty(),
            Err(e) => error_after(outs.drop_first(), e),
        }
    }
}

/// The error before any source is tried.
pub open spec fn none_tried() -> Seq<char> {
    "no source tried"@
}

/// The result of trying sources in turn: success when the error left is empty (a source
/// succeeded), else that error — the last source's, or `no source tried`.
pub open spec fn fallback_spec(outs: Seq<Result<(), Seq<char>>>) -> Result<(), Seq<char>> {
    let e = error_after(outs, none_tried());
    if e.len() == 0 {
        Ok(())
    } else {
        Err(e)
    }
}

proof fn lemma_error_after(outs: Seq<Result<(), Seq<char>>>, last: Seq<char>)
    ensures
        (exists|i: int| 0 <= i < outs.len() && #[trigger] outs[i] is Ok) ==> error_after(
            outs,
            last,
        ).len() == 0,
        (forall|i: int| 0 <= i < outs.len() ==> #[trigger] outs[i] is Err) && outs.len() > 0
            ==> error_after(outs, last) == outs.last()->Err_0,
    decreases outs.len(),
{
    if outs.len() > 0 {
        lemma_error_after(outs.drop_first(), outs[0]->Err_0);
        if outs[0] is Err {
            assert forall|i: int| 0 <= i < outs.len() && #[trigger] outs[i] is Ok implies 0 < i
                && outs.drop_first()[i - 1] is Ok by {}
        }
    }
}

/// Trying sources in turn succeeds when one of them succeeds; when every one fails it ends
/// with the last one's error, unless that error is empty; with no source tried it ends with
/// `no source tried`.
pub proof fn law_fallback_outcome(outs: Seq<Result<(), Seq<char>>>)
    ensures
        (exists|i: int| 0 <= i < outs.len() && #[trigger] outs[i] is Ok) ==> fallback_spec(outs) is Ok,
        (forall|i: int| 0 <= i < outs.len() ==> #[trigger] outs[i] is Err) && outs.len() > 0
            && outs.last()->Err_0.len() > 0 ==> fallback_spec(outs) == Err::<(), Seq<char>>(
            outs.last()->Err_0,
        ),
        outs.len() == 0 ==> fallback_spec(outs) == Err::<(), Seq<char>>(none_tried()),
{
    lemma_error_after(outs, none_tried());
    reveal_strlit("no source tried");
}

/// The result of trying the sources whose outcomes, in order, are `outcomes`.
pub fn fallback_result(outcomes: &Vec<Result<(), String>>) -> (res: Result<(), String>)
    ensures
        match res {
            Ok(()) => fallback_spec(outcomes_view(*outcomes)) is Ok,
            Err(e) => fallback_spec(outcomes_view(*outcomes)) == Err::<(), Seq<char>>(e@),
        },
{
    let ghost all = outcomes_view(*outcomes);
    let mut last = crate::text::string_from("no source tried");
    let mut i: usize = 0;
    assert(all.skip(0) =~= all);
    while i < outcomes.len()
        invariant
            0 <= i <= outcomes.len(),
            all == outcomes_view(*outcomes),
            error_after(all, none_tried()) == error_after(all.skip(i as int), last@),
        decreases outcomes.len() - i,
    {
        assert(all.skip(i as int).drop_first() =~= all.skip(i + 1));
        match &outcomes[i] {
            Ok(()) => {
                return Ok(());
            },
            Err(e) => {
                last = e.clone();
            },
        }
        i = i + 1;
    }
    if last.as_str().is_empty() {
        Ok(())
    } else {
        Err(last)
    }
}

/// The result of trying download links in turn: success when one succeeded, else `failure`.
pub fn first_success(outcomes: &Vec<Result<(), String>>, failure: &str) -> (res: Result<(), String>)
    ensures
        match res {
            Ok(()) => exists|i: int| 0 <= i < outcomes@.len() && #[trigger] outcomes@[i] is Ok,
            Err(e) => e@ == failure@ && forall|i: int| 0 <= i < outcomes@.len() ==> #[trigger] outcomes@[i] is Err,
        },
{
    let mut i: usize = 0;
    while i < outcomes.len()
        invariant
            0 <= i <= outcomes.len(),
            forall|j: int| 0 <= j < i ==> #[trigger] outcomes@[j] is Err,
        decreases outcomes.len() - i,
    {
        if outcomes[i].is_ok() {
            return Ok(());
        }
        i = i + 1;
    }
    Err(crate::text::string_from(failure))
}

} // verus!
