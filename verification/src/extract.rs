//! Which files of an unpacked APK bundle make up the app: the base APK and the split APKs
//! that belong to the chosen architecture.

use vstd::prelude::*;

use crate::download::strings_view;
use crate::text::{chars_of, contains_str, has_infix, has_suffix, seq_equal};
use crate::util::{arch_in_name, arch_name, arch_names, first_arch};

verus! {

/// The file name has the extension `apk` (a name that is only `.apk` has no extension).
pub open spec fn is_apk_name(name: Seq<char>) -> bool {
    name.len() > 4 && has_suffix(name, ".apk"@)
}

/// The file is taken as the base APK: it is `base.apk`, or, under the lenient rule, it
/// mentions neither `split` nor `config`.
pub open spec fn is_base_name(name: Seq<char>, lenient: bool) -> bool {
    name == "base.apk"@ || (lenient && !has_infix(name, "split"@) && !has_infix(name, "config"@))
}

/// The split names an architecture other than `arch` (the first one it mentions).
pub open spec fn for_other_arch(name: Seq<char>, arch: Seq<char>) -> bool {
    match first_arch(name) {
        Some(a) => arch_names()[a] != arch,
        None => false,
    }
}

/// The base found so far (the last one wins) and the splits kept so far.
pub type BundleState = (Option<int>, Seq<int>);

/// Looks at the file at index `i`.
pub open spec fn bundle_step(st: BundleState, i: int, name: Seq<char>, arch: Seq<char>, lenient: bool) -> BundleState {
    if !is_apk_name(name) {
        st
    } else if is_base_name(name, lenient) {
        (Some(i), st.1)
    } else if for_other_arch(name, arch) {
        st
    } else {
        (st.0, st.1.push(i))
    }
}

/// Looks at the files in order.
pub open spec fn bundle_scan(names: Seq<Seq<char>>, arch: Seq<char>, lenient: bool) -> BundleState
    decreases names.len(),
{
    if names.len() == 0 {
        (None, Seq::empty())
    } else {
        bundle_step(
            bundle_scan(names.drop_last(), arch, lenient),
            names.len() - 1,
            names.last(),
            arch,
            lenient,
        )
    }
}

/// The indices of all APK files, in order.
pub open spec fn apk_indices(names: Seq<Seq<char>>) -> Seq<int>
    decreases names.len(),
{
    if names.len() == 0 {
        Seq::empty()
    } else if is_apk_name(names.last()) {
        apk_indices(names.drop_last()).push(names.len() - 1)
    } else {
        apk_indices(names.drop_last())
    }
}

/// The base APK and the splits to merge into it. Without a base by name, the first APK is the
/// base and every other APK a split. `None` when the bundle holds no APK.
pub open spec fn bundle_plan_spec(names: Seq<Seq<char>>, arch: Seq<char>, lenient: bool) -> Option<
    (int, Seq<int>),
> {
    let st = bundle_scan(names, arch, lenient);
    match st.0 {
        Some(b) => Some((b, st.1)),
        None => {
            let apks = apk_indices(names);
            if apks.len() == 0 {
                None
            } else {
                Some((apks[0], apks.drop_first()))
            }
        },
    }
}

/// The base APK and the splits of a bundle, as indices into its list of files.
pub struct BundlePlan {
    pub base: usize,
    pub splits: Vec<usize>,
}

/// The indices as integers.
pub open spec fn indices_view(v: Vec<usize>) -> Seq<int> {
    v@.map_values(|i: usize| i as int)
}

/// Whether a file name has the extension `apk`.
pub fn has_apk_extension(name: &Vec<char>) -> (res: bool)
    ensures
        res == is_apk_name(name@),
{
    if name.len() <= 4 {
        return false;
    }
    let n = name.len();
    let r = name[n - 4] == '.' && name[n - 3] == 'a' && name[n - 2] == 'p' && name[n - 1] == 'k';
    proof {
        reveal_strlit(".apk");
        let tail = name@.skip(n - 4);
        if r {
            assert(tail =~= ".apk"@);
        } else {
            assert(tail[0] != '.' || tail[1] != 'a' || tail[2] != 'p' || tail[3] != 'k');
        }
    }
    r
}

fn is_base(name: &Vec<char>, lenient: bool) -> (res: bool)
    ensures
        res == is_base_name(name@, lenient),
{
    let b = chars_of("base.apk");
    seq_equal(name, &b) || (lenient && !contains_str(name, "split") && !contains_str(name, "config"))
}

fn other_arch(name: &Vec<char>, arch: &Vec<char>) -> (res: bool)
    ensures
        res == for_other_arch(name@, arch@),
{
    match arch_in_name(name) {
        Some(a) => {
            let n = chars_of(arch_name(a));
            !seq_equal(&n, arch)
        },
        None => false,
    }
}

/// Plans the merge of an unpacked bundle whose files are named `names` (in the order the
/// directory lists them), for architecture `arch`. `lenient` takes as base also any APK that
/// mentions neither `split` nor `config`.
pub fn plan_bundle_with(names: &Vec<String>, arch: &str, lenient: bool) -> (res: Option<BundlePlan>)
    ensures
        match res {
            Some(p) => bundle_plan_spec(strings_view(*names), arch@, lenient) == Some(
                (p.base as int, indices_view(p.splits)),
            ),
            None => bundle_plan_spec(strings_view(*names), arch@, lenient) is None,
        },
{
    let ghost all = strings_view(*names);
    let archv = chars_of(arch);
    let mut base: Option<usize> = None;
    let mut splits: Vec<usize> = Vec::new();
    let mut apks: Vec<usize> = Vec::new();
    let mut i: usize = 0;
    assert(all.take(0) =~= Seq::<Seq<char>>::empty());
    assert(indices_view(splits) =~= Seq::<int>::empty());
    assert(indices_view(apks) =~= Seq::<int>::empty());
    while i < names.len()
        invariant
            0 <= i <= names.len(),
            all == strings_view(*names),
            archv@ == arch@,
            bundle_scan(all.take(i as int), arch@, lenient).0 == (match base {
                Some(b) => Some(b as int),
                None => None,
            }),
            bundle_scan(all.take(i as int), arch@, lenient).1 == indices_view(splits),
            apk_indices(all.take(i as int)) == indices_view(apks),
        decreases names.len() - i,
    {
        let name = chars_of(names[i].as_str());
        assert(all.take(i + 1).drop_last() =~= all.take(i as int));
        assert(all.take(i + 1).last() == name@);
        let ghost prev_splits = indices_view(splits);
        let ghost prev_apks = indices_view(apks);
        if has_apk_extension(&name) {
            apks.push(i);
            assert(indices_view(apks) =~= prev_apks.push(i as int));
            if is_base(&name, lenient) {
                base = Some(i);
            } else if !other_arch(&name, &archv) {
                splits.push(i);
                assert(indices_view(splits) =~= prev_splits.push(i as int));
            }
        }
        i = i + 1;
    }
    assert(all.take(names.len() as int) =~= all);
    match base {
        Some(b) => Some(BundlePlan { base: b, splits }),
        None => {
            if apks.len() == 0 {
                None
            } else {
                let first = apks[0];
                let mut rest: Vec<usize> = Vec::new();
                let mut k: usize = 1;
                while k < apks.len()
                    invariant
                        1 <= k <= apks.len(),
                        indices_view(rest) == indices_view(apks).subrange(1, k as int),
                    decreases apks.len() - k,
                {
                    let ghost before = indices_view(rest);
                    rest.push(apks[k]);
                    assert(indices_view(rest) =~= before.push(apks@[k as int] as int));
                    assert(indices_view(apks).subrange(1, k + 1) =~= indices_view(apks).subrange(
                        1,
                        k as int,
                    ).push(indices_view(apks)[k as int]));
                    k = k + 1;
                }
                assert(indices_view(apks).subrange(1, apks.len() as int) =~= indices_view(
                    apks,
                ).drop_first());
                Some(BundlePlan { base: first, splits: rest })
            }
        },
    }
}

/// Plans the merge of a bundle the way APKEditor merging does: only `base.apk` is the base.
pub fn plan_bundle(names: &Vec<String>, arch: &str) -> (res: Option<BundlePlan>)
    ensures
        match res {
            Some(p) => bundle_plan_spec(strings_view(*names), arch@, false) == Some(
                (p.base as int, indices_view(p.splits)),
            ),
            None => bundle_plan_spec(strings_view(*names), arch@, false) is None,
        },
{
    plan_bundle_with(names, arch, false)
}

/// Plans the merge of a bundle the way apktool merging does: an APK that mentions neither
/// `split` nor `config` is a base as well.
pub fn plan_bundle_lenient(names: &Vec<String>, arch: &str) -> (res: Option<BundlePlan>)
    ensures
        match res {
            Some(p) => bundle_plan_spec(strings_view(*names), arch@, true) == Some(
                (p.base as int, indices_view(p.splits)),
            ),
            None => bundle_plan_spec(strings_view(*names), arch@, true) is None,
        },
{
    plan_bundle_with(names, arch, true)
}

// ---------------------------------------------------------------------------
// Law: the plan picks APK files, each once, the base apart from the splits
// ---------------------------------------------------------------------------

/// `idx` lists APK files of `names` in increasing order.
pub open spec fn increasing_apks(names: Seq<Seq<char>>, idx: Seq<int>) -> bool {
    &&& forall|k: int| 0 <= k < idx.len() ==> 0 <= #[trigger] idx[k] < names.len() && is_apk_name(
        names[idx[k]],
    )
    &&& forall|k: int, l: int| 0 <= k < l < idx.len() ==> #[trigger] idx[k] < #[trigger] idx[l]
}

proof fn lemma_apk_indices(names: Seq<Seq<char>>)
    ensures
        increasing_apks(names, apk_indices(names)),
        forall|k: int| 0 <= k < names.len() && is_apk_name(names[k]) ==> #[trigger] apk_indices(
            names,
        ).contains(k),
    decreases names.len(),
{
    if names.len() > 0 {
        let pre = names.drop_last();
        lemma_apk_indices(pre);
        let r = apk_indices(pre);
        assert forall|k: int| 0 <= k < r.len() implies #[trigger] pre[r[k]] == names[r[k]] by {}
        if is_apk_name(names.last()) {
            let r2 = r.push(names.len() - 1);
            assert forall|k: int| 0 <= k < names.len() && is_apk_name(names[k]) implies #[trigger] r2.contains(k) by {
                if k < names.len() - 1 {
                    assert(pre[k] == names[k]);
                    assert(r.contains(k));
                    let j = choose|j: int| 0 <= j < r.len() && r[j] == k;
                    assert(r2[j] == k);
                } else {
                    assert(r2[r.len() as int] == k);
                }
            }
        } else {
            assert forall|k: int| 0 <= k < names.len() && is_apk_name(names[k]) implies #[trigger] r.contains(k) by {
                assert(k < names.len() - 1);
                assert(pre[k] == names[k]);
            }
        }
    }
}

/// What the scan keeps: the base (if any) is an APK taken as base, the splits are APKs in
/// increasing order that are not taken as base.
pub open spec fn scan_inv(names: Seq<Seq<char>>, st: BundleState, lenient: bool) -> bool {
    &&& st.0 matches Some(b) ==> 0 <= b < names.len() && is_apk_name(names[b]) && is_base_name(names[b], lenient)
    &&& increasing_apks(names, st.1)
    &&& forall|k: int| 0 <= k < st.1.len() ==> !is_base_name(names[#[trigger] st.1[k]], lenient)
}

proof fn lemma_scan_inv(names: Seq<Seq<char>>, arch: Seq<char>, lenient: bool)
    ensures
        scan_inv(names, bundle_scan(names, arch, lenient), lenient),
    decreases names.len(),
{
    if names.len() > 0 {
        let pre = names.drop_last();
        lemma_scan_inv(pre, arch, lenient);
        let st = bundle_scan(pre, arch, lenient);
        assert forall|k: int| 0 <= k < st.1.len() implies #[trigger] pre[st.1[k]] == names[st.1[k]] by {}
        if let Some(b) = st.0 {
            assert(pre[b] == names[b]);
        }
        let i = names.len() - 1;
        let st2 = bundle_scan(names, arch, lenient);
        if is_apk_name(names[i]) && !is_base_name(names[i], lenient) && !for_other_arch(names[i], arch) {
            assert(st2.1 == st.1.push(i));
            assert forall|k: int| 0 <= k < st2.1.len() implies 0 <= #[trigger] st2.1[k] < names.len()
                && is_apk_name(names[st2.1[k]]) by {
                if k < st.1.len() {
                    assert(st2.1[k] == st.1[k]);
                }
            }
            assert forall|k: int, l: int| 0 <= k < l < st2.1.len() implies #[trigger] st2.1[k] < #[trigger] st2.1[l] by {
                if l < st.1.len() {
                    assert(st.1[k] < st.1[l]);
                } else {
                    assert(st2.1[k] == st.1[k]);
                }
            }
            assert forall|k: int| 0 <= k < st2.1.len() implies !is_base_name(names[#[trigger] st2.1[k]], lenient) by {
                if k < st.1.len() {
                    assert(st2.1[k] == st.1[k]);
                }
            }
        }
    }
}

/// The merge plan takes APK files only: a base, and splits in the listing's order, each at
/// most once and none of them the base.
pub proof fn law_bundle_plan_sound(names: Seq<Seq<char>>, arch: Seq<char>, lenient: bool)
    ensures
        bundle_plan_spec(names, arch, lenient) matches Some(p) ==> {
            &&& 0 <= p.0 < names.len()
            &&& is_apk_name(names[p.0])
            &&& increasing_apks(names, p.1)
            &&& !p.1.contains(p.0)
        },
        bundle_plan_spec(names, arch, lenient) is None <==> forall|k: int|
            0 <= k < names.len() ==> !is_apk_name(#[trigger] names[k]),
{
    lemma_scan_inv(names, arch, lenient);
    lemma_apk_indices(names);
    let st = bundle_scan(names, arch, lenient);
    let apks = apk_indices(names);
    if let Some(b) = st.0 {
        if st.1.contains(b) {
            let k = choose|k: int| 0 <= k < st.1.len() && st.1[k] == b;
            assert(!is_base_name(names[st.1[k]], lenient));
        }
        assert(is_apk_name(names[b]));
    } else if apks.len() > 0 {
        let rest = apks.drop_first();
        assert forall|k: int| 0 <= k < rest.len() implies 0 <= #[trigger] rest[k] < names.len()
            && is_apk_name(names[rest[k]]) by {
            assert(rest[k] == apks[k + 1]);
        }
        assert forall|k: int, l: int| 0 <= k < l < rest.len() implies #[trigger] rest[k] < #[trigger] rest[l] by {
            assert(apks[k + 1] < apks[l + 1]);
        }
        if rest.contains(apks[0]) {
            let k = choose|k: int| 0 <= k < rest.len() && rest[k] == apks[0];
            assert(apks[0] < apks[k + 1]);
        }
        assert(is_apk_name(names[apks[0]]));
    } else {
        assert forall|k: int| 0 <= k < names.len() implies !is_apk_name(#[trigger] names[k]) by {
            if is_apk_name(names[k]) {
                assert(apks.contains(k));
            }
        }
    }
    if st.0 is Some {
        let b = st.0->0;
        assert(is_apk_name(names[b]));
    }
}

/// Which files the scan keeps as splits, and that it finds a base when one is there.
proof fn lemma_scan_members(names: Seq<Seq<char>>, arch: Seq<char>, lenient: bool)
    ensures
        forall|k: int| 0 <= k < names.len() ==> (#[trigger] bundle_scan(names, arch, lenient).1.contains(k)
            <==> (is_apk_name(names[k]) && !is_base_name(names[k], lenient) && !for_other_arch(
            names[k],
            arch,
        ))),
        (exists|k: int| 0 <= k < names.len() && is_apk_name(#[trigger] names[k]) && is_base_name(
            names[k],
            lenient,
        )) ==> bundle_scan(names, arch, lenient).0 is Some,
    decreases names.len(),
{
    lemma_scan_inv(names, arch, lenient);
    if names.len() > 0 {
        let pre = names.drop_last();
        lemma_scan_members(pre, arch, lenient);
        lemma_scan_inv(pre, arch, lenient);
        let st = bundle_scan(pre, arch, lenient);
        let st2 = bundle_scan(names, arch, lenient);
        let last = names.len() - 1;
        assert forall|k: int| 0 <= k < names.len() implies (#[trigger] st2.1.contains(k) <==> (
        is_apk_name(names[k]) && !is_base_name(names[k], lenient) && !for_other_arch(names[k], arch)))
            by {
            if k < last {
                assert(pre[k] == names[k]);
                if st2.1.contains(k) {
                    let j = choose|j: int| 0 <= j < st2.1.len() && st2.1[j] == k;
                    if st2.1 != st.1 {
                        assert(st2.1 == st.1.push(last));
                        assert(j < st.1.len());
                        assert(st.1[j] == k);
                    }
                    assert(st.1.contains(k));
                }
                if st.1.contains(k) {
                    let j = choose|j: int| 0 <= j < st.1.len() && st.1[j] == k;
                    if st2.1 != st.1 {
                        assert(st2.1[j] == k);
                    }
                }
            } else {
                if st.1.contains(k) {
                    let j = choose|j: int| 0 <= j < st.1.len() && st.1[j] == k;
                    assert(st.1[j] < pre.len());
                }
                if st2.1 != st.1 {
                    assert(st2.1[st.1.len() as int] == k);
                } else if st2.1.contains(k) {
                    let j = choose|j: int| 0 <= j < st2.1.len() && st2.1[j] == k;
                    assert(st.1[j] < pre.len());
                }
            }
        }
        if exists|k: int| 0 <= k < names.len() && is_apk_name(#[trigger] names[k]) && is_base_name(
            names[k],
            lenient,
        ) {
            let k = choose|k: int| 0 <= k < names.len() && is_apk_name(#[trigger] names[k]) && is_base_name(
                names[k],
                lenient,
            );
            if k < last {
                assert(pre[k] == names[k]);
            }
        }
    }
}

/// The architecture a file name mentions first, by name, if any.
pub open spec fn first_arch_named(name: Seq<char>) -> Option<Seq<char>> {
    match first_arch(name) {
        Some(a) => Some(arch_names()[a]),
        None => None,
    }
}

/// When the bundle has a base APK, a split whose first-named architecture differs from the
/// chosen one is never merged, and every other APK that is not taken as the base is: one that
/// names the chosen architecture first, or names none.
pub proof fn law_other_arch_split_not_merged(
    names: Seq<Seq<char>>,
    arch: Seq<char>,
    lenient: bool,
    k: int,
    b: int,
)
    requires
        0 <= k < names.len(),
        0 <= b < names.len(),
        names[b] == "base.apk"@,
    ensures
        bundle_plan_spec(names, arch, lenient) matches Some(p) && {
            &&& (first_arch_named(names[k]) matches Some(a) && a != arch) ==> !p.1.contains(k)
            &&& (is_apk_name(names[k]) && !is_base_name(names[k], lenient) && (first_arch_named(
                names[k],
            ) is None || first_arch_named(names[k]) == Some(arch))) ==> p.1.contains(k)
        },
{
    reveal_strlit("base.apk");
    reveal_strlit(".apk");
    assert(has_suffix(names[b], ".apk"@)) by {
        assert(names[b].skip(names[b].len() - 4) =~= ".apk"@);
    }
    assert(is_apk_name(names[b]) && is_base_name(names[b], lenient));
    lemma_scan_members(names, arch, lenient);
}

// ---------------------------------------------------------------------------
// Merging
// ---------------------------------------------------------------------------

/// How an unpacked bundle becomes one APK.
#[derive(Debug, Clone, Copy, PartialEq, Eq)]
pub enum MergeRoute {
    /// No splits: the base APK is the app.
    CopyBase,
    /// Splits, but no APKEditor to merge them: the base APK alone is kept.
    CopyBaseWithoutEditor,
    /// Merge the splits into the base with APKEditor, then sign the result.
    MergeWithEditor,
}

/// How a bundle with `split_count` splits is turned into one APK.
pub fn merge_route(split_count: usize, editor_found: bool) -> (res: MergeRoute)
    ensures
        res == (if split_count == 0 {
            MergeRoute::CopyBase
        } else if !editor_found {
            MergeRoute::CopyBaseWithoutEditor
        } else {
            MergeRoute::MergeWithEditor
        }),
{
    if split_count == 0 {
        MergeRoute::CopyBase
    } else if !editor_found {
        MergeRoute::CopyBaseWithoutEditor
    } else {
        MergeRoute::MergeWithEditor
    }
}

/// `Merging {n} split(s){suffix}`
pub open spec fn merging_line_spec(n: u64, suffix: Seq<char>) -> Seq<char> {
    "Merging "@ + crate::text::decimal(n as nat) + " split(s)"@ + suffix
}

/// The log line that announces a merge of `n` splits, ended by `suffix`.
pub fn merging_line(n: u64, suffix: &str) -> (res: String)
    ensures
        res@ == merging_line_spec(n, suffix@),
{
    let mut out: Vec<char> = Vec::new();
    crate::text::push_str_chars(&mut out, "Merging ");
    let d = crate::text::decimal_of(n);
    crate::text::push_all(&mut out, &d);
    crate::text::push_str_chars(&mut out, " split(s)");
    crate::text::push_str_chars(&mut out, suffix);
    crate::text::string_of(&out)
}

/// `Split {i}/{n}: {name}`
pub open spec fn split_line_spec(i: u64, n: u64, name: Seq<char>) -> Seq<char> {
    "Split "@ + crate::text::decimal(i as nat) + seq!['/'] + crate::text::decimal(n as nat) + ": "@ + name
}

/// The log line for split `i` of `n` while merging with apktool.
pub fn split_line(i: u64, n: u64, name: &str) -> (res: String)
    ensures
        res@ == split_line_spec(i, n, name@),
{
    let mut out: Vec<char> = Vec::new();
    crate::text::push_str_chars(&mut out, "Split ");
    let a = crate::text::decimal_of(i);
    crate::text::push_all(&mut out, &a);
    out.push('/');
    let b = crate::text::decimal_of(n);
    crate::text::push_all(&mut out, &b);
    crate::text::push_str_chars(&mut out, ": ");
    crate::text::push_str_chars(&mut out, name);
    crate::text::string_of(&out)
}

} // verus!
