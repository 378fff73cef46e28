//! Edits to the in-memory site-packages cache after an install made outside
//! the engine: the removed distributions leave, then the installed ones are
//! recorded, each under its normalized name and version.

use std::str::FromStr;
use vstd::prelude::*;

verus! {

/// A separator character of a package name.
pub open spec fn is_name_separator(c: char) -> bool {
    c == '-' || c == '_' || c == '.'
}

/// An ASCII letter or digit.
pub open spec fn is_ascii_alphanumeric(c: char) -> bool {
    ('a' <= c && c <= 'z') || ('A' <= c && c <= 'Z') || ('0' <= c && c <= '9')
}

/// A valid package name: not empty, made of ASCII letters, digits and
/// separators, starting and ending with a letter or digit.
pub open spec fn valid_package_name(s: Seq<char>) -> bool {
    &&& s.len() > 0
    &&& forall|i: int| 0 <= i < s.len() ==> is_ascii_alphanumeric(#[trigger] s[i]) || is_name_separator(s[i])
    &&& !is_name_separator(s[0])
    &&& !is_name_separator(s.last())
}

/// The lower-case form of an ASCII letter; any other character unchanged.
pub open spec fn ascii_lower(c: char) -> char {
    if 'A' <= c && c <= 'Z' {
        ((c as u32) + 32) as char
    } else {
        c
    }
}

/// The normalized form of a package name: lower case, with each run of
/// separators replaced by one `-`.
pub open spec fn normalized_package_name(s: Seq<char>) -> Seq<char>
    decreases s.len(),
{
    if s.len() == 0 {
        Seq::<char>::empty()
    } else {
        let prefix = normalized_package_name(s.drop_last());
        if is_name_separator(s.last()) {
            if s.len() >= 2 && is_name_separator(s[s.len() - 2]) {
                prefix
            } else {
                prefix.push('-')
            }
        } else {
            prefix.push(ascii_lower(s.last()))
        }
    }
}

/// A normalized name as used in a `.dist-info` directory: each `-` becomes
/// `_`.
pub open spec fn dist_info_stem(name: Seq<char>) -> Seq<char> {
    name.map_values(|c: char| if c == '-' { '_' } else { c })
}

/// The canonical text of the PEP 440 version that `text` parses to, as
/// `uv_pep440::Version` displays it; `None` where `text` is no version.
pub uninterp spec fn pep440_canonical(text: Seq<char>) -> Option<Seq<char>>;

/// Parses a package name with `uv_normalize::PackageName::from_str`, and
/// gives its normalized text (its `Display`) and its `.dist-info` stem
/// (`PackageName::as_dist_info_name`). The crate's source accepts exactly
/// the valid names and normalizes as `normalized_package_name` says; the
/// stem replaces each `-` of the normalized text by `_`.
#[verifier::external_body]
fn parse_package_name(text: &str) -> (r: Option<(String, String)>)
    ensures
        r is Some <==> valid_package_name(text@),
        r matches Some(p) ==> p.0@ == normalized_package_name(text@) && p.1@ == dist_info_stem(
            normalized_package_name(text@),
        ),
{
    uv_normalize::PackageName::from_str(text).ok().map(|n| (n.to_string(), n.as_dist_info_name().into_owned()))
}

/// Parses a version with `uv_pep440::Version::from_str` and gives its
/// canonical text (its `Display`). What that text is, the PEP 440 grammar
/// and uv's normalization decide; the contract names it and says only that
/// it is a function of the input.
#[verifier::external_body]
fn parse_version(text: &str) -> (r: Option<String>)
    ensures
        r.deep_view() == pep440_canonical(text@),
{
    uv_pep440::Version::from_str(text).ok().map(|v| v.to_string())
}

/// One edit of the site-packages cache.
pub enum SitePackagesEdit {
    /// Forget every distribution of the package.
    Remove { name: String },
    /// Forget every distribution of the package, then record this version,
    /// installed in the `.dist-info` directory named.
    Install { name: String, version: String, dist_info: String },
}

/// An edit, as plain values.
pub enum EditModel {
    Remove(Seq<char>),
    Install(Seq<char>, Seq<char>, Seq<char>),
}

impl View for SitePackagesEdit {
    type V = EditModel;

    open spec fn view(&self) -> EditModel {
        match self {
            SitePackagesEdit::Remove { name } => EditModel::Remove(name@),
            SitePackagesEdit::Install { name, version, dist_info } => EditModel::Install(
                name@,
                version@,
                dist_info@,
            ),
        }
    }
}

/// The edits, as plain values.
pub open spec fn edits_view(v: Seq<SitePackagesEdit>) -> Seq<EditModel> {
    v.map_values(|e: SitePackagesEdit| e@)
}

/// The name of a `.dist-info` directory.
pub open spec fn dist_info_dir(stem: Seq<char>, version: Seq<char>) -> Seq<char> {
    stem + "-"@ + version + ".dist-info"@
}

/// The edit that records an installed distribution, from its normalized
/// name, its `.dist-info` stem and its canonical version.
pub fn install_edit(name: String, stem: String, version: String) -> (r: SitePackagesEdit)
    ensures
        r@ == EditModel::Install(name@, version@, dist_info_dir(stem@, version@)),
{
    let dist_info = stem.concat("-").concat(version.as_str()).concat(".dist-info");
    SitePackagesEdit::Install { name, version, dist_info }
}

/// Whether a removed entry takes effect: it holds a valid package name
/// first.
pub open spec fn is_removable(pair: Seq<Seq<char>>) -> bool {
    pair.len() >= 1 && valid_package_name(pair[0])
}

/// Whether an installed entry takes effect: it holds a valid package name
/// first and a version second.
pub open spec fn is_installable(pair: Seq<Seq<char>>) -> bool {
    pair.len() >= 2 && valid_package_name(pair[0]) && pep440_canonical(pair[1]) is Some
}

/// The edit for one removed entry: a removal where the entry takes effect.
pub open spec fn removal_of(pair: Seq<Seq<char>>) -> Seq<EditModel> {
    if is_removable(pair) {
        seq![EditModel::Remove(normalized_package_name(pair[0]))]
    } else {
        seq![]
    }
}

/// The edit for one installed entry: an install where the entry takes
/// effect.
pub open spec fn install_of(pair: Seq<Seq<char>>) -> Seq<EditModel> {
    if is_installable(pair) {
        let name = normalized_package_name(pair[0]);
        let version = pep440_canonical(pair[1]).unwrap();
        seq![EditModel::Install(name, version, dist_info_dir(dist_info_stem(name), version))]
    } else {
        seq![]
    }
}

/// The removals for a list of removed entries, in order.
pub open spec fn removal_edits(removed: Seq<Seq<Seq<char>>>) -> Seq<EditModel>
    decreases removed.len(),
{
    if removed.len() == 0 {
        seq![]
    } else {
        removal_edits(removed.drop_last()) + removal_of(removed.last())
    }
}

/// The installs for a list of installed entries, in order.
pub open spec fn install_edits(installed: Seq<Seq<Seq<char>>>) -> Seq<EditModel>
    decreases installed.len(),
{
    if installed.len() == 0 {
        seq![]
    } else {
        install_edits(installed.drop_last()) + install_of(installed.last())
    }
}

/// The edits that patch the cache: every removal first, so that a swap of
/// versions stays coherent, then every install.
pub open spec fn patch_edits(installed: Seq<Seq<Seq<char>>>, removed: Seq<Seq<Seq<char>>>) -> Seq<EditModel> {
    removal_edits(removed) + install_edits(installed)
}

/// Plans the cache edits for an install made outside the engine. Each entry
/// of `installed` and `removed` is a name followed by a version; entries
/// too short or with a name or version that does not parse are skipped.
pub fn plan_site_packages_patch(installed: &Vec<Vec<String>>, removed: &Vec<Vec<String>>) -> (r: Vec<SitePackagesEdit>)
    ensures
        edits_view(r@) == patch_edits(installed.deep_view(), removed.deep_view()),
{
    let mut edits: Vec<SitePackagesEdit> = Vec::new();
    let ghost rv = removed.deep_view();
    let ghost iv = installed.deep_view();
    let nr = removed.len();
    let mut i: usize = 0;
    while i < nr
        invariant
            nr == removed@.len(),
            rv == removed.deep_view(),
            i <= nr,
            edits_view(edits@) == removal_edits(rv.take(i as int)),
        decreases nr - i,
    {
        let pair = &removed[i];
        assert(rv[i as int] == pair.deep_view());
        assert(rv.take(i + 1).drop_last() =~= rv.take(i as int));
        let ghost before = edits_view(edits@);
        if pair.len() >= 1 {
            assert(pair.deep_view()[0] == pair@[0]@);
            if let Some((name, _stem)) = parse_package_name(pair[0].as_str()) {
                edits.push(SitePackagesEdit::Remove { name });
            }
        }
        assert(edits_view(edits@) =~= before + removal_of(rv[i as int]));
        i = i + 1;
    }
    assert(rv.take(nr as int) =~= rv);
    let ghost after_removals = edits_view(edits@);
    let ni = installed.len();
    let mut j: usize = 0;
    assert(install_edits(iv.take(0)) =~= Seq::<EditModel>::empty()) by {
        assert(iv.take(0).len() == 0);
    }
    assert(after_removals + install_edits(iv.take(0)) =~= after_removals);
    while j < ni
        invariant
            ni == installed@.len(),
            iv == installed.deep_view(),
            j <= ni,
            after_removals == removal_edits(rv),
            edits_view(edits@) == after_removals + install_edits(iv.take(j as int)),
        decreases ni - j,
    {
        let pair = &installed[j];
        assert(iv[j as int] == pair.deep_view());
        assert(iv.take(j + 1).drop_last() =~= iv.take(j as int));
        let ghost before = edits_view(edits@);
        if pair.len() >= 2 {
            assert(pair.deep_view()[0] == pair@[0]@);
            assert(pair.deep_view()[1] == pair@[1]@);
            let parsed_name = parse_package_name(pair[0].as_str());
            let parsed_version = parse_version(pair[1].as_str());
            match (parsed_name, parsed_version) {
                (Some((name, stem)), Some(version)) => {
                    edits.push(install_edit(name, stem, version));
                },
                _ => {},
            }
        }
        assert(edits_view(edits@) =~= before + install_of(iv[j as int]));
        assert(after_removals + install_edits(iv.take(j + 1)) =~= after_removals + install_edits(
            iv.take(j as int),
        ) + install_of(iv[j as int]));
        j = j + 1;
    }
    assert(iv.take(ni as int) =~= iv);
    edits
}

} // verus!

verus! {

/// The cache as a map from normalized package name to the recorded version.
pub open spec fn apply_edit(cache: Map<Seq<char>, Seq<char>>, e: EditModel) -> Map<Seq<char>, Seq<char>> {
    match e {
        EditModel::Remove(name) => cache.remove(name),
        EditModel::Install(name, version, _) => cache.insert(name, version),
    }
}

/// The cache after applying edits in order.
pub open spec fn apply_edits(cache: Map<Seq<char>, Seq<char>>, edits: Seq<EditModel>) -> Map<Seq<char>, Seq<char>>
    decreases edits.len(),
{
    if edits.len() == 0 {
        cache
    } else {
        apply_edit(apply_edits(cache, edits.drop_last()), edits.last())
    }
}

/// The version that the last valid installed entry named `name` records.
pub open spec fn last_installed_version(installed: Seq<Seq<Seq<char>>>, name: Seq<char>) -> Option<Seq<char>>
    decreases installed.len(),
{
    if installed.len() == 0 {
        None
    } else {
        let pair = installed.last();
        if pair.len() >= 2 && valid_package_name(pair[0]) && pep440_canonical(pair[1]) is Some
            && normalized_package_name(pair[0]) == name {
            pep440_canonical(pair[1])
        } else {
            last_installed_version(installed.drop_last(), name)
        }
    }
}

/// Whether some valid removed entry is named `name`.
pub open spec fn is_removed(removed: Seq<Seq<Seq<char>>>, name: Seq<char>) -> bool
    decreases removed.len(),
{
    if removed.len() == 0 {
        false
    } else {
        let pair = removed.last();
        (pair.len() >= 1 && valid_package_name(pair[0]) && normalized_package_name(pair[0]) == name)
            || is_removed(removed.drop_last(), name)
    }
}

/// Whether `name` holds the same entry in both caches.
pub open spec fn same_entry(a: Map<Seq<char>, Seq<char>>, b: Map<Seq<char>, Seq<char>>, name: Seq<char>) -> bool {
    &&& a.dom().contains(name) == b.dom().contains(name)
    &&& a.dom().contains(name) ==> a[name] == b[name]
}

proof fn lemma_apply_edits_concat(cache: Map<Seq<char>, Seq<char>>, a: Seq<EditModel>, b: Seq<EditModel>)
    ensures
        apply_edits(cache, a + b) == apply_edits(apply_edits(cache, a), b),
    decreases b.len(),
{
    if b.len() == 0 {
        assert(a + b =~= a);
    } else {
        assert((a + b).drop_last() =~= a + b.drop_last());
        assert((a + b).last() == b.last());
        lemma_apply_edits_concat(cache, a, b.drop_last());
    }
}

proof fn lemma_apply_removals(cache: Map<Seq<char>, Seq<char>>, removed: Seq<Seq<Seq<char>>>, name: Seq<char>)
    ensures
        is_removed(removed, name) ==> !apply_edits(cache, removal_edits(removed)).dom().contains(name),
        !is_removed(removed, name) ==> same_entry(apply_edits(cache, removal_edits(removed)), cache, name),
    decreases removed.len(),
{
    if removed.len() > 0 {
        let front = removed.drop_last();
        lemma_apply_removals(cache, front, name);
        let mid = apply_edits(cache, removal_edits(front));
        lemma_apply_edits_concat(cache, removal_edits(front), removal_of(removed.last()));
        let one = removal_of(removed.last());
        if one.len() == 1 {
            assert(one.drop_last() =~= Seq::<EditModel>::empty());
            assert(apply_edits(mid, one.drop_last()) == mid);
            assert(one.last() == one[0]);
            assert(apply_edits(mid, one) == apply_edit(mid, one[0]));
        } else {
            assert(one =~= Seq::<EditModel>::empty());
        }
    }
}

proof fn lemma_apply_installs(cache: Map<Seq<char>, Seq<char>>, installed: Seq<Seq<Seq<char>>>, name: Seq<char>)
    ensures
        last_installed_version(installed, name) matches Some(v) ==> apply_edits(cache, install_edits(installed)).dom().contains(name)
            && apply_edits(cache, install_edits(installed))[name] == v,
        last_installed_version(installed, name) is None ==> same_entry(
            apply_edits(cache, install_edits(installed)),
            cache,
            name,
        ),
    decreases installed.len(),
{
    if installed.len() > 0 {
        let front = installed.drop_last();
        lemma_apply_installs(cache, front, name);
        let mid = apply_edits(cache, install_edits(front));
        lemma_apply_edits_concat(cache, install_edits(front), install_of(installed.last()));
        let one = install_of(installed.last());
        if one.len() == 1 {
            assert(one.drop_last() =~= Seq::<EditModel>::empty());
            assert(apply_edits(mid, one.drop_last()) == mid);
            assert(one.last() == one[0]);
            assert(apply_edits(mid, one) == apply_edit(mid, one[0]));
        } else {
            assert(one =~= Seq::<EditModel>::empty());
        }
    }
}

/// Patching the cache leaves every package in the state the lists ask for:
/// one installed, under a valid name, holds the version of its last valid
/// installed entry, whether or not it was also removed; one only removed is
/// gone; every other entry of the cache is unchanged.
pub proof fn lemma_patch_outcome(
    cache: Map<Seq<char>, Seq<char>>,
    installed: Seq<Seq<Seq<char>>>,
    removed: Seq<Seq<Seq<char>>>,
    name: Seq<char>,
)
    ensures
        last_installed_version(installed, name) matches Some(v) ==> apply_edits(
            cache,
            patch_edits(installed, removed),
        ).dom().contains(name) && apply_edits(cache, patch_edits(installed, removed))[name] == v,
        last_installed_version(installed, name) is None && is_removed(removed, name)
            ==> !apply_edits(cache, patch_edits(installed, removed)).dom().contains(name),
        last_installed_version(installed, name) is None && !is_removed(removed, name) ==> same_entry(
            apply_edits(cache, patch_edits(installed, removed)),
            cache,
            name,
        ),
{
    lemma_apply_edits_concat(cache, removal_edits(removed), install_edits(installed));
    lemma_apply_removals(cache, removed, name);
    lemma_apply_installs(apply_edits(cache, removal_edits(removed)), installed, name);
}

} // verus!

verus! {

proof fn lemma_removals_of_filtered(removed: Seq<Seq<Seq<char>>>)
    ensures
        removal_edits(removed) == removal_edits(removed.filter(|p: Seq<Seq<char>>| is_removable(p))),
    decreases removed.len(),
{
    reveal(Seq::filter);
    let pred = |p: Seq<Seq<char>>| is_removable(p);
    if removed.len() > 0 {
        lemma_removals_of_filtered(removed.drop_last());
        let kept = removed.filter(pred);
        if pred(removed.last()) {
            assert(kept.drop_last() =~= removed.drop_last().filter(pred));
            assert(kept.last() == removed.last());
        } else {
            assert(removal_of(removed.last()) =~= Seq::<EditModel>::empty());
            assert(removal_edits(removed) =~= removal_edits(removed.drop_last()));
        }
    }
}

proof fn lemma_installs_of_filtered(installed: Seq<Seq<Seq<char>>>)
    ensures
        install_edits(installed) == install_edits(installed.filter(|p: Seq<Seq<char>>| is_installable(p))),
    decreases installed.len(),
{
    reveal(Seq::filter);
    let pred = |p: Seq<Seq<char>>| is_installable(p);
    if installed.len() > 0 {
        lemma_installs_of_filtered(installed.drop_last());
        let kept = installed.filter(pred);
        if pred(installed.last()) {
            assert(kept.drop_last() =~= installed.drop_last().filter(pred));
            assert(kept.last() == installed.last());
        } else {
            assert(install_of(installed.last()) =~= Seq::<EditModel>::empty());
            assert(install_edits(installed) =~= install_edits(installed.drop_last()));
        }
    }
}

/// Entries that are too short, or whose name or version does not parse,
/// change nothing: the edits are those of the lists without them.
pub proof fn lemma_patch_ignores_unusable_entries(installed: Seq<Seq<Seq<char>>>, removed: Seq<Seq<Seq<char>>>)
    ensures
        patch_edits(installed, removed) == patch_edits(
            installed.filter(|p: Seq<Seq<char>>| is_installable(p)),
            removed.filter(|p: Seq<Seq<char>>| is_removable(p)),
        ),
{
    lemma_removals_of_filtered(removed);
    lemma_installs_of_filtered(installed);
}

/// Only the first two elements of an installed entry, and the first of a
/// removed entry, matter.
pub proof fn lemma_patch_reads_leading_elements(pair: Seq<Seq<char>>)
    ensures
        pair.len() >= 2 ==> install_of(pair) == install_of(pair.take(2)),
        pair.len() >= 1 ==> removal_of(pair) == removal_of(pair.take(1)),
{
}

/// Patching twice with the same lists leaves the cache as patching once.
pub proof fn lemma_patch_idempotent(
    cache: Map<Seq<char>, Seq<char>>,
    installed: Seq<Seq<Seq<char>>>,
    removed: Seq<Seq<Seq<char>>>,
)
    ensures
        apply_edits(apply_edits(cache, patch_edits(installed, removed)), patch_edits(installed, removed))
            == apply_edits(cache, patch_edits(installed, removed)),
{
    let edits = patch_edits(installed, removed);
    let once = apply_edits(cache, edits);
    let twice = apply_edits(once, edits);
    assert forall|name: Seq<char>| #[trigger] twice.dom().contains(name) == once.dom().contains(name)
        && (once.dom().contains(name) ==> twice[name] == once[name]) by {
        lemma_patch_outcome(cache, installed, removed, name);
        lemma_patch_outcome(once, installed, removed, name);
    }
    assert(twice =~= once);
}

} // verus!
