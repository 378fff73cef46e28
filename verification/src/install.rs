//! What the engine hands to uv's installer for a fast-path `pip install`:
//! the link mode, the reinstall policy, the package indexes and the cache
//! directory.

use crate::command::{link_mode_named, parse_link_mode, LinkMode};
use vstd::prelude::*;

verus! {

/// The link mode that an optional command-line value selects: the mode it
/// names, and symlinks where it names none or is absent.
pub open spec fn selected_link_mode(text: Option<Seq<char>>) -> LinkMode {
    match text {
        Some(t) => match link_mode_named(t) {
            Some(m) => m,
            None => LinkMode::Symlink,
        },
        None => LinkMode::Symlink,
    }
}

/// The link mode for an install, from its optional command-line value.
pub fn resolve_link_mode(text: Option<&str>) -> (r: LinkMode)
    ensures
        r == selected_link_mode(text.deep_view()),
{
    match text {
        Some(t) => match parse_link_mode(t) {
            Some(m) => m,
            None => LinkMode::Symlink,
        },
        None => LinkMode::Symlink,
    }
}

/// A package index that an install consults.
pub struct IndexChoice {
    pub url: String,
    /// Whether the index comes from `--extra-index-url` rather than
    /// `--index-url`.
    pub extra: bool,
}

/// The package indexes of an install.
pub enum IndexSelection {
    /// uv's default index configuration: no index option was given.
    Default,
    /// Exactly these indexes, in this order; the list may be empty where
    /// every given URL failed to parse.
    Listed(Vec<IndexChoice>),
}

/// An index selection, as plain values: `None` for the default, else the
/// URLs, each with whether it is an extra index.
pub open spec fn index_selection_view(s: IndexSelection) -> Option<Seq<(Seq<char>, bool)>> {
    match s {
        IndexSelection::Default => None,
        IndexSelection::Listed(v) => Some(v@.map_values(|c: IndexChoice| (c.url@, c.extra))),
    }
}

/// The index selection for the given options: the default where neither is
/// given; otherwise the given URL that parsed, then the given extra URL that
/// parsed.
pub open spec fn selected_indexes(
    index_url: Option<Seq<char>>,
    index_url_parses: bool,
    extra_index_url: Option<Seq<char>>,
    extra_index_url_parses: bool,
) -> Option<Seq<(Seq<char>, bool)>> {
    if index_url is None && extra_index_url is None {
        None
    } else {
        let primary: Seq<(Seq<char>, bool)> = match index_url {
            Some(u) => if index_url_parses {
                seq![(u, false)]
            } else {
                seq![]
            },
            None => seq![],
        };
        let extra: Seq<(Seq<char>, bool)> = match extra_index_url {
            Some(u) => if extra_index_url_parses {
                seq![(u, true)]
            } else {
                seq![]
            },
            None => seq![],
        };
        Some(primary + extra)
    }
}

/// Selects the package indexes of an install. Whether each given URL parses
/// as an index URL is decided by uv and handed in.
pub fn select_indexes(
    index_url: Option<String>,
    index_url_parses: bool,
    extra_index_url: Option<String>,
    extra_index_url_parses: bool,
) -> (r: IndexSelection)
    ensures
        index_selection_view(r) == selected_indexes(
            index_url.deep_view(),
            index_url_parses,
            extra_index_url.deep_view(),
            extra_index_url_parses,
        ),
{
    if index_url.is_none() && extra_index_url.is_none() {
        return IndexSelection::Default;
    }
    let ghost iv = index_url.deep_view();
    let ghost ev = extra_index_url.deep_view();
    let mut chosen: Vec<IndexChoice> = Vec::new();
    if let Some(url) = index_url {
        if index_url_parses {
            chosen.push(IndexChoice { url, extra: false });
        }
    }
    let ghost after_primary = chosen@.map_values(|c: IndexChoice| (c.url@, c.extra));
    if let Some(url) = extra_index_url {
        if extra_index_url_parses {
            chosen.push(IndexChoice { url, extra: true });
        }
    }
    let ghost spec_primary: Seq<(Seq<char>, bool)> = match iv {
        Some(u) => if index_url_parses {
            seq![(u, false)]
        } else {
            seq![]
        },
        None => seq![],
    };
    assert(after_primary =~= spec_primary);
    assert(chosen@.map_values(|c: IndexChoice| (c.url@, c.extra)) =~= selected_indexes(
        iv,
        index_url_parses,
        ev,
        extra_index_url_parses,
    ).unwrap());
    IndexSelection::Listed(chosen)
}

/// What uv's installer is asked to do for a fast-path install.
pub struct DirectInstallPlan {
    pub packages: Vec<String>,
    /// Reinstall every package, rather than uv's default policy.
    pub reinstall_all: bool,
    pub link_mode: LinkMode,
    pub indexes: IndexSelection,
    /// The directory to install into instead of the interpreter's
    /// site-packages, as `--target` gave it.
    pub target: Option<String>,
}

/// Plans a fast-path install from the options of the command: the packages
/// as given, every package reinstalled when asked, the link mode that the
/// optional value selects, the indexes that parse, and the target directory
/// as given.
pub fn plan_direct_install(
    packages: Vec<String>,
    reinstall: bool,
    link_mode: Option<&str>,
    index_url: Option<String>,
    index_url_parses: bool,
    extra_index_url: Option<String>,
    extra_index_url_parses: bool,
    target: Option<String>,
) -> (r: DirectInstallPlan)
    ensures
        r.packages.deep_view() == packages.deep_view(),
        r.reinstall_all == reinstall,
        r.link_mode == selected_link_mode(link_mode.deep_view()),
        index_selection_view(r.indexes) == selected_indexes(
            index_url.deep_view(),
            index_url_parses,
            extra_index_url.deep_view(),
            extra_index_url_parses,
        ),
        r.target.deep_view() == target.deep_view(),
{
    DirectInstallPlan {
        packages,
        reinstall_all: reinstall,
        link_mode: resolve_link_mode(link_mode),
        indexes: select_indexes(index_url, index_url_parses, extra_index_url, extra_index_url_parses),
        target,
    }
}

/// The path components of the engine's cache directory, from the first of
/// these that is set: `UV_CACHE_DIR` itself; `.cache/uv` under `HOME`;
/// `.cache/uv` under `USERPROFILE`; `uv/cache` under `LOCALAPPDATA`; else
/// `uv` under the system's temporary directory.
pub open spec fn cache_dir_components(
    uv_cache_dir: Option<Seq<char>>,
    home: Option<Seq<char>>,
    user_profile: Option<Seq<char>>,
    local_app_data: Option<Seq<char>>,
    temp_dir: Seq<char>,
) -> Seq<Seq<char>> {
    match uv_cache_dir {
        Some(dir) => seq![dir],
        None => match home {
            Some(h) => seq![h, ".cache"@, "uv"@],
            None => match user_profile {
                Some(p) => seq![p, ".cache"@, "uv"@],
                None => match local_app_data {
                    Some(l) => seq![l, "uv"@, "cache"@],
                    None => seq![temp_dir, "uv"@],
                },
            },
        },
    }
}

/// Chooses the engine's cache directory from the environment, given as the
/// values of `UV_CACHE_DIR`, `HOME`, `USERPROFILE` and `LOCALAPPDATA` (each
/// absent where unset or not valid Unicode) and the system's temporary
/// directory; the result lists the path components to join in order.
pub fn cache_dir(
    uv_cache_dir: Option<String>,
    home: Option<String>,
    user_profile: Option<String>,
    local_app_data: Option<String>,
    temp_dir: String,
) -> (r: Vec<String>)
    ensures
        r.deep_view() == cache_dir_components(
            uv_cache_dir.deep_view(),
            home.deep_view(),
            user_profile.deep_view(),
            local_app_data.deep_view(),
            temp_dir@,
        ),
{
    let ghost expected = cache_dir_components(
        uv_cache_dir.deep_view(),
        home.deep_view(),
        user_profile.deep_view(),
        local_app_data.deep_view(),
        temp_dir@,
    );
    let mut parts: Vec<String> = Vec::new();
    if let Some(dir) = uv_cache_dir {
        parts.push(dir);
    } else if let Some(h) = home {
        parts.push(h);
        parts.push(".cache".to_owned());
        parts.push("uv".to_owned());
    } else if let Some(p) = user_profile {
        parts.push(p);
        parts.push(".cache".to_owned());
        parts.push("uv".to_owned());
    } else if let Some(l) = local_app_data {
        parts.push(l);
        parts.push("uv".to_owned());
        parts.push("cache".to_owned());
    } else {
        parts.push(temp_dir);
        parts.push("uv".to_owned());
    }
    assert(parts.deep_view() =~= expected);
    parts
}

} // verus!

verus! {

/// A mode passed on by name is the mode the install uses, and an install
/// given no mode uses symlinks.
pub proof fn lemma_selected_link_mode_of_name(mode: LinkMode)
    ensures
        selected_link_mode(Some(crate::command::link_mode_text(mode))) == mode,
        selected_link_mode(None) == LinkMode::Symlink,
{
    crate::command::lemma_link_mode_name_round_trip(mode);
}

} // verus!

verus! {

/// What the index selection holds, whatever the inputs: the default exactly
/// when no index option is given; a given `--index-url` that parses listed
/// first and as a primary index; a given `--extra-index-url` that parses
/// listed last and as an extra index; and nothing else, every primary entry
/// being the `--index-url` and every extra entry the `--extra-index-url`.
pub proof fn lemma_index_roles(
    index_url: Option<Seq<char>>,
    index_url_parses: bool,
    extra_index_url: Option<Seq<char>>,
    extra_index_url_parses: bool,
)
    ensures
        ({
            let sel = selected_indexes(index_url, index_url_parses, extra_index_url, extra_index_url_parses);
            &&& (sel is None <==> (index_url is None && extra_index_url is None))
            &&& (index_url is Some && index_url_parses) ==> (sel matches Some(l) && l.len() > 0 && l[0] == (
                index_url.unwrap(),
                false,
            ))
            &&& (extra_index_url is Some && extra_index_url_parses) ==> (sel matches Some(l) && l.len() > 0
                && l.last() == (extra_index_url.unwrap(), true))
            &&& sel matches Some(l) ==> l.len() <= 2 && forall|k: int|
                0 <= k < l.len() ==> (#[trigger] l[k].1 ==> extra_index_url == Some(l[k].0)) && (!l[k].1
                    ==> index_url == Some(l[k].0))
        }),
{
}

/// Each variable is consulted only while every earlier one is unset: the
/// first that is set decides the directory, and the later ones, and the
/// temporary directory, make no difference.
pub proof fn lemma_cache_dir_first_set_wins(
    uv_cache_dir: Option<Seq<char>>,
    home: Option<Seq<char>>,
    user_profile: Option<Seq<char>>,
    local_app_data: Option<Seq<char>>,
    temp_dir: Seq<char>,
    other_user_profile: Option<Seq<char>>,
    other_local_app_data: Option<Seq<char>>,
    other_temp_dir: Seq<char>,
)
    ensures
        uv_cache_dir is Some ==> cache_dir_components(uv_cache_dir, home, user_profile, local_app_data, temp_dir)
            == seq![uv_cache_dir.unwrap()],
        (uv_cache_dir is None && home is Some) ==> cache_dir_components(
            uv_cache_dir,
            home,
            user_profile,
            local_app_data,
            temp_dir,
        ) == seq![home.unwrap(), ".cache"@, "uv"@],
        (uv_cache_dir is None && home is None && user_profile is Some) ==> cache_dir_components(
            uv_cache_dir,
            home,
            user_profile,
            local_app_data,
            temp_dir,
        ) == seq![user_profile.unwrap(), ".cache"@, "uv"@],
        (uv_cache_dir is None && home is None && user_profile is None && local_app_data is Some)
            ==> cache_dir_components(uv_cache_dir, home, user_profile, local_app_data, temp_dir) == seq![
            local_app_data.unwrap(),
            "uv"@,
            "cache"@,
        ],
        uv_cache_dir is None && home is None && user_profile is None && local_app_data is None
            ==> cache_dir_components(uv_cache_dir, home, user_profile, local_app_data, temp_dir) == seq![
            temp_dir,
            "uv"@,
        ],
        (uv_cache_dir is Some || home is Some) ==> cache_dir_components(
            uv_cache_dir,
            home,
            user_profile,
            local_app_data,
            temp_dir,
        ) == cache_dir_components(uv_cache_dir, home, other_user_profile, other_local_app_data, other_temp_dir),
        (user_profile is Some || local_app_data is Some) ==> cache_dir_components(
            uv_cache_dir,
            home,
            user_profile,
            local_app_data,
            temp_dir,
        ) == cache_dir_components(uv_cache_dir, home, user_profile, local_app_data, other_temp_dir),
{
}

} // verus!
