//! The `pip install` fast path: recognising the install commands that can
//! skip the full command-line parser, and the link modes they may name.

use crate::text::{split_words, str_equal, strip_prefix, str_views, words};
use vstd::prelude::*;

verus! {

/// How installed files are placed into site-packages.
#[derive(Clone, Copy, Debug, PartialEq, Eq, Structural)]
pub enum LinkMode {
    Symlink,
    Hardlink,
    Clone,
    Copy,
}

/// The link mode that a command-line value names, if any.
pub open spec fn link_mode_named(text: Seq<char>) -> Option<LinkMode> {
    if text == "symlink"@ {
        Some(LinkMode::Symlink)
    } else if text == "hardlink"@ {
        Some(LinkMode::Hardlink)
    } else if text == "clone"@ {
        Some(LinkMode::Clone)
    } else if text == "copy"@ {
        Some(LinkMode::Copy)
    } else {
        None
    }
}

/// The command-line value that names a link mode.
pub open spec fn link_mode_text(mode: LinkMode) -> Seq<char> {
    match mode {
        LinkMode::Symlink => "symlink"@,
        LinkMode::Hardlink => "hardlink"@,
        LinkMode::Clone => "clone"@,
        LinkMode::Copy => "copy"@,
    }
}

/// Reads a link mode from its command-line value.
pub fn parse_link_mode(text: &str) -> (r: Option<LinkMode>)
    ensures
        r == link_mode_named(text@),
{
    if str_equal(text, "symlink") {
        Some(LinkMode::Symlink)
    } else if str_equal(text, "hardlink") {
        Some(LinkMode::Hardlink)
    } else if str_equal(text, "clone") {
        Some(LinkMode::Clone)
    } else if str_equal(text, "copy") {
        Some(LinkMode::Copy)
    } else {
        None
    }
}

/// The command-line value of a link mode.
pub fn link_mode_name(mode: LinkMode) -> (r: String)
    ensures
        r@ == link_mode_text(mode),
{
    match mode {
        LinkMode::Symlink => "symlink".to_owned(),
        LinkMode::Hardlink => "hardlink".to_owned(),
        LinkMode::Clone => "clone".to_owned(),
        LinkMode::Copy => "copy".to_owned(),
    }
}

/// The options of a `pip install` command that the fast path understands.
pub struct FfiInstallOpts {
    pub packages: Vec<String>,
    pub python: Option<String>,
    pub reinstall: bool,
    pub index_url: Option<String>,
    pub extra_index_url: Option<String>,
    pub link_mode: Option<LinkMode>,
    pub quiet: bool,
    /// The directory that `--target` installs into, apart from the
    /// interpreter's own site-packages.
    pub target: Option<String>,
}

/// The options of a `pip install` command, as plain values.
pub struct InstallOptsModel {
    pub packages: Seq<Seq<char>>,
    pub python: Option<Seq<char>>,
    pub reinstall: bool,
    pub index_url: Option<Seq<char>>,
    pub extra_index_url: Option<Seq<char>>,
    pub link_mode: Option<LinkMode>,
    pub quiet: bool,
    pub target: Option<Seq<char>>,
}

impl View for FfiInstallOpts {
    type V = InstallOptsModel;

    open spec fn view(&self) -> InstallOptsModel {
        InstallOptsModel {
            packages: self.packages.deep_view(),
            python: self.python.deep_view(),
            reinstall: self.reinstall,
            index_url: self.index_url.deep_view(),
            extra_index_url: self.extra_index_url.deep_view(),
            link_mode: self.link_mode,
            quiet: self.quiet,
            target: self.target.deep_view(),
        }
    }
}

/// The options before any token has been read.
pub open spec fn no_options() -> InstallOptsModel {
    InstallOptsModel {
        packages: seq![],
        python: None,
        reinstall: false,
        index_url: None,
        extra_index_url: None,
        link_mode: None,
        quiet: false,
        target: None,
    }
}

/// The token at position `i`, if there is one.
pub open spec fn token_at(tokens: Seq<Seq<char>>, i: int) -> Option<Seq<char>> {
    if 0 <= i < tokens.len() {
        Some(tokens[i])
    } else {
        None
    }
}

/// Whether a token is written as a flag, that is, begins with `-`.
pub open spec fn is_flag(token: Seq<char>) -> bool {
    token.len() > 0 && token[0] == '-'
}

/// `o` with quiet output asked for.
pub open spec fn set_quiet(o: InstallOptsModel) -> InstallOptsModel {
    InstallOptsModel { quiet: true, ..o }
}

/// `o` with the interpreter set to `v`.
pub open spec fn set_python(o: InstallOptsModel, v: Option<Seq<char>>) -> InstallOptsModel {
    InstallOptsModel { python: v, ..o }
}

/// `o` with the index URL set to `v`.
pub open spec fn set_index_url(o: InstallOptsModel, v: Option<Seq<char>>) -> InstallOptsModel {
    InstallOptsModel { index_url: v, ..o }
}

/// `o` with the extra index URL set to `v`.
pub open spec fn set_extra_index_url(o: InstallOptsModel, v: Option<Seq<char>>) -> InstallOptsModel {
    InstallOptsModel { extra_index_url: v, ..o }
}

/// `o` with reinstalling asked for.
pub open spec fn set_reinstall(o: InstallOptsModel) -> InstallOptsModel {
    InstallOptsModel { reinstall: true, ..o }
}

/// `o` with the link mode set to the one that the value `v` names, if any.
pub open spec fn set_link_mode(o: InstallOptsModel, v: Option<Seq<char>>) -> InstallOptsModel {
    InstallOptsModel {
        link_mode: match v {
            Some(t) => link_mode_named(t),
            None => None,
        },
        ..o
    }
}

/// `o` with the target directory set to `v`.
pub open spec fn set_target(o: InstallOptsModel, v: Option<Seq<char>>) -> InstallOptsModel {
    InstallOptsModel { target: v, ..o }
}

/// `o` with the package `p` added after the others.
pub open spec fn add_package(o: InstallOptsModel, p: Seq<char>) -> InstallOptsModel {
    InstallOptsModel { packages: o.packages.push(p), ..o }
}

/// The options read from `tokens[i..]` on top of `o`; `None` where an
/// unknown flag makes the command one for the full parser.
///
/// A flag that takes a value takes the next token whatever it is; where no
/// token follows, the value is unset.
pub open spec fn scan_install_tokens(
    tokens: Seq<Seq<char>>,
    i: int,
    o: InstallOptsModel,
) -> Option<InstallOptsModel>
    decreases tokens.len() + 2 - i,
{
    if i < 0 || i >= tokens.len() {
        Some(o)
    } else {
        let t = tokens[i];
        let value = token_at(tokens, i + 1);
        if t == "-q"@ || t == "--quiet"@ {
            scan_install_tokens(tokens, i + 1, set_quiet(o))
        } else if t == "--python"@ {
            scan_install_tokens(tokens, i + 2, set_python(o, value))
        } else if t == "--cache-dir"@ {
            scan_install_tokens(tokens, i + 2, o)
        } else if t == "--index-url"@ || t == "-i"@ {
            scan_install_tokens(tokens, i + 2, set_index_url(o, value))
        } else if t == "--extra-index-url"@ {
            scan_install_tokens(tokens, i + 2, set_extra_index_url(o, value))
        } else if t == "--reinstall"@ || t == "--force-reinstall"@ {
            scan_install_tokens(tokens, i + 1, set_reinstall(o))
        } else if t == "--link-mode"@ {
            scan_install_tokens(tokens, i + 2, set_link_mode(o, value))
        } else if t == "--target"@ {
            scan_install_tokens(tokens, i + 2, set_target(o, value))
        } else if !is_flag(t) {
            scan_install_tokens(tokens, i + 1, add_package(o, t))
        } else {
            None
        }
    }
}

/// The options of `cmd` when it is a `pip install` command that the fast
/// path handles: it starts with `pip install `, holds only understood
/// flags, and names at least one package.
pub open spec fn install_command(cmd: Seq<char>) -> Option<InstallOptsModel> {
    if "pip install "@.is_prefix_of(cmd) {
        match scan_install_tokens(words(cmd.skip("pip install "@.len() as int)), 0, no_options()) {
            Some(o) => if o.packages.len() > 0 {
                Some(o)
            } else {
                None
            },
            None => None,
        }
    } else {
        None
    }
}

/// The token at `i` as an owned string, if there is one.
fn owned_token_at(tokens: &Vec<&str>, i: usize) -> (r: Option<String>)
    ensures
        r.deep_view() == token_at(str_views(tokens@), i as int),
{
    if i < tokens.len() {
        Some(tokens[i].to_owned())
    } else {
        None
    }
}

/// The position after a flag at `i` and its value; reading stops at the end
/// of the tokens either way.
fn skip_value(i: usize, n: usize, toks: Ghost<Seq<Seq<char>>>, o: Ghost<InstallOptsModel>) -> (r: usize)
    requires
        i < n,
        n == toks@.len(),
    ensures
        i < r <= n,
        scan_install_tokens(toks@, r as int, o@) == scan_install_tokens(toks@, i + 2, o@),
{
    if n - i >= 2 {
        i + 2
    } else {
        n
    }
}

/// Reads the options of a `pip install` command for the fast path; `None`
/// for any other command, one with a flag the fast path does not know, or
/// one that names no package.
pub fn try_parse_ffi_install(cmd: &str) -> (r: Option<FfiInstallOpts>)
    ensures
        match r {
            Some(o) => install_command(cmd@) == Some(o@),
            None => install_command(cmd@) is None,
        },
{
    let rest = match strip_prefix(cmd, "pip install ") {
        Some(rest) => rest,
        None => return None,
    };
    let tokens = split_words(rest);
    let ghost toks = str_views(tokens@);
    let mut opts = FfiInstallOpts {
        packages: Vec::new(),
        python: None,
        reinstall: false,
        index_url: None,
        extra_index_url: None,
        link_mode: None,
        quiet: false,
        target: None,
    };
    assert(opts@ == no_options()) by {
        assert(opts.packages.deep_view() =~= Seq::<Seq<char>>::empty());
    }
    let n = tokens.len();
    let mut i: usize = 0;
    while i < n
        invariant
            n == tokens@.len(),
            toks == str_views(tokens@),
            toks == words(cmd@.skip("pip install "@.len() as int)),
            scan_install_tokens(toks, 0, no_options()) == scan_install_tokens(toks, i as int, opts@),
        decreases n - i,
    {
        let t = tokens[i];
        assert(toks[i as int] == t@);
        if str_equal(t, "-q") || str_equal(t, "--quiet") {
            opts.quiet = true;
            i = i + 1;
        } else if str_equal(t, "--python") {
            opts.python = owned_token_at(&tokens, i + 1);
            i = skip_value(i, n, Ghost(toks), Ghost(opts@));
        } else if str_equal(t, "--cache-dir") {
            i = skip_value(i, n, Ghost(toks), Ghost(opts@));
        } else if str_equal(t, "--index-url") || str_equal(t, "-i") {
            opts.index_url = owned_token_at(&tokens, i + 1);
            i = skip_value(i, n, Ghost(toks), Ghost(opts@));
        } else if str_equal(t, "--extra-index-url") {
            opts.extra_index_url = owned_token_at(&tokens, i + 1);
            i = skip_value(i, n, Ghost(toks), Ghost(opts@));
        } else if str_equal(t, "--reinstall") || str_equal(t, "--force-reinstall") {
            opts.reinstall = true;
            i = i + 1;
        } else if str_equal(t, "--link-mode") {
            opts.link_mode = if i + 1 < n {
                parse_link_mode(tokens[i + 1])
            } else {
                None
            };
            i = skip_value(i, n, Ghost(toks), Ghost(opts@));
        } else if str_equal(t, "--target") {
            opts.target = owned_token_at(&tokens, i + 1);
            i = skip_value(i, n, Ghost(toks), Ghost(opts@));
        } else if t.unicode_len() == 0 || t.get_char(0) != '-' {
            let ghost before = opts.packages.deep_view();
            opts.packages.push(t.to_owned());
            assert(opts.packages.deep_view() =~= before.push(t@));
            i = i + 1;
        } else {
            return None;
        }
    }
    if opts.packages.len() == 0 {
        return None;
    }
    Some(opts)
}

} // verus!

verus! {

/// Naming a link mode and reading the name back gives the same mode: the
/// fast path hands the mode to the installer by name without loss.
pub proof fn lemma_link_mode_name_round_trip(mode: LinkMode)
    ensures
        link_mode_named(link_mode_text(mode)) == Some(mode),
{
    reveal_strlit("symlink");
    reveal_strlit("hardlink");
    reveal_strlit("clone");
    reveal_strlit("copy");
    assert("symlink"@[0] != "hardlink"@[0]);
    assert("symlink"@[0] != "clone"@[0]);
    assert("symlink"@ != "copy"@);
    assert("hardlink"@ != "clone"@);
    assert("hardlink"@ != "copy"@);
    assert("clone"@[1] != "copy"@[1]);
}

} // verus!

verus! {

/// Whether two sets of options agree on everything but quiet output.
pub open spec fn same_except_quiet(a: InstallOptsModel, b: InstallOptsModel) -> bool {
    &&& a.packages == b.packages
    &&& a.python == b.python
    &&& a.reinstall == b.reinstall
    &&& a.index_url == b.index_url
    &&& a.extra_index_url == b.extra_index_url
    &&& a.link_mode == b.link_mode
    &&& a.target == b.target
}

/// Whether reading `tokens[i..]` ends on a flag that takes a value with no
/// token left to be that value.
pub open spec fn awaits_value(tokens: Seq<Seq<char>>, i: int) -> bool
    decreases tokens.len() + 2 - i,
{
    if i < 0 || i >= tokens.len() {
        false
    } else {
        let t = tokens[i];
        if t == "-q"@ || t == "--quiet"@ {
            awaits_value(tokens, i + 1)
        } else if t == "--python"@ || t == "--cache-dir"@ || t == "--index-url"@ || t == "-i"@
            || t == "--extra-index-url"@ {
            i + 1 == tokens.len() || awaits_value(tokens, i + 2)
        } else if t == "--reinstall"@ || t == "--force-reinstall"@ {
            awaits_value(tokens, i + 1)
        } else if t == "--link-mode"@ || t == "--target"@ {
            i + 1 == tokens.len() || awaits_value(tokens, i + 2)
        } else {
            awaits_value(tokens, i + 1)
        }
    }
}

/// A trailing `-q` never turns a command that the fast path reads into one
/// it refuses, adds no package and asks for no reinstall; where no flag is
/// left waiting for its value, every option but quiet output is read as
/// before.
pub proof fn lemma_scan_with_trailing_quiet(
    tokens: Seq<Seq<char>>,
    i: int,
    o: InstallOptsModel,
    o2: InstallOptsModel,
)
    requires
        0 <= i,
        o.packages == o2.packages,
        o.reinstall == o2.reinstall,
        scan_install_tokens(tokens, i, o) is Some,
    ensures
        scan_install_tokens(tokens.push("-q"@), i, o2) is Some,
        scan_install_tokens(tokens.push("-q"@), i, o2).unwrap().packages == scan_install_tokens(
            tokens,
            i,
            o,
        ).unwrap().packages,
        scan_install_tokens(tokens.push("-q"@), i, o2).unwrap().reinstall == scan_install_tokens(
            tokens,
            i,
            o,
        ).unwrap().reinstall,
        same_except_quiet(o, o2) && !awaits_value(tokens, i) ==> same_except_quiet(
            scan_install_tokens(tokens.push("-q"@), i, o2).unwrap(),
            scan_install_tokens(tokens, i, o).unwrap(),
        ),
    decreases tokens.len() + 2 - i,
{
    let longer = tokens.push("-q"@);
    if i >= tokens.len() {
        if i == tokens.len() {
            assert(longer[i] == "-q"@);
            assert(scan_install_tokens(longer, i + 1, set_quiet(o2)) == Some(set_quiet(o2)));
        }
    } else {
        let t = tokens[i];
        assert(longer[i] == t);
        let v = token_at(tokens, i + 1);
        let w = token_at(longer, i + 1);
        assert(i + 1 < tokens.len() ==> v == w);
        if t == "-q"@ || t == "--quiet"@ {
            lemma_scan_with_trailing_quiet(tokens, i + 1, set_quiet(o), set_quiet(o2));
        } else if t == "--python"@ {
            lemma_scan_with_trailing_quiet(tokens, i + 2, set_python(o, v), set_python(o2, w));
        } else if t == "--cache-dir"@ {
            lemma_scan_with_trailing_quiet(tokens, i + 2, o, o2);
        } else if t == "--index-url"@ || t == "-i"@ {
            lemma_scan_with_trailing_quiet(tokens, i + 2, set_index_url(o, v), set_index_url(o2, w));
        } else if t == "--extra-index-url"@ {
            lemma_scan_with_trailing_quiet(
                tokens,
                i + 2,
                set_extra_index_url(o, v),
                set_extra_index_url(o2, w),
            );
        } else if t == "--reinstall"@ || t == "--force-reinstall"@ {
            lemma_scan_with_trailing_quiet(tokens, i + 1, set_reinstall(o), set_reinstall(o2));
        } else if t == "--link-mode"@ {
            lemma_scan_with_trailing_quiet(tokens, i + 2, set_link_mode(o, v), set_link_mode(o2, w));
        } else if t == "--target"@ {
            lemma_scan_with_trailing_quiet(tokens, i + 2, set_target(o, v), set_target(o2, w));
        } else if !is_flag(t) {
            lemma_scan_with_trailing_quiet(tokens, i + 1, add_package(o, t), add_package(o2, t));
        }
    }
}

/// A command that the fast path reads is still read with ` -q` appended,
/// with the same packages and reinstall request, and with every option but
/// quiet output the same where no flag is left waiting for its value.
pub proof fn lemma_install_command_with_quiet(cmd: Seq<char>)
    requires
        install_command(cmd) is Some,
    ensures
        install_command(cmd + " -q"@) is Some,
        install_command(cmd + " -q"@).unwrap().packages == install_command(cmd).unwrap().packages,
        install_command(cmd + " -q"@).unwrap().reinstall == install_command(cmd).unwrap().reinstall,
        !awaits_value(words(cmd.skip("pip install "@.len() as int)), 0) ==> same_except_quiet(
            install_command(cmd + " -q"@).unwrap(),
            install_command(cmd).unwrap(),
        ),
{
    reveal_strlit(" -q");
    reveal_strlit("-q");
    let prefix = "pip install "@;
    let quiet = " -q"@;
    let longer = cmd + quiet;
    assert(prefix.is_prefix_of(longer)) by {
        assert forall|k: int| 0 <= k < prefix.len() implies longer[k] == prefix[k] by {
            assert(cmd[k] == prefix[k]);
        }
    }
    let rest = cmd.skip(prefix.len() as int);
    let flag = "-q"@;
    assert(quiet =~= seq![' '] + flag);
    assert(longer.skip(prefix.len() as int) =~= rest + seq![' '] + flag);
    assert forall|k: int| 0 <= k < flag.len() implies !crate::text::is_unicode_whitespace(#[trigger] flag[k]) by {}
    crate::text::lemma_words_append_word(rest, flag);
    lemma_scan_with_trailing_quiet(words(rest), 0, no_options(), no_options());
}

} // verus!

verus! {

/// Reading tokens none of which is `-i` or `--index-url` leaves the index
/// URL as it was.
proof fn lemma_scan_keeps_index_url(tokens: Seq<Seq<char>>, i: int, o: InstallOptsModel)
    requires
        forall|k: int| i <= k < tokens.len() ==> #[trigger] tokens[k] != "-i"@ && tokens[k] != "--index-url"@,
    ensures
        scan_install_tokens(tokens, i, o) matches Some(r) ==> r.index_url == o.index_url,
    decreases tokens.len() + 2 - i,
{
    if 0 <= i < tokens.len() {
        let t = tokens[i];
        let v = token_at(tokens, i + 1);
        if t == "-q"@ || t == "--quiet"@ {
            lemma_scan_keeps_index_url(tokens, i + 1, set_quiet(o));
        } else if t == "--python"@ {
            lemma_scan_keeps_index_url(tokens, i + 2, set_python(o, v));
        } else if t == "--cache-dir"@ {
            lemma_scan_keeps_index_url(tokens, i + 2, o);
        } else if t == "--index-url"@ || t == "-i"@ {
        } else if t == "--extra-index-url"@ {
            lemma_scan_keeps_index_url(tokens, i + 2, set_extra_index_url(o, v));
        } else if t == "--reinstall"@ || t == "--force-reinstall"@ {
            lemma_scan_keeps_index_url(tokens, i + 1, set_reinstall(o));
        } else if t == "--link-mode"@ {
            lemma_scan_keeps_index_url(tokens, i + 2, set_link_mode(o, v));
        } else if t == "--target"@ {
            lemma_scan_keeps_index_url(tokens, i + 2, set_target(o, v));
        } else if !is_flag(t) {
            lemma_scan_keeps_index_url(tokens, i + 1, add_package(o, t));
        }
    }
}

/// Reading tokens none of which is `--extra-index-url` leaves the extra
/// index URL as it was.
proof fn lemma_scan_keeps_extra_index_url(tokens: Seq<Seq<char>>, i: int, o: InstallOptsModel)
    requires
        forall|k: int| i <= k < tokens.len() ==> #[trigger] tokens[k] != "--extra-index-url"@,
    ensures
        scan_install_tokens(tokens, i, o) matches Some(r) ==> r.extra_index_url == o.extra_index_url,
    decreases tokens.len() + 2 - i,
{
    if 0 <= i < tokens.len() {
        let t = tokens[i];
        let v = token_at(tokens, i + 1);
        if t == "-q"@ || t == "--quiet"@ {
            lemma_scan_keeps_extra_index_url(tokens, i + 1, set_quiet(o));
        } else if t == "--python"@ {
            lemma_scan_keeps_extra_index_url(tokens, i + 2, set_python(o, v));
        } else if t == "--cache-dir"@ {
            lemma_scan_keeps_extra_index_url(tokens, i + 2, o);
        } else if t == "--index-url"@ || t == "-i"@ {
            lemma_scan_keeps_extra_index_url(tokens, i + 2, set_index_url(o, v));
        } else if t == "--extra-index-url"@ {
        } else if t == "--reinstall"@ || t == "--force-reinstall"@ {
            lemma_scan_keeps_extra_index_url(tokens, i + 1, set_reinstall(o));
        } else if t == "--link-mode"@ {
            lemma_scan_keeps_extra_index_url(tokens, i + 2, set_link_mode(o, v));
        } else if t == "--target"@ {
            lemma_scan_keeps_extra_index_url(tokens, i + 2, set_target(o, v));
        } else if !is_flag(t) {
            lemma_scan_keeps_extra_index_url(tokens, i + 1, add_package(o, t));
        }
    }
}

/// The primary index URL comes only from `-i` or `--index-url`, and the
/// extra one only from `--extra-index-url`: a command without such a word
/// reads no such URL, whatever else it holds.
pub proof fn lemma_index_urls_come_from_their_flags(cmd: Seq<char>)
    requires
        install_command(cmd) is Some,
    ensures
        (forall|k: int| 0 <= k < words(cmd.skip("pip install "@.len() as int)).len() ==> #[trigger] words(
            cmd.skip("pip install "@.len() as int),
        )[k] != "-i"@ && words(cmd.skip("pip install "@.len() as int))[k] != "--index-url"@)
            ==> install_command(cmd).unwrap().index_url is None,
        (forall|k: int| 0 <= k < words(cmd.skip("pip install "@.len() as int)).len() ==> #[trigger] words(
            cmd.skip("pip install "@.len() as int),
        )[k] != "--extra-index-url"@) ==> install_command(cmd).unwrap().extra_index_url is None,
{
    let toks = words(cmd.skip("pip install "@.len() as int));
    if forall|k: int| 0 <= k < toks.len() ==> #[trigger] toks[k] != "-i"@ && toks[k] != "--index-url"@ {
        lemma_scan_keeps_index_url(toks, 0, no_options());
    }
    if forall|k: int| 0 <= k < toks.len() ==> #[trigger] toks[k] != "--extra-index-url"@ {
        lemma_scan_keeps_extra_index_url(toks, 0, no_options());
    }
}

} // verus!
