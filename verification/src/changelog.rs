//! What an install changed, and how it is reported: as name and version
//! pairs to Python, and as JSON written into a caller's buffer to C.

use vstd::prelude::*;
use vstd::string::StringSliceAdditionalSpecFns;

verus! {

/// A distribution that an install added or removed.
pub struct ChangedPackage {
    pub name: String,
    /// The version, where the distribution has one.
    pub version: Option<String>,
}

/// The distributions an install added and removed.
pub struct Changelog {
    pub installed: Vec<ChangedPackage>,
    pub uninstalled: Vec<ChangedPackage>,
}

/// A changed distribution, as plain values.
pub open spec fn change_view(d: ChangedPackage) -> (Seq<char>, Option<Seq<char>>) {
    (d.name@, d.version.deep_view())
}

/// The reported entry of a change: its name, and its version or the empty
/// string.
pub open spec fn entry_of(d: (Seq<char>, Option<Seq<char>>)) -> (Seq<char>, Seq<char>) {
    (
        d.0,
        match d.1 {
            Some(v) => v,
            None => Seq::<char>::empty(),
        },
    )
}

/// The reported entries of a list of changes.
pub open spec fn entries_of(changes: Seq<ChangedPackage>) -> Seq<(Seq<char>, Seq<char>)> {
    changes.map_values(|d: ChangedPackage| entry_of(change_view(d)))
}

/// The entries of a list of pairs, as plain values.
pub open spec fn pairs_view(v: Seq<(String, String)>) -> Seq<(Seq<char>, Seq<char>)> {
    v.map_values(|p: (String, String)| (p.0@, p.1@))
}

/// The name and version of a changed distribution; an unknown version is
/// reported as the empty string.
pub fn dist_entry(d: &ChangedPackage) -> (r: (String, String))
    ensures
        (r.0@, r.1@) == entry_of(change_view(*d)),
{
    let name = d.name.clone();
    let version = match &d.version {
        Some(v) => v.clone(),
        None => String::new(),
    };
    (name, version)
}

/// The entries of a list of changes, in order.
pub fn dist_entries(changes: &Vec<ChangedPackage>) -> (r: Vec<(String, String)>)
    ensures
        pairs_view(r@) == entries_of(changes@),
{
    let mut out: Vec<(String, String)> = Vec::new();
    let n = changes.len();
    let mut i: usize = 0;
    while i < n
        invariant
            n == changes@.len(),
            i <= n,
            pairs_view(out@) == entries_of(changes@.take(i as int)),
        decreases n - i,
    {
        let e = dist_entry(&changes[i]);
        let ghost before = pairs_view(out@);
        out.push(e);
        assert(pairs_view(out@) =~= before.push((e.0@, e.1@)));
        assert(entries_of(changes@.take(i + 1)) =~= entries_of(changes@.take(i as int)).push(
            entry_of(change_view(changes@[i as int])),
        ));
        i = i + 1;
    }
    assert(changes@.take(n as int) =~= changes@);
    out
}

/// The error text reported with a run: uv's message where there is one,
/// else the empty string.
pub open spec fn error_text(err: Option<Seq<char>>) -> Seq<char> {
    match err {
        Some(e) => e,
        None => Seq::<char>::empty(),
    }
}

/// What a run reports to Python: the exit code, the installed and the
/// removed entries (both empty where the run left no changelog), and uv's
/// error message (empty where there is none).
pub fn run_summary(rc: i32, changelog: Option<&Changelog>, err: Option<String>) -> (r: (
    i32,
    Vec<(String, String)>,
    Vec<(String, String)>,
    String,
))
    ensures
        r.0 == rc,
        match changelog {
            Some(cl) => pairs_view(r.1@) == entries_of(cl.installed@) && pairs_view(r.2@) == entries_of(
                cl.uninstalled@,
            ),
            None => r.1@.len() == 0 && r.2@.len() == 0,
        },
        r.3@ == error_text(err.deep_view()),
{
    let message = match err {
        Some(e) => e,
        None => String::new(),
    };
    match changelog {
        Some(cl) => (rc, dist_entries(&cl.installed), dist_entries(&cl.uninstalled), message),
        None => (rc, Vec::new(), Vec::new(), message),
    }
}

/// One entry as a JSON array of two strings; the text is not escaped.
pub open spec fn json_pair(e: (Seq<char>, Seq<char>)) -> Seq<char> {
    "[\""@ + e.0 + "\",\""@ + e.1 + "\"]"@
}

/// Entries as JSON arrays separated by commas.
pub open spec fn json_items(es: Seq<(Seq<char>, Seq<char>)>) -> Seq<char>
    decreases es.len(),
{
    if es.len() == 0 {
        Seq::<char>::empty()
    } else if es.len() == 1 {
        json_pair(es[0])
    } else {
        json_items(es.drop_last()) + ","@ + json_pair(es.last())
    }
}

/// The JSON report of a run: the installed and the removed entries.
pub open spec fn changelog_json_text(
    installed: Seq<(Seq<char>, Seq<char>)>,
    removed: Seq<(Seq<char>, Seq<char>)>,
) -> Seq<char> {
    "{\"installed\":["@ + json_items(installed) + "],\"removed\":["@ + json_items(removed) + "]}"@
}

/// Appends the entries of `changes` to `out` as comma-separated JSON arrays.
fn push_json_items(out: &mut String, changes: &Vec<ChangedPackage>)
    ensures
        final(out)@ == old(out)@ + json_items(entries_of(changes@)),
{
    let n = changes.len();
    let mut i: usize = 0;
    let ghost start = out@;
    while i < n
        invariant
            n == changes@.len(),
            i <= n,
            out@ == start + json_items(entries_of(changes@.take(i as int))),
        decreases n - i,
    {
        let e = dist_entry(&changes[i]);
        let ghost es = entries_of(changes@.take(i + 1));
        assert(entries_of(changes@.take(i + 1)) =~= entries_of(changes@.take(i as int)).push(
            (e.0@, e.1@),
        ));
        assert(es.drop_last() =~= entries_of(changes@.take(i as int)));
        if i > 0 {
            out.append(",");
        }
        out.append("[\"");
        out.append(e.0.as_str());
        out.append("\",\"");
        out.append(e.1.as_str());
        out.append("\"]");
        assert(out@ =~= start + json_items(es));
        i = i + 1;
    }
    assert(changes@.take(n as int) =~= changes@);
}

/// The JSON report of a run; with no changelog both lists are empty.
pub fn changelog_json(changelog: Option<&Changelog>) -> (r: String)
    ensures
        r@ == match changelog {
            Some(cl) => changelog_json_text(entries_of(cl.installed@), entries_of(cl.uninstalled@)),
            None => changelog_json_text(seq![], seq![]),
        },
{
    let mut out = String::new();
    out.append("{\"installed\":[");
    if let Some(cl) = changelog {
        push_json_items(&mut out, &cl.installed);
    }
    out.append("],\"removed\":[");
    if let Some(cl) = changelog {
        push_json_items(&mut out, &cl.uninstalled);
    }
    out.append("]}");
    out
}

/// How many bytes of an encoded report of `len` bytes fit a buffer of
/// `max_out` bytes that also holds the closing NUL.
pub open spec fn copied_len(len: int, max_out: int) -> int {
    if len < max_out - 1 {
        len
    } else {
        max_out - 1
    }
}

/// The bytes written into a C buffer of `max_out` bytes: the UTF-8 encoding
/// of `text`, cut to leave room for a closing NUL, then the NUL.
pub fn c_buffer_bytes(text: &str, max_out: i32) -> (r: Vec<u8>)
    requires
        max_out >= 1,
    ensures
        r@ == text.spec_bytes().take(copied_len(text.spec_bytes().len() as int, max_out as int)) + seq![0u8],
        r@.len() <= max_out,
{
    let bytes = text.as_bytes();
    let room = max_out - 1;
    let mut out: Vec<u8> = Vec::new();
    let mut i: usize = 0;
    while i < bytes.len() && (i as i64) < (room as i64)
        invariant
            bytes@ == text.spec_bytes(),
            room == max_out - 1,
            i <= bytes@.len(),
            i <= room,
            out@ == bytes@.take(i as int),
        decreases bytes@.len() - i,
    {
        out.push(bytes[i]);
        assert(bytes@.take(i + 1) =~= bytes@.take(i as int).push(bytes@[i as int]));
        i = i + 1;
    }
    assert(i as int == copied_len(bytes@.len() as int, max_out as int));
    out.push(0u8);
    out
}

} // verus!

verus! {

/// Adding an entry after at least one other adds exactly one comma and then
/// the entry.
pub proof fn lemma_json_items_push(es: Seq<(Seq<char>, Seq<char>)>, e: (Seq<char>, Seq<char>))
    ensures
        es.len() > 0 ==> json_items(es.push(e)) == json_items(es) + ","@ + json_pair(e),
        es.len() == 0 ==> json_items(es.push(e)) == json_pair(e),
{
    assert(es.push(e).drop_last() =~= es);
    assert(es.push(e).last() == e);
    if es.len() == 0 {
        assert(es.push(e)[0] == e);
    }
}

/// The items of two non-empty lists joined are the items of each, separated
/// by one comma.
pub proof fn lemma_json_items_concat(a: Seq<(Seq<char>, Seq<char>)>, b: Seq<(Seq<char>, Seq<char>)>)
    requires
        a.len() > 0,
        b.len() > 0,
    ensures
        json_items(a + b) == json_items(a) + ","@ + json_items(b),
    decreases b.len(),
{
    if b.len() == 1 {
        assert(a + b =~= a.push(b[0]));
        lemma_json_items_push(a, b[0]);
    } else {
        let front = b.drop_last();
        lemma_json_items_concat(a, front);
        assert(a + b =~= (a + front).push(b.last()));
        assert(b =~= front.push(b.last()));
        lemma_json_items_push(a + front, b.last());
        lemma_json_items_push(front, b.last());
        assert(json_items(a) + ","@ + json_items(front) + ","@ + json_pair(b.last()) =~= json_items(a)
            + ","@ + (json_items(front) + ","@ + json_pair(b.last())));
    }
}

/// Cutting a list at any inner position cuts its items at one comma: every
/// two neighbouring entries are separated by exactly one comma.
pub proof fn lemma_json_items_separated(es: Seq<(Seq<char>, Seq<char>)>, k: int)
    requires
        0 < k < es.len(),
    ensures
        json_items(es) == json_items(es.take(k)) + ","@ + json_items(es.skip(k)),
{
    assert(es =~= es.take(k) + es.skip(k));
    lemma_json_items_concat(es.take(k), es.skip(k));
}

} // verus!
