//! How the viewer notices that the geometry snapshot on disk changed: the
//! files of the snapshot's manifest, each with its size and modification
//! time, compared between two looks.

use vstd::prelude::*;
use crate::assoc::{StrMap, assoc_insert, entry_views};
use crate::text::string_from_str;

verus! {

/// What the file system reports of one file: its modification time in
/// nanoseconds from the Unix epoch (negative before it), when known, and
/// its length.
#[derive(Clone, Copy, Debug, PartialEq, Eq, Structural)]
pub struct SnapshotFileStamp {
    pub modified_nanos: Option<i128>,
    pub len: u64,
}

/// Every file of a snapshot with its stamp, `None` for a file that could
/// not be inspected.
pub struct SnapshotFileSignature {
    pub files: StrMap<Option<SnapshotFileStamp>>,
}

/// The map built by inserting the pairs in order: a later pair for the
/// same path wins.
pub open spec fn collected(
    pairs: Seq<(Seq<char>, Option<SnapshotFileStamp>)>,
) -> Seq<(Seq<char>, Option<SnapshotFileStamp>)>
    decreases pairs.len(),
{
    if pairs.len() == 0 {
        Seq::empty()
    } else {
        assoc_insert(collected(pairs.drop_last()), pairs.last().0, pairs.last().1)
    }
}

/// The signature of the given files and stamps.
pub fn snapshot_file_signature(files: Vec<(String, Option<SnapshotFileStamp>)>) -> (signature:
    SnapshotFileSignature)
    ensures
        signature.files@ == collected(entry_views(files@)),
{
    let mut map: StrMap<Option<SnapshotFileStamp>> = StrMap::new();
    let n = files.len();
    let ghost pairs = entry_views(files@);
    for i in 0..n
        invariant
            n == files@.len(),
            pairs == entry_views(files@),
            map@ == collected(pairs.take(i as int)),
    {
        assert(pairs.take(i + 1).drop_last() =~= pairs.take(i as int));
        let path = string_from_str(files[i].0.as_str());
        let stamp = files[i].1;
        assert(pairs.take(i + 1).last() == (path@, stamp));
        map.insert(path, stamp);
    }
    assert(pairs.take(n as int) =~= pairs);
    SnapshotFileSignature { files: map }
}

fn same_text(a: &String, b: &String) -> (r: bool)
    ensures
        r == (a@ == b@),
{
    let x = crate::text::str_chars(a.as_str());
    crate::text::chars_eq_str(&x, b.as_str())
}

/// Whether two signatures differ: a file was added or dropped, or a stamp
/// changed.
pub fn snapshot_file_signature_changed(
    previous: &SnapshotFileSignature,
    current: &SnapshotFileSignature,
) -> (changed: bool)
    ensures
        changed == (previous.files@ != current.files@),
{
    let a = previous.files.entries();
    let b = current.files.entries();
    if a.len() != b.len() {
        assert(previous.files@.len() != current.files@.len());
        return true;
    }
    let n = a.len();
    for i in 0..n
        invariant
            n == a@.len() == b@.len(),
            entry_views(a@) == previous.files@,
            entry_views(b@) == current.files@,
            forall|j: int| 0 <= j < i ==> #[trigger] previous.files@[j] == current.files@[j],
    {
        let (pa, sa) = &a[i];
        let (pb, sb) = &b[i];
        assert(previous.files@[i as int] == (pa@, *sa));
        assert(current.files@[i as int] == (pb@, *sb));
        if !same_text(pa, pb) || *sa != *sb {
            return true;
        }
    }
    assert(previous.files@ =~= current.files@);
    false
}

/// The file names that a snapshot manifest lists: nine that are always
/// there and eight that may be.
pub struct SnapshotManifestPaths {
    pub path: String,
    pub meta: String,
    pub shapes: String,
    pub owners: String,
    pub payload: String,
    pub names: String,
    pub name_index: String,
    pub sidmap: String,
    pub view: String,
    pub layers: Option<String>,
    pub sites: Option<String>,
    pub masters: Option<String>,
    pub vias: Option<String>,
    pub grids: Option<String>,
    pub connectivity: Option<String>,
    pub buses: Option<String>,
    pub groups: Option<String>,
    pub delta: Option<String>,
}

/// The sequence of an optional item: empty or one item.
pub open spec fn optional(p: Option<String>) -> Seq<Seq<char>> {
    match p {
        Some(s) => seq![s@],
        None => Seq::empty(),
    }
}

/// The manifest's files in the order they are inspected: the nine that are
/// always there, then each optional one that is present.
pub open spec fn manifest_files(m: SnapshotManifestPaths) -> Seq<Seq<char>> {
    seq![m.path@, m.meta@, m.shapes@, m.owners@, m.payload@, m.names@, m.name_index@, m.sidmap@, m.view@]
        + optional(m.layers) + optional(m.sites) + optional(m.masters) + optional(m.vias)
        + optional(m.grids) + optional(m.connectivity) + optional(m.buses) + optional(m.groups)
        + optional(m.delta)
}

fn push_optional(paths: &mut Vec<String>, p: &Option<String>)
    ensures
        crate::text::string_views(final(paths)@) == crate::text::string_views(old(paths)@)
            + optional(*p),
{
    match p {
        Some(s) => {
            let ghost before = crate::text::string_views(paths@);
            paths.push(string_from_str(s.as_str()));
            assert(crate::text::string_views(paths@) =~= before + seq![s@]);
        },
        None => {
            assert(crate::text::string_views(paths@) =~= crate::text::string_views(paths@)
                + Seq::<Seq<char>>::empty());
        },
    }
}

/// The files whose stamps make a snapshot's signature (see
/// `manifest_files`).
pub fn snapshot_paths(m: &SnapshotManifestPaths) -> (paths: Vec<String>)
    ensures
        crate::text::string_views(paths@) == manifest_files(*m),
{
    let mut paths: Vec<String> = Vec::new();
    paths.push(string_from_str(m.path.as_str()));
    paths.push(string_from_str(m.meta.as_str()));
    paths.push(string_from_str(m.shapes.as_str()));
    paths.push(string_from_str(m.owners.as_str()));
    paths.push(string_from_str(m.payload.as_str()));
    paths.push(string_from_str(m.names.as_str()));
    paths.push(string_from_str(m.name_index.as_str()));
    paths.push(string_from_str(m.sidmap.as_str()));
    paths.push(string_from_str(m.view.as_str()));
    assert(crate::text::string_views(paths@) =~= seq![
        m.path@,
        m.meta@,
        m.shapes@,
        m.owners@,
        m.payload@,
        m.names@,
        m.name_index@,
        m.sidmap@,
        m.view@,
    ]);
    push_optional(&mut paths, &m.layers);
    push_optional(&mut paths, &m.sites);
    push_optional(&mut paths, &m.masters);
    push_optional(&mut paths, &m.vias);
    push_optional(&mut paths, &m.grids);
    push_optional(&mut paths, &m.connectivity);
    push_optional(&mut paths, &m.buses);
    push_optional(&mut paths, &m.groups);
    push_optional(&mut paths, &m.delta);
    paths
}

} // verus!
