//! The catalog of an event folder: which of its entries are clips, why the
//! others are not, and the clips in the order of their start times.

use vstd::prelude::*;
use vstd::string::*;
use crate::camera::{clip_name_verdict, CameraFile, CameraFileView};
use crate::error::ClipError;

verus! {

/// One entry of a folder as the listing reports it.
#[derive(Debug, PartialEq, Eq)]
pub struct FolderEntry {
    /// The path of the entry.
    pub path: String,
    /// Whether the entry is known to be a regular file.
    pub regular_file: bool,
    /// When the entry was last modified, in seconds since 1970-01-01, where
    /// its metadata could be read.
    pub modified: Option<i64>,
}

/// A [`FolderEntry`] as contracts speak of it.
pub struct FolderEntryView {
    pub path: Seq<char>,
    pub regular_file: bool,
    pub modified: Option<int>,
}

impl View for FolderEntry {
    type V = FolderEntryView;

    open spec fn view(&self) -> FolderEntryView {
        FolderEntryView {
            path: self.path@,
            regular_file: self.regular_file,
            modified: match self.modified {
                Some(m) => Some(m as int),
                None => None,
            },
        }
    }
}

/// An entry that is no clip of the catalog, with the reason.
#[derive(Debug, PartialEq, Eq)]
pub struct Skipped {
    /// The path of the entry.
    pub path: String,
    /// Why it was left out.
    pub reason: ClipError,
}

/// A [`Skipped`] as contracts speak of it.
pub struct SkippedView {
    pub path: Seq<char>,
    pub reason: ClipError,
}

impl View for Skipped {
    type V = SkippedView;

    open spec fn view(&self) -> SkippedView {
        SkippedView { path: self.path@, reason: self.reason }
    }
}

/// The entries of a listing as contracts speak of them.
pub open spec fn entry_views(entries: Seq<FolderEntry>) -> Seq<FolderEntryView> {
    entries.map_values(|e: FolderEntry| e@)
}

/// The clips of a list as contracts speak of them.
pub open spec fn file_views(files: Seq<CameraFile>) -> Seq<CameraFileView> {
    files.map_values(|f: CameraFile| f@)
}

/// The skipped entries of a list as contracts speak of them.
pub open spec fn skipped_views(skipped: Seq<Skipped>) -> Seq<SkippedView> {
    skipped.map_values(|s: Skipped| s@)
}

/// What becomes of an entry: the clip it is, or the reason why it is left
/// out. An entry that is no regular file, or whose modification time could
/// not be read, fails on the file system; a name outside the grammar fails
/// with the grammar's own reason.
pub open spec fn entry_verdict(e: FolderEntryView) -> Result<CameraFileView, ClipError> {
    if !e.regular_file {
        Err(ClipError::Filesystem)
    } else if clip_name_verdict(e.path).is_err() {
        clip_name_verdict(e.path)
    } else if e.modified.is_none() {
        Err(ClipError::Filesystem)
    } else {
        clip_name_verdict(e.path)
    }
}

/// The test for an entry that is a clip.
pub open spec fn is_clip() -> spec_fn(FolderEntryView) -> bool {
    |e: FolderEntryView| entry_verdict(e).is_ok()
}

/// The test for an entry that is left out.
pub open spec fn is_left_out() -> spec_fn(FolderEntryView) -> bool {
    |e: FolderEntryView| entry_verdict(e).is_err()
}

/// The clips among the entries, in the order of the listing.
pub open spec fn accepted(entries: Seq<FolderEntryView>) -> Seq<CameraFileView> {
    entries.filter(is_clip()).map_values(|e: FolderEntryView| entry_verdict(e).unwrap())
}

/// The entries left out, each with its reason, in the order of the listing.
pub open spec fn rejected(entries: Seq<FolderEntryView>) -> Seq<SkippedView> {
    entries.filter(is_left_out()).map_values(
        |e: FolderEntryView| SkippedView { path: e.path, reason: entry_verdict(e)->Err_0 },
    )
}

/// The latest modification time among the clips of the entries, if there is
/// a clip.
pub open spec fn latest(entries: Seq<FolderEntryView>) -> Option<int>
    decreases entries.len(),
{
    if entries.len() == 0 {
        None
    } else {
        let before = latest(entries.drop_last());
        let e = entries.last();
        if entry_verdict(e).is_ok() {
            match before {
                Some(m) => if m >= e.modified.unwrap() {
                    Some(m)
                } else {
                    e.modified
                },
                None => e.modified,
            }
        } else {
            before
        }
    }
}

/// The number by which a clip is ordered: the ordinal of its start time.
pub open spec fn start_key(f: CameraFileView) -> int {
    f.start_time.ordinal()
}

/// Whether no clip of the list starts before one that stands earlier.
pub open spec fn is_chronological(s: Seq<CameraFileView>) -> bool {
    forall|i: int, j: int| 0 <= i <= j < s.len() ==> start_key(s[i]) <= start_key(s[j])
}

/// The test for a clip whose start time has the ordinal `key`.
pub open spec fn starts_at(key: int) -> spec_fn(CameraFileView) -> bool {
    |f: CameraFileView| start_key(f) == key
}

/// The clips of the list that start at `key`, in the order of the list.
pub open spec fn group(s: Seq<CameraFileView>, key: int) -> Seq<CameraFileView> {
    s.filter(starts_at(key))
}

/// The place behind the last clip of `s` that starts at `key` or before it;
/// in a chronological list, the place where a clip starting at `key` goes
/// to stand behind all that start no later.
pub open spec fn upper_bound(s: Seq<CameraFileView>, key: int) -> int
    decreases s.len(),
{
    if s.len() == 0 {
        0
    } else if start_key(s.last()) <= key {
        s.len() as int
    } else {
        upper_bound(s.drop_last(), key)
    }
}

/// The clips in the order of their start times, clips of one start time in
/// the order in which the list has them.
pub open spec fn chronological(s: Seq<CameraFileView>) -> Seq<CameraFileView>
    decreases s.len(),
{
    if s.len() == 0 {
        s
    } else {
        let before = chronological(s.drop_last());
        before.insert(upper_bound(before, start_key(s.last())), s.last())
    }
}

/// A list with one more element is filtered by filtering the list and
/// keeping or dropping the element.
pub proof fn lemma_filter_push<A>(s: Seq<A>, x: A, pred: spec_fn(A) -> bool)
    ensures
        s.push(x).filter(pred) == if pred(x) {
            s.filter(pred).push(x)
        } else {
            s.filter(pred)
        },
{
    reveal(Seq::filter);
    assert(s.push(x).drop_last() =~= s);
}

/// What one more entry adds to the clips, to the entries left out and to the
/// latest modification time.
pub proof fn lemma_one_more_entry(entries: Seq<FolderEntryView>, e: FolderEntryView)
    ensures
        entry_verdict(e).is_ok() ==> accepted(entries.push(e)) == accepted(entries).push(entry_verdict(e).unwrap())
            && rejected(entries.push(e)) == rejected(entries),
        entry_verdict(e).is_err() ==> accepted(entries.push(e)) == accepted(entries) && rejected(
            entries.push(e),
        ) == rejected(entries).push(SkippedView { path: e.path, reason: entry_verdict(e)->Err_0 }),
{
    lemma_filter_push(entries, e, is_clip());
    lemma_filter_push(entries, e, is_left_out());
    if entry_verdict(e).is_ok() {
        assert(accepted(entries.push(e)) =~= accepted(entries).push(entry_verdict(e).unwrap()));
    } else {
        assert(rejected(entries.push(e)) =~= rejected(entries).push(
            SkippedView { path: e.path, reason: entry_verdict(e)->Err_0 },
        ));
    }
}

/// Every entry is either a clip or left out: the two lists together are as
/// long as the listing.
pub proof fn lemma_every_entry_counted(entries: Seq<FolderEntryView>)
    ensures
        accepted(entries).len() + rejected(entries).len() == entries.len(),
    decreases entries.len(),
{
    if entries.len() == 0 {
        reveal(Seq::filter);
    } else {
        lemma_every_entry_counted(entries.drop_last());
        lemma_one_more_entry(entries.drop_last(), entries.last());
        assert(entries.drop_last().push(entries.last()) =~= entries);
    }
}

/// Where [`upper_bound`] points in a chronological list: all clips before
/// that place start at `key` or earlier, all from it on start later.
pub proof fn lemma_upper_bound(s: Seq<CameraFileView>, key: int)
    requires
        is_chronological(s),
    ensures
        0 <= upper_bound(s, key) <= s.len(),
        forall|i: int| 0 <= i < upper_bound(s, key) ==> start_key(#[trigger] s[i]) <= key,
        forall|i: int| upper_bound(s, key) <= i < s.len() ==> start_key(#[trigger] s[i]) > key,
    decreases s.len(),
{
    if s.len() > 0 && start_key(s.last()) > key {
        let t = s.drop_last();
        assert(is_chronological(t)) by {
            assert forall|i: int, j: int| 0 <= i <= j < t.len() implies start_key(t[i]) <= start_key(t[j]) by {
                assert(t[i] == s[i] && t[j] == s[j]);
            }
        }
        lemma_upper_bound(t, key);
        assert forall|i: int| 0 <= i < upper_bound(s, key) implies start_key(#[trigger] s[i]) <= key by {
            assert(t[i] == s[i]);
        }
        assert forall|i: int| upper_bound(s, key) <= i < s.len() implies start_key(#[trigger] s[i]) > key by {
            if i < t.len() {
                assert(t[i] == s[i]);
            }
        }
    }
}

/// Setting a clip at its [`upper_bound`] keeps a chronological list
/// chronological, and adds the clip at the end of the group of its start time.
pub proof fn lemma_insert_in_order(s: Seq<CameraFileView>, x: CameraFileView)
    requires
        is_chronological(s),
    ensures
        is_chronological(s.insert(upper_bound(s, start_key(x)), x)),
        forall|key: int| #[trigger]
            group(s.insert(upper_bound(s, start_key(x)), x), key) == group(s.push(x), key),
{
    let k = start_key(x);
    let at = upper_bound(s, k);
    lemma_upper_bound(s, k);
    let r = s.insert(at, x);
    let head = s.subrange(0, at);
    let tail = s.subrange(at, s.len() as int);
    assert(r =~= head + seq![x] + tail);
    assert(s =~= head + tail);
    assert forall|i: int, j: int| 0 <= i <= j < r.len() implies start_key(r[i]) <= start_key(r[j]) by {
        if i < at {
            assert(r[i] == s[i]);
        } else if i > at {
            assert(r[i] == s[i - 1]);
        }
        if j < at {
            assert(r[j] == s[j]);
        } else if j > at {
            assert(r[j] == s[j - 1]);
        }
    }
    assert forall|key: int| #[trigger] group(r, key) == group(s.push(x), key) by {
        let p = starts_at(key);
        Seq::filter_distributes_over_add(head + seq![x], tail, p);
        Seq::filter_distributes_over_add(head, seq![x], p);
        Seq::filter_distributes_over_add(head, tail, p);
        lemma_filter_push(s, x, p);
        lemma_filter_push(Seq::<CameraFileView>::empty(), x, p);
        assert(Seq::<CameraFileView>::empty().push(x) =~= seq![x]);
        assert(Seq::<CameraFileView>::empty().filter(p) =~= Seq::<CameraFileView>::empty()) by {
            reveal(Seq::filter);
        }
        if key == k {
            assert(tail.all(|f: CameraFileView| !p(f))) by {
                assert forall|i: int| 0 <= i < tail.len() implies !p(#[trigger] tail[i]) by {
                    assert(tail[i] == s[at + i]);
                }
            }
            tail.lemma_all_neg_filter_empty(p);
            assert(tail.filter(p) =~= Seq::<CameraFileView>::empty());
            assert(group(r, key) =~= head.filter(p).push(x));
            assert(group(s, key) =~= head.filter(p));
        } else {
            assert(seq![x].filter(p) =~= Seq::<CameraFileView>::empty());
            assert(group(r, key) =~= head.filter(p) + tail.filter(p));
        }
    }
}

/// The order of start times, stated: the result is chronological, holds the
/// same clips as often, and keeps each group of one start time as the list
/// had it.
pub proof fn lemma_chronological(s: Seq<CameraFileView>)
    ensures
        is_chronological(chronological(s)),
        chronological(s).to_multiset() == s.to_multiset(),
        chronological(s).len() == s.len(),
        forall|key: int| #[trigger] group(chronological(s), key) == group(s, key),
    decreases s.len(),
{
    if s.len() > 0 {
        let before = chronological(s.drop_last());
        let x = s.last();
        lemma_chronological(s.drop_last());
        lemma_insert_in_order(before, x);
        lemma_upper_bound(before, start_key(x));
        let at = upper_bound(before, start_key(x));
        vstd::seq_lib::to_multiset_insert(before, at, x);
        vstd::seq_lib::to_multiset_build(s.drop_last(), x);
        assert(s.drop_last().push(x) =~= s);
        assert forall|key: int| #[trigger] group(chronological(s), key) == group(s, key) by {
            assert(group(before.insert(at, x), key) == group(before.push(x), key));
            lemma_filter_push(before, x, starts_at(key));
            lemma_filter_push(s.drop_last(), x, starts_at(key));
            assert(group(before, key) == group(s.drop_last(), key));
        }
    }
}

/// An entry that is no clip is left out of the catalog and stands among the
/// skipped entries with its reason; an entry that is a clip stands among the
/// clips. Nothing else stands in either list.
pub proof fn lemma_every_entry_recorded(entries: Seq<FolderEntryView>, i: int)
    requires
        0 <= i < entries.len(),
    ensures
        entry_verdict(entries[i]) matches Err(reason) ==> rejected(entries).contains(
            SkippedView { path: entries[i].path, reason: reason },
        ),
        entry_verdict(entries[i]) matches Ok(file) ==> accepted(entries).contains(file) && chronological(
            accepted(entries),
        ).contains(file),
{
    let e = entries[i];
    match entry_verdict(e) {
        Err(reason) => {
            entries.lemma_filter_contains(is_left_out(), i);
            let kept = entries.filter(is_left_out());
            let k = choose|k: int| 0 <= k < kept.len() && kept[k] == e;
            assert(rejected(entries)[k] == SkippedView { path: e.path, reason: reason });
        },
        Ok(file) => {
            entries.lemma_filter_contains(is_clip(), i);
            let kept = entries.filter(is_clip());
            let k = choose|k: int| 0 <= k < kept.len() && kept[k] == e;
            assert(accepted(entries)[k] == file);
            lemma_chronological(accepted(entries));
            assert(accepted(entries).to_multiset().count(file) > 0) by {
                accepted(entries).to_multiset_ensures();
            }
            assert(chronological(accepted(entries)).contains(file)) by {
                chronological(accepted(entries)).to_multiset_ensures();
            }
        },
    }
}

/// Whatever the entries are, the clips of the catalog stand in the order of
/// their start times: none starts before one that stands earlier.
pub proof fn lemma_catalog_ordering(entries: Seq<FolderEntryView>)
    ensures
        is_chronological(chronological(accepted(entries))),
{
    lemma_chronological(accepted(entries));
}

/// A listing with clips and other entries yields a catalog of exactly the
/// clips: as many as the entries that are clips, the others being skipped,
/// and no entry lost.
pub proof fn lemma_partial_tolerance(entries: Seq<FolderEntryView>)
    ensures
        chronological(accepted(entries)).len() == entries.filter(is_clip()).len(),
        rejected(entries).len() == entries.filter(is_left_out()).len(),
        chronological(accepted(entries)).len() + rejected(entries).len() == entries.len(),
{
    lemma_chronological(accepted(entries));
    lemma_every_entry_counted(entries);
}

/// What [`latest`] is: nothing exactly where no entry is a clip, and else the
/// modification time of a clip that none of the clips exceeds.
pub proof fn lemma_latest(entries: Seq<FolderEntryView>)
    ensures
        latest(entries).is_none() <==> accepted(entries).len() == 0,
        latest(entries).is_none() ==> forall|i: int|
            0 <= i < entries.len() ==> entry_verdict(#[trigger] entries[i]).is_err(),
        latest(entries) matches Some(m) ==> {
            &&& exists|i: int|
                0 <= i < entries.len() && entry_verdict(#[trigger] entries[i]).is_ok() && entries[i].modified
                    == Some(m)
            &&& forall|i: int|
                0 <= i < entries.len() && entry_verdict(#[trigger] entries[i]).is_ok()
                    ==> entries[i].modified.unwrap() <= m
        },
    decreases entries.len(),
{
    if entries.len() == 0 {
        reveal(Seq::filter);
    } else {
        let head = entries.drop_last();
        let e = entries.last();
        lemma_latest(head);
        lemma_one_more_entry(head, e);
        assert(head.push(e) =~= entries);
        if latest(entries).is_none() {
            assert forall|i: int| 0 <= i < entries.len() implies entry_verdict(#[trigger] entries[i]).is_err() by {
                if i < head.len() {
                    assert(entries[i] == head[i]);
                }
            }
        }
        if let Some(m) = latest(entries) {
            if latest(head) == Some(m) {
                let i = choose|i: int|
                    0 <= i < head.len() && entry_verdict(#[trigger] head[i]).is_ok() && head[i].modified == Some(
                        m,
                    );
                assert(entries[i] == head[i]);
            } else {
                assert(entry_verdict(entries[entries.len() - 1]).is_ok());
            }
            assert forall|i: int|
                0 <= i < entries.len() && entry_verdict(#[trigger] entries[i]).is_ok() implies entries[i].modified.unwrap()
                <= m by {
                if i < head.len() {
                    assert(entries[i] == head[i]);
                    assert(entry_verdict(head[i]).is_ok());
                }
            }
        }
    }
}

/// The seconds of an optional time as an integer.
pub open spec fn seconds_of(time: Option<i64>) -> Option<int> {
    match time {
        Some(t) => Some(t as int),
        None => None,
    }
}

/// What a folder's listing yields: its clips in the order of their start
/// times, the entries left out, and the latest modification among the clips.
#[derive(Debug)]
pub struct Catalog {
    pub clips: Vec<CameraFile>,
    pub skipped: Vec<Skipped>,
    pub last_modified: Option<i64>,
}

/// The place in `clips` behind the last clip that starts at `key` or before.
fn insertion_point(clips: &Vec<CameraFile>, key: u64) -> (r: usize)
    ensures
        r as int == upper_bound(file_views(clips@), key as int),
        r <= clips.len(),
{
    let ghost views = file_views(clips@);
    let mut at: usize = clips.len();
    assert(views.take(at as int) =~= views);
    while at > 0
        invariant
            at <= clips.len(),
            views == file_views(clips@),
            upper_bound(views, key as int) == upper_bound(views.take(at as int), key as int),
        decreases at,
    {
        let start = clips[at - 1].start_time().ordinal();
        assert(views.take(at as int).last() == clips@[at - 1]@);
        if start <= key {
            return at;
        }
        assert(views.take(at as int).drop_last() =~= views.take(at - 1));
        at -= 1;
    }
    0
}

/// Reads the listing of a folder into a catalog. No entry makes the catalog
/// fail: one that is no clip is left out with its reason.
pub fn process_folder(entries: &Vec<FolderEntry>) -> (r: Catalog)
    ensures
        file_views(r.clips@) == chronological(accepted(entry_views(entries@))),
        skipped_views(r.skipped@) == rejected(entry_views(entries@)),
        seconds_of(r.last_modified) == latest(entry_views(entries@)),
        is_chronological(file_views(r.clips@)),
        r.clips@.len() == accepted(entry_views(entries@)).len(),
        r.clips@.len() + r.skipped@.len() == entries@.len(),
{
    let ghost all = entry_views(entries@);
    let mut clips: Vec<CameraFile> = Vec::new();
    let mut skipped: Vec<Skipped> = Vec::new();
    let mut last_modified: Option<i64> = None;
    let mut i: usize = 0;
    proof {
        reveal(Seq::filter);
        assert(all.take(0) =~= Seq::<FolderEntryView>::empty());
        assert(file_views(clips@) =~= chronological(accepted(all.take(0))));
        assert(skipped_views(skipped@) =~= rejected(all.take(0)));
    }
    while i < entries.len()
        invariant
            i <= entries.len(),
            all == entry_views(entries@),
            file_views(clips@) == chronological(accepted(all.take(i as int))),
            skipped_views(skipped@) == rejected(all.take(i as int)),
            seconds_of(last_modified) == latest(all.take(i as int)),
        decreases entries.len() - i,
    {
        let entry = &entries[i];
        let ghost seen = all.take(i as int);
        proof {
            assert(all.take(i + 1) =~= seen.push(entry@));
            assert(all.take(i + 1).drop_last() =~= seen);
            lemma_one_more_entry(seen, entry@);
        }
        let verdict: Result<CameraFile, ClipError> = if !entry.regular_file {
            Err(ClipError::Filesystem)
        } else {
            match CameraFile::from(entry.path.as_str()) {
                Ok(file) => {
                    if entry.modified.is_none() {
                        Err(ClipError::Filesystem)
                    } else {
                        Ok(file)
                    }
                },
                Err(reason) => Err(reason),
            }
        };
        match verdict {
            Ok(file) => {
                assert(entry_verdict(entry@) == Ok::<CameraFileView, ClipError>(file@));
                let modified: i64 = entry.modified.unwrap();
                last_modified =
                match last_modified {
                    Some(m) => if m >= modified {
                        Some(m)
                    } else {
                        Some(modified)
                    },
                    None => Some(modified),
                };
                let key: u64 = file.start_time().ordinal();
                let at: usize = insertion_point(&clips, key);
                let ghost before = file_views(clips@);
                let ghost added = file@;
                clips.insert(at, file);
                assert(file_views(clips@) =~= before.insert(at as int, added));
                assert(accepted(seen).push(added).drop_last() =~= accepted(seen));
            },
            Err(reason) => {
                assert(entry_verdict(entry@) == Err::<CameraFileView, ClipError>(reason));
                let ghost before = skipped_views(skipped@);
                let left_out = Skipped { path: entry.path.clone(), reason };
                let ghost added = left_out@;
                skipped.push(left_out);
                assert(skipped_views(skipped@) =~= before.push(added));
            },
        }
        i += 1;
    }
    proof {
        assert(all.take(i as int) =~= all);
        lemma_chronological(accepted(all));
        lemma_every_entry_counted(all);
    }
    Catalog { clips, skipped, last_modified }
}

} // verus!
