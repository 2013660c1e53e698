//! The manifest: the listing of all files that the server offers, the scan that it is
//! made from, and the files that are left to hand out.

use crate::server::file_set::{FileSet, StoredText};
use crate::server::manifest_file;
use crate::text;
use std::collections::VecDeque;
use vstd::prelude::*;
use vstd::string::*;

verus! {

/// The file that the manifest is kept in.
pub const MANIFEST_PATH: &'static str = "manifest.txt";

/// The number of files between two reports of progress.
pub const PROGRESS_STEP: usize = 1_000;

/// One entry met on a walk through a directory.
pub enum WalkEntry {
    /// The entry could not be read.
    Unreadable,
    /// A directory, a link or anything else that is no plain file.
    Other,
    /// A plain file, with its path.
    File(String),
}

impl WalkEntry {
    /// The path that the entry adds to a scan, if it does.
    pub open spec fn found(self) -> Seq<Seq<char>> {
        match self {
            WalkEntry::File(path) => seq![path@],
            _ => Seq::empty(),
        }
    }

    /// Whether the entry is a plain file.
    pub fn is_file(&self) -> (r: bool)
        ensures
            r == (*self is File),
    {
        match self {
            WalkEntry::File(_) => true,
            _ => false,
        }
    }
}

/// Whether progress is reported once `count` files are done.
pub fn progress_due(count: usize) -> (r: bool)
    ensures
        r == (count % PROGRESS_STEP == 0),
        r == (count % 1000 == 0),
{
    count % PROGRESS_STEP == 0
}

/// What a scan of the directory reports a number of files about.
#[derive(Clone, Copy, Debug, PartialEq, Eq, Structural)]
pub enum ScanProgress {
    /// The files are being counted.
    Counting,
    /// The files were counted, or are being listed.
    Found,
    /// The files were listed.
    Scanned,
}

impl ScanProgress {
    /// The text of the report on `count` files.
    pub open spec fn message(self, count: nat) -> Seq<char> {
        match self {
            ScanProgress::Counting => "Counted "@ + text::decimal(count) + " files..."@,
            ScanProgress::Found => "Found "@ + text::decimal(count) + " files"@,
            ScanProgress::Scanned => "Scanned "@ + text::decimal(count) + " files"@,
        }
    }

    /// The text of the report on `count` files.
    pub fn report(self, count: usize) -> (r: String)
        ensures
            r@ == self.message(count as nat),
    {
        let number = text::to_decimal(count as u64);
        match self {
            ScanProgress::Counting => {
                let mut s = "Counted ".to_owned();
                s.append(number.as_str());
                s.append(" files...");
                s
            },
            ScanProgress::Found => {
                let mut s = "Found ".to_owned();
                s.append(number.as_str());
                s.append(" files");
                s
            },
            ScanProgress::Scanned => {
                let mut s = "Scanned ".to_owned();
                s.append(number.as_str());
                s.append(" files");
                s
            },
        }
    }
}

/// Adds what one entry of a walk contributes to the files found so far.
pub fn visit(files: &mut VecDeque<String>, entry: WalkEntry)
    ensures
        text::texts(final(files)@) == text::texts(old(files)@) + entry.found(),
{
    let ghost before = text::texts(files@);
    match entry {
        WalkEntry::File(path) => {
            let ghost p = path@;
            files.push_back(path);
            assert(text::texts(files@) =~= before + seq![p]);
        },
        _ => {
            assert(text::texts(files@) =~= before + Seq::<Seq<char>>::empty());
        },
    }
}

/// The plain files met on `walk`, by their paths, in the order of the walk.
pub open spec fn found_on(walk: Seq<WalkEntry>) -> Seq<Seq<char>> {
    walk.filter(|e: WalkEntry| e is File).map_values(|e: WalkEntry| e->File_0@)
}

proof fn lemma_found_on_push(walk: Seq<WalkEntry>, entry: WalkEntry)
    ensures
        found_on(walk.push(entry)) == found_on(walk) + entry.found(),
{
    walk.lemma_filter_push(entry, |e: WalkEntry| e is File);
    assert(found_on(walk.push(entry)) =~= found_on(walk) + entry.found());
}

/// The files that a walk through a directory finds: the paths of its plain files, in
/// the order of the walk.
pub fn scan(walk: VecDeque<WalkEntry>) -> (r: VecDeque<String>)
    ensures
        text::texts(r@) == found_on(walk@),
{
    let ghost all = walk@;
    let mut entries = walk;
    let mut files: VecDeque<String> = VecDeque::new();
    proof {
        assert(all.take(0) =~= Seq::<WalkEntry>::empty());
        reveal(Seq::filter);
        assert(text::texts(files@) =~= found_on(all.take(0)));
        assert(all.skip(0) =~= all);
    }
    while entries.len() > 0
        invariant
            entries@.len() <= all.len(),
            entries@ == all.skip(all.len() - entries@.len()),
            text::texts(files@) == found_on(all.take(all.len() - entries@.len())),
        decreases entries@.len(),
    {
        let ghost done = all.len() - entries@.len();
        if let Some(entry) = entries.pop_front() {
            proof {
                lemma_found_on_push(all.take(done), entry);
                assert(all.take(done + 1) =~= all.take(done).push(entry));
                assert(entries@ =~= all.skip(done + 1));
            }
            visit(&mut files, entry);
        }
    }
    assert(all.take(all.len() as int) =~= all);
    files
}

/// Two servers that meet the same files on their walks have the same list of files,
/// whatever comes of writing the manifest at either: it is the plain files of the walk,
/// in its order.
pub proof fn law_list_is_the_walk(
    walk: Seq<WalkEntry>,
    one: Seq<manifest_file::WriteEvent>,
    other: Seq<manifest_file::WriteEvent>,
)
    ensures
        manifest_file::run(found_on(walk), one).files == found_on(walk),
        manifest_file::run(found_on(walk), one).files == manifest_file::run(
            found_on(walk),
            other,
        ).files,
{
    manifest_file::law_list_does_not_depend_on_writing(found_on(walk), one, other);
}

/// Where the files to hand out are taken from.
pub enum ManifestSource {
    /// The text of a manifest that was written before.
    Stored(String),
    /// There is a manifest, and reading it failed with this message.
    Unreadable(String),
    /// There was no manifest, and a scan found these files.
    Scanned(VecDeque<String>),
}

/// Why there is no list of files to hand out.
#[derive(Debug)]
pub enum FileListError {
    /// The manifest could not be read, with the message of the failure.
    ManifestUnreadable(String),
}

impl ManifestSource {
    /// The source that the stored manifest is. There is none where no manifest was
    /// stored: then a scan takes its place.
    pub fn from_stored(stored: StoredText) -> (r: Option<ManifestSource>)
        ensures
            r == (match stored {
                StoredText::Missing => None,
                StoredText::Unreadable(m) => Some(ManifestSource::Unreadable(m)),
                StoredText::Content(s) => Some(ManifestSource::Stored(s)),
            }),
    {
        match stored {
            StoredText::Missing => None,
            StoredText::Unreadable(m) => Some(ManifestSource::Unreadable(m)),
            StoredText::Content(s) => Some(ManifestSource::Stored(s)),
        }
    }

    /// All files that the source names, in its order.
    pub open spec fn files(self) -> Seq<Seq<char>> {
        match self {
            ManifestSource::Stored(s) => StoredText::Content(s).entries(),
            ManifestSource::Unreadable(_) => Seq::empty(),
            ManifestSource::Scanned(files) => text::texts(files@),
        }
    }
}

/// The files of `all` that were not downloaded yet, in their order.
pub open spec fn remaining(all: Seq<Seq<char>>, downloaded: Set<Seq<char>>) -> Seq<Seq<char>> {
    all.filter(|p: Seq<char>| !downloaded.contains(p))
}

proof fn lemma_filter_empty(keep: spec_fn(Seq<char>) -> bool)
    ensures
        Seq::<Seq<char>>::empty().filter(keep) == Seq::<Seq<char>>::empty(),
{
    reveal(Seq::filter);
}

fn remaining_of_manifest(manifest: &str, downloaded: &FileSet) -> (r: VecDeque<String>)
    ensures
        text::texts(r@) == remaining(
            text::lines(manifest@).filter(|l: Seq<char>| !text::blank(l)),
            downloaded@,
        ),
{
    let mut files: VecDeque<String> = VecDeque::new();
    let found = text::split_lines(manifest);
    let ghost all = text::texts(found@);
    let ghost full = |l: Seq<char>| !text::blank(l);
    let ghost fresh = |p: Seq<char>| !downloaded@.contains(p);
    let mut i: usize = 0;
    proof {
        assert(all.take(0) =~= Seq::<Seq<char>>::empty());
        lemma_filter_empty(full);
        lemma_filter_empty(fresh);
        assert(text::texts(files@) =~= Seq::<Seq<char>>::empty());
    }
    while i < found.len()
        invariant
            i <= found.len(),
            all == text::texts(found@),
            full == (|l: Seq<char>| !text::blank(l)),
            fresh == (|p: Seq<char>| !downloaded@.contains(p)),
            text::texts(files@) == all.take(i as int).filter(full).filter(fresh),
        decreases found.len() - i,
    {
        let ghost had = all.take(i as int);
        let ghost before = text::texts(files@);
        let ghost line = found@[i as int]@;
        proof {
            assert(all.take(i + 1) =~= had.push(line));
            had.lemma_filter_push(line, full);
            had.filter(full).lemma_filter_push(line, fresh);
        }
        if !text::is_blank(found[i].as_str()) && !downloaded.contains(found[i].as_str()) {
            files.push_back(found[i].clone());
            assert(text::texts(files@) =~= before.push(line));
        }
        i = i + 1;
    }
    assert(all.take(all.len() as int) =~= all);
    files
}

fn remaining_of_scan(all_files: VecDeque<String>, downloaded: &FileSet) -> (r: VecDeque<String>)
    ensures
        text::texts(r@) == remaining(text::texts(all_files@), downloaded@),
{
    let mut files: VecDeque<String> = VecDeque::new();
    let ghost all = text::texts(all_files@);
    let ghost fresh = |p: Seq<char>| !downloaded@.contains(p);
    let mut i: usize = 0;
    proof {
        assert(all.take(0) =~= Seq::<Seq<char>>::empty());
        lemma_filter_empty(fresh);
        assert(text::texts(files@) =~= Seq::<Seq<char>>::empty());
    }
    while i < all_files.len()
        invariant
            i <= all_files@.len(),
            all == text::texts(all_files@),
            fresh == (|p: Seq<char>| !downloaded@.contains(p)),
            text::texts(files@) == all.take(i as int).filter(fresh),
        decreases all_files@.len() - i,
    {
        let ghost had = all.take(i as int);
        let ghost before = text::texts(files@);
        let ghost path = all_files@[i as int]@;
        proof {
            assert(all.take(i + 1) =~= had.push(path));
            had.lemma_filter_push(path, fresh);
        }
        if !downloaded.contains(all_files[i].as_str()) {
            files.push_back(all_files[i].clone());
            assert(text::texts(files@) =~= before.push(path));
        }
        i = i + 1;
    }
    assert(all.take(all.len() as int) =~= all);
    files
}

/// The files that are left to hand out: those of the manifest, or of the scan
/// made in its place, that were not downloaded. There is no list if and only if
/// the manifest could not be read.
pub fn load_file_list(source: ManifestSource, downloaded: &FileSet) -> (r: Result<
    VecDeque<String>,
    FileListError,
>)
    ensures
        match r {
            Ok(files) => {
                &&& !(source is Unreadable)
                &&& text::texts(files@) == remaining(source.files(), downloaded@)
            },
            Err(FileListError::ManifestUnreadable(m)) => source == ManifestSource::Unreadable(m),
        },
{
    match source {
        ManifestSource::Stored(s) => Ok(remaining_of_manifest(s.as_str(), downloaded)),
        ManifestSource::Unreadable(m) => Err(FileListError::ManifestUnreadable(m)),
        ManifestSource::Scanned(all_files) => Ok(remaining_of_scan(all_files, downloaded)),
    }
}

/// The list that the server starts with: an empty one where none could be had.
pub fn files_or_none(files: Result<VecDeque<String>, FileListError>) -> (r: VecDeque<String>)
    ensures
        match files {
            Ok(f) => r == f,
            Err(_) => r@.len() == 0,
        },
{
    match files {
        Ok(f) => f,
        Err(_) => VecDeque::new(),
    }
}

/// A file is left to hand out exactly if it is listed and was not downloaded.
pub proof fn law_remaining_members(all: Seq<Seq<char>>, downloaded: Set<Seq<char>>, p: Seq<char>)
    ensures
        remaining(all, downloaded).contains(p) <==> all.contains(p) && !downloaded.contains(p),
{
    let fresh = |x: Seq<char>| !downloaded.contains(x);
    let left = all.filter(fresh);
    if left.contains(p) {
        all.lemma_filter_contains_rev(fresh, p);
        all.lemma_filter_pred(fresh, left.index_of(p));
    }
    if all.contains(p) && fresh(p) {
        all.lemma_filter_contains(fresh, all.index_of(p));
    }
}

/// A filter that every item passes changes nothing.
proof fn lemma_filter_all(s: Seq<Seq<char>>, keep: spec_fn(Seq<char>) -> bool)
    requires
        forall|i: int| 0 <= i < s.len() ==> keep(#[trigger] s[i]),
    ensures
        s.filter(keep) == s,
    decreases s.len(),
{
    reveal(Seq::filter);
    if s.len() > 0 {
        assert forall|i: int| 0 <= i < s.drop_last().len() implies keep(
            #[trigger] s.drop_last()[i],
        ) by {
            assert(s.drop_last()[i] == s[i]);
        }
        lemma_filter_all(s.drop_last(), keep);
        assert(s.drop_last().push(s.last()) =~= s);
    }
}

/// A server that finds the manifest of an earlier scan hands out the same files
/// as if it had scanned again, if each path can be kept on a line of its own and
/// nothing failed in the writing.
pub proof fn law_manifest_stands_for_scan(
    files: VecDeque<String>,
    events: Seq<manifest_file::WriteEvent>,
    manifest: String,
    downloaded: Set<Seq<char>>,
)
    requires
        forall|i: int| 0 <= i < files@.len() ==> text::storable((#[trigger] files@[i])@),
        manifest_file::due(text::texts(files@), events),
        manifest_file::smooth(events),
        manifest_file::run(text::texts(files@), events).phase is Written,
        manifest@ == manifest_file::written(text::texts(files@), events),
    ensures
        ManifestSource::Stored(manifest).files() == ManifestSource::Scanned(files).files(),
        remaining(ManifestSource::Stored(manifest).files(), downloaded) == remaining(
            ManifestSource::Scanned(files).files(),
            downloaded,
        ),
{
    let ls = text::texts(files@);
    assert(files@.len() == files.len());
    manifest_file::law_batches_make_manifest(ls, events);
    assert forall|i: int| 0 <= i < ls.len() implies text::storable(#[trigger] ls[i]) by {
        assert(text::storable(files@[i]@));
    }
    text::law_lines_round_trip(ls);
    lemma_filter_all(ls, |l: Seq<char>| !text::blank(l));
}

/// A scan goes through the walk entry by entry: a plain file adds its path, whatever that
/// is, any other entry adds nothing, and what two walks find, one behind the other, is what
/// each finds.
pub proof fn law_scan_lists_each_file(a: Seq<WalkEntry>, b: Seq<WalkEntry>, path: String)
    ensures
        found_on(a + b) == found_on(a) + found_on(b),
        found_on(seq![WalkEntry::File(path)]) == seq![path@],
        found_on(seq![WalkEntry::Other]) == Seq::<Seq<char>>::empty(),
        found_on(seq![WalkEntry::Unreadable]) == Seq::<Seq<char>>::empty(),
        WalkEntry::File(path).found() == seq![path@],
        WalkEntry::Other.found().len() == 0 && WalkEntry::Unreadable.found().len() == 0,
{
    let plain = |e: WalkEntry| e is File;
    let none = Seq::<WalkEntry>::empty();
    Seq::filter_distributes_over_add(a, b, plain);
    assert(found_on(a + b) =~= found_on(a) + found_on(b));
    assert(found_on(none) =~= Seq::<Seq<char>>::empty()) by {
        reveal(Seq::filter);
    }
    lemma_found_on_push(none, WalkEntry::File(path));
    lemma_found_on_push(none, WalkEntry::Other);
    lemma_found_on_push(none, WalkEntry::Unreadable);
    assert(none.push(WalkEntry::File(path)) =~= seq![WalkEntry::File(path)]);
    assert(none.push(WalkEntry::Other) =~= seq![WalkEntry::Other]);
    assert(none.push(WalkEntry::Unreadable) =~= seq![WalkEntry::Unreadable]);
    assert(found_on(none) + seq![path@] =~= seq![path@]);
    assert(found_on(none) + Seq::<Seq<char>>::empty() =~= Seq::<Seq<char>>::empty());
}

/// A scan lists a path as often as the walk meets a plain file of that path: no plain file
/// is left out, and nothing else is listed.
pub proof fn law_scan_counts_each_file(walk: Seq<WalkEntry>, path: Seq<char>)
    ensures
        found_on(walk).to_multiset().count(path) == walk.filter(
            |e: WalkEntry| e is File && e->File_0@ == path,
        ).len(),
        found_on(walk).contains(path) <==> exists|i: int|
            0 <= i < walk.len() && (#[trigger] walk[i] matches WalkEntry::File(p) && p@ == path),
    decreases walk.len(),
{
    let met = |e: WalkEntry| e is File && e->File_0@ == path;
    reveal(Seq::filter);
    found_on(walk).to_multiset_ensures();
    if walk.len() > 0 {
        let before = walk.drop_last();
        let last = walk.last();
        law_scan_counts_each_file(before, path);
        lemma_found_on_push(before, last);
        assert(before.push(last) =~= walk);
        before.lemma_filter_push(last, met);
        found_on(before).to_multiset_ensures();
        if let WalkEntry::File(p) = last {
            assert(found_on(walk) =~= found_on(before).push(p@));
        } else {
            assert(found_on(walk) =~= found_on(before));
        }
        if exists|i: int|
            0 <= i < walk.len() && (#[trigger] walk[i] matches WalkEntry::File(p) && p@ == path) {
            let i = choose|i: int|
                0 <= i < walk.len() && (#[trigger] walk[i] matches WalkEntry::File(p) && p@
                    == path);
            if i < before.len() {
                assert(before[i] == walk[i]);
            } else {
                assert(found_on(walk)[found_on(before).len() as int] == path);
            }
            if found_on(before).contains(path) {
                let k = found_on(before).index_of(path);
                assert(found_on(walk)[k] == path);
            }
        }
        if found_on(walk).contains(path) {
            let k = found_on(walk).index_of(path);
            if k < found_on(before).len() {
                assert(found_on(before)[k] == path);
                let i = choose|i: int|
                    0 <= i < before.len() && (#[trigger] before[i] matches WalkEntry::File(p) && p@
                        == path);
                assert(walk[i] == before[i]);
            } else {
                assert(walk[walk.len() - 1] == last);
            }
        }
    } else {
        assert(found_on(walk) =~= Seq::<Seq<char>>::empty());
    }
}

/// The files that are left go through the list one by one: a file that was downloaded leaves
/// the list, any other stays once, and what is left of two lists, one behind the other, is
/// what is left of each. With nothing downloaded the list is left as it is.
pub proof fn law_remaining_one_by_one(
    a: Seq<Seq<char>>,
    b: Seq<Seq<char>>,
    downloaded: Set<Seq<char>>,
    p: Seq<char>,
)
    ensures
        remaining(a + b, downloaded) == remaining(a, downloaded) + remaining(b, downloaded),
        downloaded.contains(p) ==> remaining(seq![p], downloaded).len() == 0,
        !downloaded.contains(p) ==> remaining(seq![p], downloaded) == seq![p],
        remaining(Seq::empty(), downloaded) == Seq::<Seq<char>>::empty(),
        remaining(a, Set::empty()) == a,
        remaining(a, downloaded).len() + a.filter(|x: Seq<char>| downloaded.contains(x)).len()
            == a.len(),
{
    let fresh = |x: Seq<char>| !downloaded.contains(x);
    let none = Seq::<Seq<char>>::empty();
    Seq::filter_distributes_over_add(a, b, fresh);
    lemma_filter_empty(fresh);
    none.lemma_filter_push(p, fresh);
    assert(none.push(p) =~= seq![p]);
    lemma_filter_all(a, |x: Seq<char>| !Set::<Seq<char>>::empty().contains(x));
    lemma_filter_parts(a, downloaded);
}

proof fn lemma_filter_parts(a: Seq<Seq<char>>, downloaded: Set<Seq<char>>)
    ensures
        a.filter(|x: Seq<char>| !downloaded.contains(x)).len() + a.filter(
            |x: Seq<char>| downloaded.contains(x),
        ).len() == a.len(),
    decreases a.len(),
{
    reveal(Seq::filter);
    if a.len() > 0 {
        lemma_filter_parts(a.drop_last(), downloaded);
    }
}

/// What is left holds a path as often as the list does if it was not downloaded, and else not
/// at all.
pub proof fn law_remaining_counts(all: Seq<Seq<char>>, downloaded: Set<Seq<char>>, p: Seq<char>)
    ensures
        remaining(all, downloaded).to_multiset().count(p) == (if downloaded.contains(p) {
            0
        } else {
            all.to_multiset().count(p)
        }),
    decreases all.len(),
{
    let fresh = |x: Seq<char>| !downloaded.contains(x);
    if all.len() == 0 {
        lemma_filter_empty(fresh);
        assert(all =~= Seq::<Seq<char>>::empty());
        all.to_multiset_ensures();
    } else {
        let before = all.drop_last();
        law_remaining_counts(before, downloaded, p);
        before.lemma_filter_push(all.last(), fresh);
        assert(before.push(all.last()) =~= all);
        before.to_multiset_ensures();
        before.filter(fresh).to_multiset_ensures();
    }
}

/// A stored manifest names the entries of its text, an unreadable one nothing, and a scan the
/// files that it found, one for one and in their order.
pub proof fn law_source_files(text: String, message: String, found: VecDeque<String>)
    ensures
        ManifestSource::Stored(text).files() == StoredText::Content(text).entries(),
        ManifestSource::Unreadable(message).files().len() == 0,
        ManifestSource::Scanned(found).files().len() == found@.len(),
        forall|i: int|
            0 <= i < found@.len() ==> #[trigger] ManifestSource::Scanned(found).files()[i]
                == found@[i]@,
{
}

/// Progress is told in these words, with the number of files.
pub proof fn law_progress_messages(n: nat)
    ensures
        ScanProgress::Counting.message(n) == "Counted "@ + text::decimal(n) + " files..."@,
        ScanProgress::Found.message(n) == "Found "@ + text::decimal(n) + " files"@,
        ScanProgress::Scanned.message(n) == "Scanned "@ + text::decimal(n) + " files"@,
{
}

} // verus!
