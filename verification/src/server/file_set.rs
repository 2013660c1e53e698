//! Sets of file paths that are kept in a text file, one path to a line.

use crate::text;
use vstd::hash_set::StringHashSet;
use vstd::prelude::*;
use vstd::string::*;

verus! {

/// A set of file paths. It remembers the order in which they came.
pub struct FileSet {
    index: StringHashSet,
    order: Vec<String>,
}

impl View for FileSet {
    type V = Set<Seq<char>>;

    closed spec fn view(&self) -> Set<Seq<char>> {
        self.index@
    }
}

impl FileSet {
    /// The paths in the order in which they came.
    pub closed spec fn listing(&self) -> Seq<Seq<char>> {
        text::texts(self.order@)
    }

    /// The listing names each member once and nothing else.
    pub open spec fn wf(&self) -> bool {
        &&& self.listing().no_duplicates()
        &&& self@ == self.listing().to_set()
    }

    /// The empty set.
    pub fn new() -> (r: Self)
        ensures
            r.wf(),
            r@ == Set::<Seq<char>>::empty(),
            r.listing() == Seq::<Seq<char>>::empty(),
    {
        let r = FileSet { index: StringHashSet::new(), order: Vec::new() };
        assert(r.listing() =~= Seq::<Seq<char>>::empty());
        assert(r@ =~= r.listing().to_set());
        r
    }

    /// Whether `path` is a member.
    pub fn contains(&self, path: &str) -> (r: bool)
        ensures
            r == self@.contains(path@),
    {
        self.index.contains(path)
    }

    /// The number of members.
    pub fn len(&self) -> (r: usize)
        requires
            self.wf(),
        ensures
            r == self@.len(),
            r == self.listing().len(),
    {
        proof {
            self.listing().unique_seq_to_set();
        }
        self.order.len()
    }

    /// Adds `path`, behind the others in the listing unless it is there already.
    pub fn insert(&mut self, path: String)
        requires
            old(self).wf(),
        ensures
            final(self).wf(),
            final(self)@ == old(self)@.insert(path@),
            final(self).listing() == (if old(self)@.contains(path@) {
                old(self).listing()
            } else {
                old(self).listing().push(path@)
            }),
    {
        let ghost before = self.listing();
        let ghost members = self@;
        if self.index.contains(path.as_str()) {
            assert(members.insert(path@) =~= members);
        } else {
            let ghost p = path@;
            self.order.push(path.clone());
            self.index.insert(path);
            proof {
                assert(self.listing() =~= before.push(p));
                assert(!before.contains(p));
                assert(self.listing().to_set() =~= members.insert(p)) by {
                    assert forall|x: Seq<char>| self.listing().contains(x) <==> members.insert(
                        p,
                    ).contains(x) by {
                        if self.listing().contains(x) && x != p {
                            let i = self.listing().index_of(x);
                            assert(before[i] == x);
                        }
                        if before.contains(x) {
                            let i = before.index_of(x);
                            assert(self.listing()[i] == x);
                        }
                        assert(self.listing()[before.len() as int] == p);
                    }
                }
            }
        }
    }
}

/// What was found where a listing is kept.
pub enum StoredText {
    /// There is no file.
    Missing,
    /// There is a file, and reading it as text failed with this message.
    Unreadable(String),
    /// The text of the file.
    Content(String),
}

impl StoredText {
    /// The lines of the listing that are not blank; none where nothing was read.
    pub open spec fn entries(&self) -> Seq<Seq<char>> {
        match *self {
            StoredText::Content(s) => text::lines(s@).filter(|l: Seq<char>| !text::blank(l)),
            _ => Seq::empty(),
        }
    }

    /// Whether an empty file is to be made in place of the listing: exactly if
    /// there is none.
    pub fn needs_creation(&self) -> (r: bool)
        ensures
            r == (*self is Missing),
    {
        match self {
            StoredText::Missing => true,
            _ => false,
        }
    }
}

/// The set of the paths in a stored listing, one to a line. Blank lines are
/// passed over, and where no listing was read the set is empty.
pub fn load_file_set(stored: &StoredText) -> (r: FileSet)
    ensures
        r.wf(),
        r@ == stored.entries().to_set(),
{
    let mut set = FileSet::new();
    let ghost keep = |l: Seq<char>| !text::blank(l);
    match stored {
        StoredText::Content(s) => {
            let found = text::split_lines(s.as_str());
            let ghost all = text::texts(found@);
            assert(all.take(0).filter(keep) =~= Seq::<Seq<char>>::empty()) by {
                reveal(Seq::filter);
            }
            assert(set@ =~= all.take(0).filter(keep).to_set());
            let mut i: usize = 0;
            while i < found.len()
                invariant
                    i <= found.len(),
                    all == text::texts(found@),
                    keep == (|l: Seq<char>| !text::blank(l)),
                    set.wf(),
                    set@ == all.take(i as int).filter(keep).to_set(),
                decreases found.len() - i,
            {
                let ghost had = all.take(i as int);
                let ghost next = all.take(i + 1);
                let ghost members = set@;
                proof {
                    assert(next.drop_last() =~= had);
                    assert(next.last() == found@[i as int]@);
                    reveal(Seq::filter);
                }
                if !text::is_blank(found[i].as_str()) {
                    set.insert(found[i].clone());
                    proof {
                        assert(next.filter(keep) == had.filter(keep).push(found@[i as int]@));
                        lemma_push_to_set(had.filter(keep), found@[i as int]@);
                    }
                }
                i = i + 1;
            }
            assert(all.take(found@.len() as int) =~= all);
        },
        _ => {
            assert(set@ =~= stored.entries().to_set());
        },
    }
    set
}

proof fn lemma_push_to_set(s: Seq<Seq<char>>, x: Seq<char>)
    ensures
        s.push(x).to_set() == s.to_set().insert(x),
{
    assert forall|y: Seq<char>| s.push(x).contains(y) <==> s.to_set().insert(x).contains(y) by {
        if s.push(x).contains(y) && y != x {
            let i = s.push(x).index_of(y);
            assert(s[i] == y);
        }
        if s.contains(y) {
            let i = s.index_of(y);
            assert(s.push(x)[i] == y);
        }
        assert(s.push(x)[s.len() as int] == x);
    }
    assert(s.push(x).to_set() =~= s.to_set().insert(x));
}

/// The text that keeps the set: each path of its listing with a line feed behind
/// it.
pub fn save_file_set(file_set: &FileSet) -> (r: String)
    ensures
        r@ == text::unlines(file_set.listing()),
{
    let mut out = String::new();
    let ghost all = file_set.listing();
    let mut i: usize = 0;
    assert(all.take(0) =~= Seq::<Seq<char>>::empty());
    while i < file_set.order.len()
        invariant
            i <= file_set.order.len(),
            all == text::texts(file_set.order@),
            out@ == text::unlines(all.take(i as int)),
        decreases file_set.order.len() - i,
    {
        let ghost before = out@;
        out.append(file_set.order[i].as_str());
        out.push('\n');
        proof {
            let next = all.take(i + 1);
            assert(next.drop_last() =~= all.take(i as int));
            assert(out@ =~= before + next.last().push('\n'));
        }
        i = i + 1;
    }
    assert(all.take(all.len() as int) =~= all);
    out
}

/// The set of the files that were downloaded, from its stored listing.
pub fn load_downloaded_files(stored: &StoredText) -> (r: FileSet)
    ensures
        r.wf(),
        r@ == stored.entries().to_set(),
{
    load_file_set(stored)
}

/// The listing to store for the files that were downloaded.
pub fn save_downloaded_files(downloaded: &FileSet) -> (r: String)
    ensures
        r@ == text::unlines(downloaded.listing()),
{
    save_file_set(downloaded)
}

/// The set of the files that were uploaded, from its stored listing.
pub fn load_uploaded_files(stored: &StoredText) -> (r: FileSet)
    ensures
        r.wf(),
        r@ == stored.entries().to_set(),
{
    load_file_set(stored)
}

/// The listing to store for the files that were uploaded.
pub fn save_uploaded_files(uploaded: &FileSet) -> (r: String)
    ensures
        r@ == text::unlines(uploaded.listing()),
{
    save_file_set(uploaded)
}

/// A saved set whose paths are one line each is loaded back, but for blank paths:
/// unchanged if there is none.
pub proof fn law_file_set_round_trip(set: FileSet, saved: String)
    requires
        set.wf(),
        forall|p: Seq<char>| set@.contains(p) ==> text::one_line(p),
        saved@ == text::unlines(set.listing()),
    ensures
        forall|p: Seq<char>|
            StoredText::Content(saved).entries().to_set().contains(p) <==> set@.contains(p)
                && !text::blank(p),
        (forall|p: Seq<char>| set@.contains(p) ==> !text::blank(p)) ==> StoredText::Content(
            saved,
        ).entries().to_set() == set@,
{
    let ls = set.listing();
    let keep = |l: Seq<char>| !text::blank(l);
    assert forall|i: int| 0 <= i < ls.len() implies text::one_line(#[trigger] ls[i]) by {
        assert(ls.contains(ls[i]));
        assert(set@.contains(ls[i]));
    }
    text::law_lines_round_trip(ls);
    let loaded = StoredText::Content(saved).entries();
    assert(loaded == ls.filter(keep));
    assert forall|p: Seq<char>| loaded.to_set().contains(p) <==> set@.contains(p) && !text::blank(
        p,
    ) by {
        if loaded.contains(p) {
            ls.lemma_filter_contains_rev(keep, p);
            ls.lemma_filter_pred(keep, loaded.index_of(p));
        }
        if ls.contains(p) && keep(p) {
            ls.lemma_filter_contains(keep, ls.index_of(p));
        }
    }
    if forall|p: Seq<char>| set@.contains(p) ==> !text::blank(p) {
        assert(loaded.to_set() =~= set@);
    }
}

/// A set that was loaded, whatever from, is saved and loaded back unchanged, if none
/// of its paths ends in a carriage return.
pub proof fn law_loaded_set_round_trip(stored: StoredText, set: FileSet, saved: String)
    requires
        set.wf(),
        set@ == stored.entries().to_set(),
        forall|p: Seq<char>| set@.contains(p) && p.len() > 0 ==> p.last() != '\r',
        saved@ == text::unlines(set.listing()),
    ensures
        StoredText::Content(saved).entries().to_set() == set@,
{
    let keep = |l: Seq<char>| !text::blank(l);
    assert forall|p: Seq<char>| #[trigger] set@.contains(p) implies text::one_line(p)
        && !text::blank(p) by {
        if let StoredText::Content(s) = stored {
            let ls = text::lines(s@);
            let kept = ls.filter(keep);
            assert(kept.contains(p));
            ls.lemma_filter_contains_rev(keep, p);
            ls.lemma_filter_pred(keep, kept.index_of(p));
            text::law_lines_hold_no_line_feed(s@, ls.index_of(p));
        }
    }
    law_file_set_round_trip(set, saved);
}

/// The entries of a stored listing go through its lines one by one: a line that holds anything
/// but white space is an entry as it stands, without the end of the line, and a blank one is
/// none. The last line needs no line feed. Where nothing was read there is no entry.
pub proof fn law_entries_one_by_one(
    line: Seq<char>,
    whole: String,
    returned: String,
    rest: String,
    message: String,
)
    requires
        !line.contains('\n'),
        line.len() == 0 || line.last() != '\r',
        whole@ == line + seq!['\n'] + rest@,
        returned@ == line + seq!['\r', '\n'] + rest@,
    ensures
        ({
            let first = if text::blank(line) {
                Seq::<Seq<char>>::empty()
            } else {
                seq![line]
            };
            &&& StoredText::Content(whole).entries() == first + StoredText::Content(rest).entries()
            &&& StoredText::Content(returned).entries() == first + StoredText::Content(
                rest,
            ).entries()
        }),
        rest@ == line ==> StoredText::Content(rest).entries() == (if text::blank(line) {
            Seq::<Seq<char>>::empty()
        } else {
            seq![line]
        }),
        StoredText::Missing.entries().len() == 0,
        StoredText::Unreadable(message).entries().len() == 0,
{
    let keep = |l: Seq<char>| !text::blank(l);
    text::law_lines_one_by_one(line, rest@);
    Seq::filter_distributes_over_add(seq![line], text::lines(rest@), keep);
    let none = Seq::<Seq<char>>::empty();
    assert(none.filter(keep) =~= none) by {
        reveal(Seq::filter);
    }
    none.lemma_filter_push(line, keep);
    assert(none.push(line) =~= seq![line]);
    if rest@ == line && line.len() == 0 {
        assert(line =~= Seq::<char>::empty());
    }
}

/// A path is an entry of a stored listing if and only if it is one of its lines and holds a
/// character that is no white space.
pub proof fn law_entries_are_lines(stored: String, p: Seq<char>)
    ensures
        StoredText::Content(stored).entries().contains(p) <==> text::lines(stored@).contains(p)
            && exists|i: int| 0 <= i < p.len() && !text::white_space(#[trigger] p[i]),
{
    let keep = |l: Seq<char>| !text::blank(l);
    let ls = text::lines(stored@);
    let kept = ls.filter(keep);
    if kept.contains(p) {
        ls.lemma_filter_contains_rev(keep, p);
        ls.lemma_filter_pred(keep, kept.index_of(p));
    }
    if ls.contains(p) && keep(p) {
        ls.lemma_filter_contains(keep, ls.index_of(p));
    }
}

} // verus!
