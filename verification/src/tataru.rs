//! Asset listings: the index of a directory tree of assets that Tataru writes and the
//! game reads back to know which assets exist.
//!
//! Walking the file system is the caller's work; each step of the walk is handed to
//! [`Listing::visit_entry`] and [`Listing::apply_dirname`], which decide what the listing
//! becomes, and [`Listing::finish`] puts the contents in order.

use vstd::prelude::*;

use crate::asset_listing::path_view;
use crate::sorting::{sort_texts, texts_sorted};
use crate::text::{ends_with, text_eq, lemma_text_lt_total, lemma_text_lt_transitive, text_ends_with, text_less, text_lt};

verus! {

/// Name of the file whose contents, when present, name the directory it lies in.
pub const DIRNAME_FILE_NAME: &'static str = ".dirname";

/// Name of the file a listing is written to.
pub const LISTING_FILE_NAME: &'static str = ".listing";

/// The directory that holds the assets, relative to where Tataru runs.
pub const DEFAULT_DIR: &'static str = "assets";

/// The directories whose listings have a known file extension, as path components,
/// each with that extension.
pub open spec fn known_dirs_view() -> Seq<(Seq<Seq<char>>, Seq<char>)> {
    seq![(seq!["assets"@, "arenas"@], ".arena.ron"@)]
}

/// The directories whose listings have a known file extension: the arena directory
/// lists arena files.
pub fn known_dirs() -> (r: Vec<(Vec<String>, String)>)
    ensures
        r@.len() == known_dirs_view().len(),
        forall|i: int| 0 <= i < r@.len() ==> path_view((#[trigger] r@[i]).0@) == known_dirs_view()[i].0 && r@[i].1@ == known_dirs_view()[i].1,
{
    let arenas = vec!["assets".to_string(), "arenas".to_string()];
    let r = vec![(arenas, ".arena.ron".to_string())];
    proof {
        assert(path_view(r@[0].0@) =~= known_dirs_view()[0].0);
    }
    r
}

/// Whether two paths, given as components, are the same.
pub fn same_path(a: &Vec<String>, b: &Vec<String>) -> (r: bool)
    ensures
        r == (path_view(a@) == path_view(b@)),
{
    if a.len() != b.len() {
        proof {
            if path_view(a@) == path_view(b@) {
                assert(path_view(a@).len() == a@.len());
            }
        }
        return false;
    }
    let mut i: usize = 0;
    while i < a.len()
        invariant
            a@.len() == b@.len(),
            i <= a@.len(),
            forall|j: int| 0 <= j < i ==> (#[trigger] a@[j])@ == b@[j]@,
        decreases a@.len() - i,
    {
        if !text_eq(a[i].as_str(), b[i].as_str()) {
            proof {
                assert(path_view(a@)[i as int] == a@[i as int]@);
                assert(path_view(b@)[i as int] == b@[i as int]@);
            }
            return false;
        }
        i = i + 1;
    }
    assert(path_view(a@) =~= path_view(b@));
    true
}

/// The extension of the files to list in `dir`, given as path components: the one asked
/// for when there is one; otherwise, for a directory below the asset directory, the
/// extension known for it; otherwise none.
pub open spec fn extension_for_spec(dir: Seq<Seq<char>>, asked: Option<Seq<char>>) -> Option<Seq<char>> {
    match asked {
        Some(e) => Some(e),
        None => if dir.len() > 0 && dir[0] == DEFAULT_DIR@ && exists|k: int| 0 <= k < known_dirs_view().len() && #[trigger] known_dirs_view()[k].0 == dir {
            Some(known_dirs_view()[choose|k: int| 0 <= k < known_dirs_view().len() && #[trigger] known_dirs_view()[k].0 == dir].1)
        } else {
            None
        },
    }
}

/// An optional text, as text.
pub open spec fn option_view(o: Option<String>) -> Option<Seq<char>> {
    match o {
        Some(s) => Some(s@),
        None => None,
    }
}

/// Picks the extension of the files to list in `dir`: the one asked for, or the one
/// known for the directory; `None` when neither is there.
pub fn extension_for(dir: &Vec<String>, asked: Option<String>) -> (r: Option<String>)
    ensures
        match r {
            Some(e) => extension_for_spec(path_view(dir@), option_view(asked)) == Some(e@),
            None => extension_for_spec(path_view(dir@), option_view(asked)) is None,
        },
{
    if let Some(e) = asked {
        return Some(e);
    }
    let known = known_dirs();
    if dir.len() == 0 || !text_eq(dir[0].as_str(), DEFAULT_DIR) {
        proof {
            if dir@.len() > 0 {
                assert(path_view(dir@)[0] == dir@[0]@);
            }
        }
        return None;
    }
    proof {
        assert(path_view(dir@)[0] == dir@[0]@);
    }
    let mut k: usize = 0;
    while k < known.len()
        invariant
            k <= known@.len(),
            asked is None,
            path_view(dir@).len() > 0 && path_view(dir@)[0] == DEFAULT_DIR@,
            known@.len() == known_dirs_view().len(),
            forall|i: int| 0 <= i < known@.len() ==> path_view((#[trigger] known@[i]).0@) == known_dirs_view()[i].0 && known@[i].1@ == known_dirs_view()[i].1,
            forall|j: int| 0 <= j < k ==> known_dirs_view()[j].0 != path_view(dir@),
        decreases known@.len() - k,
    {
        if same_path(&known[k].0, dir) {
            let e = known[k].1.clone();
            proof {
                let d = path_view(dir@);
                assert(known_dirs_view()[k as int].0 == d);
                assert(known_dirs_view().len() == 1);
                let c = choose|c: int| 0 <= c < known_dirs_view().len() && #[trigger] known_dirs_view()[c].0 == d;
                assert(c == k as int);
                assert(e@ == known_dirs_view()[k as int].1);
                assert(option_view(asked) is None);
                assert(d.len() > 0 && d[0] == DEFAULT_DIR@);
                assert(extension_for_spec(d, option_view(asked)) == Some(e@));
            }
            return Some(e);
        }
        k = k + 1;
    }
    None
}

/// The listing of one directory: its display name, the listings of its subdirectories
/// keyed by directory name (kept in name order, each name once), and the names of the
/// asset files it directly holds.
#[derive(Debug)]
pub struct Listing {
    pub name: String,
    pub subdirs: Vec<(String, Listing)>,
    pub contents: Vec<String>,
}

/// A kind of directory entry met while walking a directory.
pub enum EntryKind {
    /// A symbolic link, which listings never follow.
    Symlink,
    /// A regular file.
    File,
    /// A directory, whose listing has already been generated.
    Dir(Listing),
    /// Anything else the file system may hold.
    Other,
}

/// What the walker has to do after an entry was visited.
#[derive(Copy, Clone, Debug, PartialEq, Eq, Structural)]
pub enum EntryStep {
    /// Nothing more.
    Done,
    /// Warn that a symbolic link was ignored.
    WarnSymlink,
    /// Read the entry, a `.dirname` file, and hand the outcome to [`Listing::apply_dirname`].
    ReadDirname,
}

/// The outcome of reading a `.dirname` file.
pub enum DirnameRead {
    /// The file's contents.
    Contents(String),
    /// The file vanished before it could be read.
    NotFound,
}

/// Subdirectory keys stand in strictly increasing order, so each appears once.
pub open spec fn subdirs_ordered(s: Seq<(String, Listing)>) -> bool {
    forall|i: int, j: int| 0 <= i < j < s.len() ==> text_lt(#[trigger] s[i].0@, #[trigger] s[j].0@)
}

/// Some subdirectory entry has key `k`.
pub open spec fn has_subdir(s: Seq<(String, Listing)>, k: Seq<char>) -> bool {
    exists|i: int| 0 <= i < s.len() && #[trigger] s[i].0@ == k
}

/// The subdirectories as a map from directory name to listing.
pub open spec fn subdir_map(s: Seq<(String, Listing)>) -> Map<Seq<char>, Listing> {
    Map::new(
        |k: Seq<char>| has_subdir(s, k),
        |k: Seq<char>| s[subdir_index(s, k)].1,
    )
}

/// The position of the subdirectory entry with key `k`, when there is one.
pub open spec fn subdir_index(s: Seq<(String, Listing)>, k: Seq<char>) -> int {
    choose|i: int| 0 <= i < s.len() && #[trigger] s[i].0@ == k
}

/// The name `.dirname`.
pub open spec fn dirname_file_name() -> Seq<char> {
    ".dirname"@
}

proof fn lemma_ordered_keys_distinct(s: Seq<(String, Listing)>, i: int, j: int)
    requires
        subdirs_ordered(s),
        0 <= i < s.len(),
        0 <= j < s.len(),
        i != j,
    ensures
        s[i].0@ != s[j].0@,
{
    lemma_text_lt_total(s[i].0@, s[i].0@);
    lemma_text_lt_total(s[j].0@, s[j].0@);
}

proof fn lemma_subdir_map_at(s: Seq<(String, Listing)>, idx: int)
    requires
        subdirs_ordered(s),
        0 <= idx < s.len(),
    ensures
        subdir_map(s).contains_key(s[idx].0@),
        subdir_map(s)[s[idx].0@] == s[idx].1,
{
    let k = s[idx].0@;
    assert(has_subdir(s, k));
    let c = subdir_index(s, k);
    if c != idx {
        lemma_ordered_keys_distinct(s, c, idx);
    }
}

/// Whether the subdirectories of `l` stand in strictly increasing name order, as the
/// operations of [`Listing`] that add subdirectories need.
pub fn subdirs_in_order(l: &Listing) -> (r: bool)
    ensures
        r == subdirs_ordered(l.subdirs@),
{
    let n = l.subdirs.len();
    if n == 0 {
        return true;
    }
    let ghost s = l.subdirs@;
    let mut i: usize = 1;
    while i < n
        invariant
            s == l.subdirs@,
            n == s.len(),
            1 <= i <= n,
            forall|a: int, b: int| 0 <= a < b < i ==> text_lt(#[trigger] s[a].0@, #[trigger] s[b].0@),
        decreases n - i,
    {
        if !text_less(l.subdirs[i - 1].0.as_str(), l.subdirs[i].0.as_str()) {
            proof {
                assert(!text_lt(s[i - 1].0@, s[i as int].0@));
            }
            return false;
        }
        proof {
            assert forall|a: int, b: int| 0 <= a < b < i + 1 implies text_lt(#[trigger] s[a].0@, #[trigger] s[b].0@) by {
                if b == i && a < i - 1 {
                    lemma_text_lt_transitive(s[a].0@, s[i - 1].0@, s[b].0@);
                }
            }
        }
        i = i + 1;
    }
    true
}

/// Two listings hold the same names and texts, all the way down.
pub open spec fn same_listing(a: Listing, b: Listing) -> bool
    decreases a,
{
    &&& a.name@ == b.name@
    &&& a.contents@.len() == b.contents@.len()
    &&& forall|i: int| 0 <= i < a.contents@.len() ==> (#[trigger] a.contents@[i])@ == b.contents@[i]@
    &&& a.subdirs@.len() == b.subdirs@.len()
    &&& forall|i: int| 0 <= i < a.subdirs@.len() ==> {
        &&& (#[trigger] a.subdirs@[i]).0@ == b.subdirs@[i].0@
        &&& same_listing(a.subdirs@[i].1, b.subdirs@[i].1)
    }
}

/// A copy of `l`, all the way down.
fn clone_listing(l: &Listing) -> (r: Listing)
    ensures
        same_listing(*l, r),
    decreases *l,
{
    let mut contents: Vec<String> = Vec::new();
    let mut i: usize = 0;
    while i < l.contents.len()
        invariant
            i <= l.contents@.len(),
            contents@.len() == i,
            forall|j: int| 0 <= j < i ==> (#[trigger] l.contents@[j])@ == contents@[j]@,
        decreases l.contents@.len() - i,
    {
        contents.push(l.contents[i].clone());
        i = i + 1;
    }
    let mut subdirs: Vec<(String, Listing)> = Vec::new();
    let mut k: usize = 0;
    while k < l.subdirs.len()
        invariant
            k <= l.subdirs@.len(),
            subdirs@.len() == k,
            forall|j: int| 0 <= j < k ==> {
                &&& (#[trigger] l.subdirs@[j]).0@ == subdirs@[j].0@
                &&& same_listing(l.subdirs@[j].1, subdirs@[j].1)
            },
        decreases l.subdirs@.len() - k,
    {
        proof {
            assert(decreases_to!(*l => l.subdirs));
            assert(decreases_to!(l.subdirs => l.subdirs@));
            assert(decreases_to!(l.subdirs@ => l.subdirs@[k as int]));
            assert(decreases_to!(l.subdirs@[k as int] => l.subdirs@[k as int].1));
        }
        let sub = clone_listing(&l.subdirs[k].1);
        subdirs.push((l.subdirs[k].0.clone(), sub));
        k = k + 1;
    }
    Listing { name: l.name.clone(), subdirs, contents }
}

impl Clone for Listing {
    /// A copy of the listing, all the way down.
    fn clone(&self) -> (r: Self)
        ensures
            same_listing(*self, r),
    {
        clone_listing(self)
    }
}

impl Default for Listing {
    /// An empty listing with an empty name.
    fn default() -> (r: Self)
        ensures
            r.name@ == Seq::<char>::empty(),
            r.subdirs@.len() == 0,
            r.contents@.len() == 0,
    {
        Listing::new(String::new())
    }
}

impl Listing {
    /// An empty listing with the given display name.
    pub fn new(name: String) -> (r: Self)
        ensures
            r.name == name,
            r.subdirs@.len() == 0,
            r.contents@.len() == 0,
    {
        Listing { name, subdirs: Vec::new(), contents: Vec::new() }
    }

    /// Records the listing of a subdirectory under its name, replacing any listing
    /// recorded under that name before, and keeps the subdirectories in name order.
    pub fn insert_subdir(&mut self, name: String, sub: Listing)
        requires
            subdirs_ordered(old(self).subdirs@),
        ensures
            subdirs_ordered(final(self).subdirs@),
            subdir_map(final(self).subdirs@) == subdir_map(old(self).subdirs@).insert(name@, sub),
            final(self).name == old(self).name,
            final(self).contents == old(self).contents,
    {
        let ghost s = self.subdirs@;
        let mut p: usize = 0;
        while p < self.subdirs.len() && text_less(self.subdirs[p].0.as_str(), name.as_str())
            invariant
                self.subdirs@ == s,
                p <= s.len(),
                forall|j: int| 0 <= j < p ==> text_lt(#[trigger] s[j].0@, name@),
            decreases s.len() - p,
        {
            p = p + 1;
        }
        if p < self.subdirs.len() && self.subdirs[p].0 == name {
            self.subdirs.set(p, (name, sub));
            proof {
                let t = self.subdirs@;
                assert(t == s.update(p as int, (name, sub)));
                assert(subdirs_ordered(t));
                assert forall|k: Seq<char>| #[trigger] subdir_map(t).contains_key(k) == subdir_map(s).insert(name@, sub).contains_key(k) by {
                    if has_subdir(s, k) {
                        let i = choose|i: int| 0 <= i < s.len() && #[trigger] s[i].0@ == k;
                        assert(t[i].0@ == k);
                    }
                    if has_subdir(t, k) {
                        let i = choose|i: int| 0 <= i < t.len() && #[trigger] t[i].0@ == k;
                        if i != p {
                            assert(s[i].0@ == k);
                        }
                    }
                }
                assert forall|k: Seq<char>| #[trigger] subdir_map(t).contains_key(k) implies subdir_map(t)[k] == subdir_map(s).insert(name@, sub)[k] by {
                    let i = subdir_index(t, k);
                    lemma_subdir_map_at(t, i);
                    if i != p {
                        assert(s[i] == t[i]);
                        lemma_subdir_map_at(s, i);
                        lemma_ordered_keys_distinct(t, i, p as int);
                    }
                }
                assert(subdir_map(t) =~= subdir_map(s).insert(name@, sub));
            }
        } else {
            proof {
                if p < s.len() {
                    lemma_text_lt_total(s[p as int].0@, name@);
                }
                assert forall|j: int| p <= j < s.len() implies text_lt(name@, #[trigger] s[j].0@) by {
                    lemma_text_lt_total(s[p as int].0@, name@);
                    if j > p {
                        lemma_text_lt_transitive(name@, s[p as int].0@, s[j].0@);
                    }
                }
            }
            self.subdirs.insert(p, (name, sub));
            proof {
                let t = self.subdirs@;
                assert(t == s.insert(p as int, (name, sub)));
                assert forall|i: int, j: int| 0 <= i < j < t.len() implies text_lt(#[trigger] t[i].0@, #[trigger] t[j].0@) by {
                    if j < p {
                    } else if i < p && j == p {
                    } else if i < p {
                        assert(t[j] == s[j - 1]);
                        lemma_text_lt_transitive(t[i].0@, name@, t[j].0@);
                    } else if i == p {
                        assert(t[j] == s[j - 1]);
                    } else {
                        assert(t[i] == s[i - 1]);
                        assert(t[j] == s[j - 1]);
                    }
                }
                assert forall|k: Seq<char>| #[trigger] subdir_map(t).contains_key(k) == subdir_map(s).insert(name@, sub).contains_key(k) by {
                    if has_subdir(s, k) {
                        let i = choose|i: int| 0 <= i < s.len() && #[trigger] s[i].0@ == k;
                        if i < p {
                            assert(t[i].0@ == k);
                        } else {
                            assert(t[i + 1].0@ == k);
                        }
                    }
                    if k == name@ {
                        assert(t[p as int].0@ == k);
                    }
                    if has_subdir(t, k) {
                        let i = choose|i: int| 0 <= i < t.len() && #[trigger] t[i].0@ == k;
                        if i < p {
                            assert(s[i].0@ == k);
                        } else if i > p {
                            assert(s[i - 1].0@ == k);
                        }
                    }
                }
                assert forall|k: Seq<char>| #[trigger] subdir_map(t).contains_key(k) implies subdir_map(t)[k] == subdir_map(s).insert(name@, sub)[k] by {
                    let i = subdir_index(t, k);
                    lemma_subdir_map_at(t, i);
                    if i < p {
                        assert(s[i] == t[i]);
                        lemma_subdir_map_at(s, i);
                        lemma_ordered_keys_distinct(t, i, p as int);
                    } else if i > p {
                        assert(s[i - 1] == t[i]);
                        lemma_subdir_map_at(s, i - 1);
                        lemma_ordered_keys_distinct(t, i, p as int);
                    }
                }
                assert(subdir_map(t) =~= subdir_map(s).insert(name@, sub));
            }
        }
    }

    /// Takes one entry of the directory being listed into account.
    ///
    /// A file whose name ends with `extension` becomes part of the contents; a file named
    /// `.dirname` asks to be read (see [`Listing::apply_dirname`]); a directory's listing is
    /// recorded under its name; a symbolic link is ignored with a warning; anything else is
    /// ignored.
    pub fn visit_entry(&mut self, entry_name: String, kind: EntryKind, extension: &str) -> (r: EntryStep)
        requires
            subdirs_ordered(old(self).subdirs@),
        ensures
            subdirs_ordered(final(self).subdirs@),
            final(self).name == old(self).name,
            match kind {
                EntryKind::Symlink => {
                    &&& r == EntryStep::WarnSymlink
                    &&& final(self).subdirs == old(self).subdirs
                    &&& final(self).contents == old(self).contents
                },
                EntryKind::File => {
                    &&& r == (if entry_name@ == dirname_file_name() { EntryStep::ReadDirname } else { EntryStep::Done })
                    &&& final(self).subdirs == old(self).subdirs
                    &&& final(self).contents@ == if text_ends_with(entry_name@, extension@) {
                        old(self).contents@.push(entry_name)
                    } else {
                        old(self).contents@
                    }
                },
                EntryKind::Dir(sub) => {
                    &&& r == EntryStep::Done
                    &&& subdir_map(final(self).subdirs@) == subdir_map(old(self).subdirs@).insert(entry_name@, sub)
                    &&& final(self).contents == old(self).contents
                },
                EntryKind::Other => {
                    &&& r == EntryStep::Done
                    &&& final(self).subdirs == old(self).subdirs
                    &&& final(self).contents == old(self).contents
                },
            },
    {
        match kind {
            EntryKind::Symlink => EntryStep::WarnSymlink,
            EntryKind::File => {
                let step = if text_eq(entry_name.as_str(), DIRNAME_FILE_NAME) {
                    EntryStep::ReadDirname
                } else {
                    EntryStep::Done
                };
                if ends_with(entry_name.as_str(), extension) {
                    self.contents.push(entry_name);
                }
                step
            },
            EntryKind::Dir(sub) => {
                self.insert_subdir(entry_name, sub);
                EntryStep::Done
            },
            EntryKind::Other => EntryStep::Done,
        }
    }

    /// Names the listing after the contents of its `.dirname` file; when that file
    /// vanished before it could be read, the listing is named after the file itself.
    pub fn apply_dirname(&mut self, entry_name: String, read: DirnameRead)
        ensures
            final(self).name == match read {
                DirnameRead::Contents(text) => text,
                DirnameRead::NotFound => entry_name,
            },
            final(self).subdirs == old(self).subdirs,
            final(self).contents == old(self).contents,
    {
        self.name = match read {
            DirnameRead::Contents(text) => text,
            DirnameRead::NotFound => entry_name,
        };
    }

    /// Puts the contents in the order of their names, once every entry has been visited.
    pub fn finish(&mut self)
        ensures
            texts_sorted(final(self).contents@),
            final(self).contents@.to_multiset() == old(self).contents@.to_multiset(),
            final(self).name == old(self).name,
            final(self).subdirs == old(self).subdirs,
    {
        sort_texts(&mut self.contents);
    }
}

} // verus!
