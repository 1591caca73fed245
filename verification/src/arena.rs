//! Arenas: the maps fights take place on, and the menu that lists them.

use vstd::prelude::*;
use vstd::string::{StrSliceExecFns, StringExecFns};

verus! {

/// A supported map whose asset path is known in advance.
#[derive(Copy, Clone, Debug, PartialEq, Eq, Hash, PartialOrd, Ord, Structural)]
pub enum ArenaMap {
    TeaP1,
}

impl ArenaMap {
    /// The asset path of the map's arena file.
    pub fn asset_path(self) -> (r: &'static str)
        ensures
            r@ == match self {
                ArenaMap::TeaP1 => "arenas/ultimate/tea/p1.arena.ron"@,
            },
    {
        match self {
            ArenaMap::TeaP1 => "arenas/ultimate/tea/p1.arena.ron",
        }
    }
}

/// The file extension of arena files.
pub const EXTENSION: &'static str = "arena.ron";
/// The directory, relative to the assets directory, that holds arena files.
pub const DIR: &'static str = "arenas";
/// The asset path of the arena listing.
pub const ARENA_LISTING_PATH: &'static str = "arenas/.listing";

/// `base` with `rel` appended as a path below it, with `/` as the separator (the asset
/// server's): a `rel` that starts at the root replaces `base`; otherwise a `/` goes
/// between the two. This is how `PathBuf::push` extends a path that does not end in a
/// separator on Unix.
pub open spec fn push_path(base: Seq<char>, rel: Seq<char>) -> Seq<char> {
    if rel.len() > 0 && rel[0] == '/' {
        rel
    } else {
        base + seq!['/'] + rel
    }
}

/// Appends `rel` to the path `base`, as `push_path` states.
fn join_path(base: &str, rel: &str) -> (r: String)
    ensures
        r@ == push_path(base@, rel@),
{
    if !rel.is_empty() && rel.get_char(0) == '/' {
        rel.to_owned()
    } else {
        let mut joined = base.to_owned();
        joined.append("/");
        joined.append(rel);
        proof {
            reveal_strlit("/");
        }
        joined
    }
}

/// What `PathBuf::set_extension` leaves of `path` given the extension `ext`.
pub uninterp spec fn path_with_extension(path: Seq<char>, ext: Seq<char>) -> Seq<char>;

/// Where the last component of a `/`-separated path starts: just after its last `/`, or
/// at 0 when it has none.
pub open spec fn last_component_start(p: Seq<char>) -> int
    decreases p.len(),
{
    if p.len() == 0 {
        0
    } else if p.last() == '/' {
        p.len() as int
    } else {
        last_component_start(p.drop_last())
    }
}

/// The last component of a `/`-separated path.
pub open spec fn last_component(p: Seq<char>) -> Seq<char> {
    p.subrange(last_component_start(p), p.len() as int)
}

/// The position of the last `.` in `s`, or -1 when it has none.
pub open spec fn last_dot(s: Seq<char>) -> int
    decreases s.len(),
{
    if s.len() == 0 {
        -1
    } else if s.last() == '.' {
        s.len() - 1
    } else {
        last_dot(s.drop_last())
    }
}

/// The stem of a file name, as std documents it: the whole name when it has no `.`, or
/// when its only `.` is its first character; otherwise the part before its last `.`.
pub open spec fn file_stem_of(name: Seq<char>) -> Seq<char> {
    if last_dot(name) > 0 {
        name.subrange(0, last_dot(name))
    } else {
        name
    }
}

/// A path whose last component is a file name: not empty (so the path does not end in
/// `/`), not `.` and not `..`; and without `\` or `:`, which some targets read as
/// separators or drive prefixes.
pub open spec fn plain_file_path(p: Seq<char>) -> bool {
    &&& last_component(p).len() > 0
    &&& last_component(p) != seq!['.']
    &&& last_component(p) != seq!['.', '.']
    &&& !p.contains('\\')
    &&& !p.contains(':')
}

/// A plain file path with its extension set to `ext`: the stem of its file name followed
/// by `.` and `ext`, where the old extension was.
pub open spec fn with_extension_plain(p: Seq<char>, ext: Seq<char>) -> Seq<char> {
    p.subrange(0, last_component_start(p)) + file_stem_of(last_component(p)) + seq!['.'] + ext
}

/// Calls `PathBuf::set_extension` on a path made from `path`, with `ext`. For a plain file
/// path and a non-empty extension the result is what std documents of `set_extension`,
/// `file_name` and `file_stem`: the stem, `.`, then `ext`. For other paths (a last
/// component of `.` or `..`, a trailing `/`, or characters some targets read as
/// separators or drive prefixes) it is named, not stated. std panics on an extension that
/// holds a separator; `requires` leaves out both `/` and `\`, the separators of every
/// target.
#[verifier::external_body]
fn path_set_extension(path: &str, ext: &str) -> (r: String)
    requires
        !ext@.contains('/'),
        !ext@.contains('\\'),
    ensures
        r@ == path_with_extension(path@, ext@),
        plain_file_path(path@) && ext@.len() > 0 ==> r@ == with_extension_plain(path@, ext@),
{
    let mut buf = std::path::PathBuf::from(path);
    buf.set_extension(ext);
    buf.to_string_lossy().into_owned()
}

/// The asset path of an arena, given its path below the arena directory and without
/// the extension: the directory, then `arena`, with the arena extension set.
pub fn asset_path(arena: &str) -> (r: String)
    ensures
        r@ == path_with_extension(push_path(DIR@, arena@), EXTENSION@),
        plain_file_path(push_path(DIR@, arena@)) ==> r@ == with_extension_plain(push_path(DIR@, arena@), EXTENSION@),
{
    proof {
        reveal_strlit("arena.ron");
        assert(!EXTENSION@.contains('/'));
        assert(!EXTENSION@.contains('\\'));
    }
    let joined = join_path(DIR, arena);
    path_set_extension(joined.as_str(), EXTENSION)
}

/// A directory of the arena listing as the menu sees it: its name, the short name of
/// each arena file it holds (absent while that arena is not loaded), and its
/// subdirectories.
pub struct ArenaMenuSource {
    pub name: String,
    pub arenas: Vec<Option<String>>,
    pub subdirs: Vec<ArenaMenuSource>,
}

/// An entry of the arena menu.
pub enum MenuEntry {
    /// A submenu for a subdirectory.
    Submenu(MenuNode),
    /// A separator between the submenus and the arenas.
    Separator,
    /// A button that switches to the arena at this position of the directory's contents.
    Button { label: String, content: usize },
    /// The arena at this position is not loaded yet; it gets no button.
    NotLoaded(usize),
}

/// A menu with its label and entries.
pub struct MenuNode {
    pub label: String,
    pub entries: Vec<MenuEntry>,
}

/// The entries for the arenas of a directory, from position `start` on.
pub open spec fn arena_entries_ok(entries: Seq<MenuEntry>, arenas: Seq<Option<String>>, start: int) -> bool {
    &&& entries.len() == arenas.len()
    &&& forall|i: int| 0 <= i < arenas.len() ==> match arenas[i] {
        Some(short) => (#[trigger] entries[i]) matches MenuEntry::Button { label, content } && label@ == short@ && content == start + i,
        None => entries[i] matches MenuEntry::NotLoaded(k) && k == start + i,
    }
}

/// `m` is the menu of `src`: a submenu per subdirectory, in order; a separator when there
/// are both subdirectories and arenas; then a button per loaded arena, in order.
pub open spec fn menu_of(m: MenuNode, src: ArenaMenuSource) -> bool
    decreases src,
{
    let n_sub = src.subdirs@.len();
    let sep = if n_sub > 0 && src.arenas@.len() > 0 { 1int } else { 0int };
    &&& m.label@ == src.name@
    &&& m.entries@.len() == n_sub + sep + src.arenas@.len()
    &&& submenus_of(m.entries@.subrange(0, n_sub as int), src.subdirs@)
    &&& (sep == 1 ==> m.entries@[n_sub as int] matches MenuEntry::Separator)
    &&& arena_entries_ok(m.entries@.subrange(n_sub + sep, m.entries@.len() as int), src.arenas@, 0)
}

/// Each entry of `entries` is the submenu of the corresponding directory of `srcs`.
pub open spec fn submenus_of(entries: Seq<MenuEntry>, srcs: Seq<ArenaMenuSource>) -> bool
    decreases srcs,
{
    &&& entries.len() == srcs.len()
    &&& srcs.len() > 0 ==> {
        &&& match entries[0] {
            MenuEntry::Submenu(m) => menu_of(m, srcs[0]),
            _ => false,
        }
        &&& submenus_of(entries.drop_first(), srcs.drop_first())
    }
}

/// `e` is the submenu entry of directory `src`.
pub open spec fn entry_menu_of(e: MenuEntry, src: ArenaMenuSource) -> bool {
    match e {
        MenuEntry::Submenu(m) => menu_of(m, src),
        _ => false,
    }
}

proof fn lemma_submenus_of_pointwise(entries: Seq<MenuEntry>, srcs: Seq<ArenaMenuSource>)
    requires
        entries.len() == srcs.len(),
        forall|j: int| 0 <= j < srcs.len() ==> entry_menu_of(#[trigger] entries[j], srcs[j]),
    ensures
        submenus_of(entries, srcs),
    decreases srcs.len(),
{
    if srcs.len() > 0 {
        assert(entry_menu_of(entries[0], srcs[0]));
        assert forall|j: int| 0 <= j < srcs.drop_first().len() implies entry_menu_of(#[trigger] entries.drop_first()[j], srcs.drop_first()[j]) by {
            assert(entries.drop_first()[j] == entries[j + 1]);
            assert(entry_menu_of(entries[j + 1], srcs[j + 1]));
        }
        lemma_submenus_of_pointwise(entries.drop_first(), srcs.drop_first());
    }
}

/// Builds the arena menu of a directory of the arena listing.
pub fn submenu(src: ArenaMenuSource) -> (r: MenuNode)
    ensures
        menu_of(r, src),
    decreases src,
{
    let ghost g = src;
    let ArenaMenuSource { name, arenas, subdirs } = src;
    let n_sub = subdirs.len();
    let has_arenas = arenas.len() > 0;
    let mut entries: Vec<MenuEntry> = Vec::new();
    let mut subs = subdirs;
    let mut rev: Vec<MenuEntry> = Vec::new();
    // Subdirectories are taken from the back, then put in order.
    while subs.len() > 0
        invariant
            g == src,
            subs@ == g.subdirs@.subrange(0, subs@.len() as int),
            rev@.len() + subs@.len() == g.subdirs@.len(),
            forall|j: int| 0 <= j < rev@.len() ==> entry_menu_of(#[trigger] rev@[j], g.subdirs@[g.subdirs@.len() - 1 - j]),
        decreases subs@.len(),
    {
        let ghost before = subs@;
        let sub = subs.pop().unwrap();
        proof {
            let idx = before.len() - 1;
            assert(sub == g.subdirs@[idx]);
            assert(subs@ =~= g.subdirs@.subrange(0, subs@.len() as int));
            assert(decreases_to!(g => g.subdirs));
            assert(decreases_to!(g.subdirs => g.subdirs@));
            assert(decreases_to!(g.subdirs@ => g.subdirs@[idx]));
            assert(decreases_to!(src => sub));
        }
        let m = submenu(sub);
        rev.push(MenuEntry::Submenu(m));
    }
    while rev.len() > 0
        invariant
            rev@.len() + entries@.len() == g.subdirs@.len(),
            forall|j: int| 0 <= j < rev@.len() ==> entry_menu_of(#[trigger] rev@[j], g.subdirs@[g.subdirs@.len() - 1 - j]),
            forall|j: int| 0 <= j < entries@.len() ==> entry_menu_of(#[trigger] entries@[j], g.subdirs@[j]),
        decreases rev@.len(),
    {
        let e = rev.pop().unwrap();
        entries.push(e);
    }
    proof {
        lemma_submenus_of_pointwise(entries@, g.subdirs@);
    }
    let ghost sub_entries = entries@;
    let sep = n_sub > 0 && has_arenas;
    if sep {
        entries.push(MenuEntry::Separator);
    }
    let ghost head = entries@;
    assert(sep ==> head[n_sub as int] matches MenuEntry::Separator);
    let mut arenas = arenas;
    let mut tail: Vec<MenuEntry> = Vec::new();
    let mut k: usize = arenas.len();
    // Arenas are taken from the back, then put in order.
    while arenas.len() > 0
        invariant
            arenas@ == g.arenas@.subrange(0, arenas@.len() as int),
            tail@.len() + arenas@.len() == g.arenas@.len(),
            forall|j: int| 0 <= j < tail@.len() ==> {
                let pos = g.arenas@.len() - 1 - j;
                match g.arenas@[pos] {
                    Some(short) => (#[trigger] tail@[j]) matches MenuEntry::Button { label, content } && label@ == short@ && content == pos,
                    None => tail@[j] matches MenuEntry::NotLoaded(c) && c == pos,
                }
            },
        decreases arenas@.len(),
    {
        let a = arenas.pop().unwrap();
        let pos = arenas.len();
        proof {
            assert(a == g.arenas@[pos as int]);
            assert(arenas@ =~= g.arenas@.subrange(0, arenas@.len() as int));
        }
        let e = match a {
            Some(label) => MenuEntry::Button { label, content: pos },
            None => MenuEntry::NotLoaded(pos),
        };
        tail.push(e);
    }
    let ghost tl = tail@;
    let mut c: usize = 0;
    while tail.len() > 0
        invariant
            tail@ == tl.subrange(0, tail@.len() as int),
            tail@.len() + c == tl.len(),
            tl.len() <= usize::MAX,
            entries@.len() == head.len() + c,
            entries@.subrange(0, head.len() as int) == head,
            forall|j: int| 0 <= j < c ==> #[trigger] entries@[head.len() + j] == tl[tl.len() - 1 - j],
        decreases tail@.len(),
    {
        let e = tail.pop().unwrap();
        proof {
            assert(tail@ =~= tl.subrange(0, tail@.len() as int));
        }
        entries.push(e);
        proof {
            assert(entries@.subrange(0, head.len() as int) =~= head);
        }
        c = c + 1;
    }
    proof {
        let n = n_sub as int;
        let s = if sep { 1int } else { 0int };
        assert(entries@.subrange(0, n) =~= sub_entries);
        assert(head.len() == n + s);
        let arena_part = entries@.subrange(n + s, entries@.len() as int);
        assert forall|i: int| 0 <= i < g.arenas@.len() implies match g.arenas@[i] {
            Some(short) => (#[trigger] arena_part[i]) matches MenuEntry::Button { label, content } && label@ == short@ && content == 0 + i,
            None => arena_part[i] matches MenuEntry::NotLoaded(k) && k == 0 + i,
        } by {
            assert(arena_part[i] == entries@[head.len() + i]);
            assert(entries@[head.len() + i] == tl[tl.len() - 1 - i]);
        }
    }
    let r = MenuNode { label: name, entries };
    proof {
        let n = n_sub as int;
        let s = if sep { 1int } else { 0int };
        assert(r.label@ == src.name@);
        assert(r.entries@.len() == n + s + src.arenas@.len());
        assert(submenus_of(r.entries@.subrange(0, n), src.subdirs@));
        if sep {
            assert(r.entries@.subrange(0, head.len() as int)[n] == r.entries@[n]);
        }
        assert(s == 1 ==> r.entries@[n] matches MenuEntry::Separator);
        assert(arena_entries_ok(r.entries@.subrange(n + s, r.entries@.len() as int), src.arenas@, 0));
    }
    r
}

} // verus!
