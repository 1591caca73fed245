//! Listings of game assets: a Tataru [`Listing`] resolved against the directory it was
//! read from, so that every file it names has its full asset path.
//!
//! Asset paths are kept as their components, from the asset root down to the file; the
//! caller turns each into a path of the platform and loads the asset found there.

use vstd::prelude::*;

use crate::tataru::Listing;

verus! {

/// An asset listing: a directory's display name, the asset paths of the files it holds,
/// and the listings of its subdirectories, in name order.
#[derive(Debug)]
pub struct AssetListing {
    pub name: String,
    pub contents: Vec<Vec<String>>,
    pub subdirs: Vec<AssetListing>,
}

/// The components of an asset path, as text.
pub open spec fn path_view(p: Seq<String>) -> Seq<Seq<char>> {
    p.map_values(|c: String| c@)
}

/// `a` is `l` resolved against the directory whose path is `base`: names carry over,
/// each file of `l` gets the path `base` followed by the file's name, and each
/// subdirectory is resolved against `base` followed by its name.
pub open spec fn resolves(a: AssetListing, l: Listing, base: Seq<Seq<char>>) -> bool
    decreases l,
{
    &&& a.name@ == l.name@
    &&& a.contents@.len() == l.contents@.len()
    &&& forall|i: int| 0 <= i < l.contents@.len() ==> path_view(#[trigger] a.contents@[i]@) == base.push(l.contents@[i]@)
    &&& subdirs_resolve(a.subdirs@, l.subdirs@, base)
}

/// Each listing of `a` resolves the corresponding subdirectory of `l` against `base`
/// followed by that subdirectory's name.
pub open spec fn subdirs_resolve(a: Seq<AssetListing>, l: Seq<(String, Listing)>, base: Seq<Seq<char>>) -> bool
    decreases l,
{
    &&& a.len() == l.len()
    &&& l.len() > 0 ==> {
        &&& resolves(a[0], l[0].1, base.push(l[0].0@))
        &&& subdirs_resolve(a.drop_first(), l.drop_first(), base)
    }
}

/// The asset paths of a listing in the order its assets are visited: the files it holds
/// directly, then those of each subdirectory in turn.
pub open spec fn all_paths(a: AssetListing) -> Seq<Seq<Seq<char>>>
    decreases a,
{
    a.contents@.map_values(|p: Vec<String>| path_view(p@)) + subdirs_all_paths(a.subdirs@)
}

/// The asset paths of a sequence of listings, one after the other.
pub open spec fn subdirs_all_paths(s: Seq<AssetListing>) -> Seq<Seq<Seq<char>>>
    decreases s,
{
    if s.len() == 0 {
        Seq::empty()
    } else {
        all_paths(s[0]) + subdirs_all_paths(s.drop_first())
    }
}

/// The asset paths named by a Tataru listing read from the directory `base`, in the
/// order they are visited.
pub open spec fn listing_paths(l: Listing, base: Seq<Seq<char>>) -> Seq<Seq<Seq<char>>>
    decreases l,
{
    l.contents@.map_values(|c: String| base.push(c@)) + subdir_listing_paths(l.subdirs@, base)
}

/// The asset paths named by the subdirectory listings `s` of the directory `base`.
pub open spec fn subdir_listing_paths(s: Seq<(String, Listing)>, base: Seq<Seq<char>>) -> Seq<Seq<Seq<char>>>
    decreases s,
{
    if s.len() == 0 {
        Seq::empty()
    } else {
        listing_paths(s[0].1, base.push(s[0].0@)) + subdir_listing_paths(s.drop_first(), base)
    }
}

fn clone_path(p: &Vec<String>) -> (r: Vec<String>)
    ensures
        path_view(r@) == path_view(p@),
{
    let mut r: Vec<String> = Vec::new();
    let mut i: usize = 0;
    while i < p.len()
        invariant
            i <= p@.len(),
            r@.len() == i,
            forall|j: int| 0 <= j < i ==> #[trigger] r@[j]@ == p@[j]@,
        decreases p@.len() - i,
    {
        r.push(p[i].clone());
        i = i + 1;
    }
    assert(path_view(r@) =~= path_view(p@));
    r
}

impl AssetListing {
    /// Resolves a Tataru listing read from the directory `path` (given as the components
    /// of its asset path): every file gets its full asset path.
    pub fn load_from_tataru(listing: Listing, path: &Vec<String>) -> (r: AssetListing)
        ensures
            resolves(r, listing, path_view(path@)),
        decreases listing,
    {
        let ghost l = listing;
        let Listing { name, subdirs, contents } = listing;
        let mut out_contents: Vec<Vec<String>> = Vec::new();
        let mut i: usize = 0;
        while i < contents.len()
            invariant
                contents == l.contents,
                i <= contents@.len(),
                out_contents@.len() == i,
                forall|j: int| 0 <= j < i ==> path_view(#[trigger] out_contents@[j]@) == path_view(path@).push(contents@[j]@),
            decreases contents@.len() - i,
        {
            let mut p = clone_path(path);
            p.push(contents[i].clone());
            proof {
                assert(path_view(p@) =~= path_view(path@).push(contents@[i as int]@));
            }
            out_contents.push(p);
            i = i + 1;
        }
        let mut out_subdirs: Vec<AssetListing> = Vec::new();
        let mut rest = subdirs;
        let ghost all = rest@;
        // Subdirectories are taken from the back, then put back in order.
        let mut rev: Vec<AssetListing> = Vec::new();
        while rest.len() > 0
            invariant
                l == listing,
                all == l.subdirs@,
                rest@ == all.subrange(0, all.len() - rev@.len()),
                rev@.len() <= all.len(),
                forall|j: int| 0 <= j < rev@.len() ==> {
                    let idx = all.len() - 1 - j;
                    resolves(#[trigger] rev@[j], all[idx].1, path_view(path@).push(all[idx].0@))
                },
            decreases rest@.len(),
        {
            let ghost before = rest@;
            let (sub_name, sub) = rest.pop().unwrap();
            proof {
                assert(before[before.len() - 1] == (sub_name, sub));
                assert(rest@ =~= all.subrange(0, all.len() - rev@.len() - 1));
                let idx = all.len() - rev@.len() - 1;
                assert(sub == all[idx].1);
                assert(decreases_to!(l => l.subdirs));
                assert(decreases_to!(l.subdirs => l.subdirs@));
                assert(decreases_to!(l.subdirs@ => l.subdirs@[idx]));
                assert(decreases_to!(l.subdirs@[idx] => l.subdirs@[idx].1));
                assert(decreases_to!(l => sub));
            }
            let mut p = clone_path(path);
            let ghost sub_name_view = sub_name@;
            p.push(sub_name);
            proof {
                assert(path_view(p@) =~= path_view(path@).push(sub_name_view));
            }
            let resolved = AssetListing::load_from_tataru(sub, &p);
            rev.push(resolved);
        }
        while rev.len() > 0
            invariant
                all == l.subdirs@,
                rev@.len() + out_subdirs@.len() == all.len(),
                forall|j: int| 0 <= j < rev@.len() ==> {
                    let idx = all.len() - 1 - j;
                    resolves(#[trigger] rev@[j], all[idx].1, path_view(path@).push(all[idx].0@))
                },
                forall|j: int| 0 <= j < out_subdirs@.len() ==>
                    resolves(#[trigger] out_subdirs@[j], all[j].1, path_view(path@).push(all[j].0@)),
            decreases rev@.len(),
        {
            let a = rev.pop().unwrap();
            out_subdirs.push(a);
        }
        proof {
            lemma_subdirs_resolve_pointwise(out_subdirs@, all, path_view(path@));
        }
        AssetListing { name, contents: out_contents, subdirs: out_subdirs }
    }
}

/// The asset paths of a list of paths, as text.
pub open spec fn paths_view(v: Seq<Vec<String>>) -> Seq<Seq<Seq<char>>> {
    v.map_values(|p: Vec<String>| path_view(p@))
}

impl AssetListing {
    /// Every asset path of this listing, in visiting order: the files it holds directly,
    /// then those of each subdirectory in turn. Which of them are loaded is the asset
    /// store's to say; [`select_loaded`] keeps those.
    pub fn get_all(&self) -> (r: Vec<Vec<String>>)
        ensures
            paths_view(r@) == all_paths(*self),
        decreases *self,
    {
        let mut out: Vec<Vec<String>> = Vec::new();
        let mut i: usize = 0;
        while i < self.contents.len()
            invariant
                i <= self.contents@.len(),
                paths_view(out@) == self.contents@.subrange(0, i as int).map_values(|p: Vec<String>| path_view(p@)),
            decreases self.contents@.len() - i,
        {
            let p = clone_path(&self.contents[i]);
            let ghost before = out@;
            out.push(p);
            proof {
                assert(paths_view(out@) =~= paths_view(before).push(path_view(p@)));
                assert(self.contents@.subrange(0, i + 1) =~= self.contents@.subrange(0, i as int).push(self.contents@[i as int]));
                assert(self.contents@.subrange(0, i + 1).map_values(|p: Vec<String>| path_view(p@)) =~= self.contents@.subrange(0, i as int).map_values(|p: Vec<String>| path_view(p@)).push(path_view(self.contents@[i as int]@)));
            }
            i = i + 1;
        }
        proof {
            assert(self.contents@.subrange(0, self.contents@.len() as int) =~= self.contents@);
        }
        let mut j: usize = 0;
        while j < self.subdirs.len()
            invariant
                j <= self.subdirs@.len(),
                paths_view(out@) == self.contents@.map_values(|p: Vec<String>| path_view(p@)) + subdirs_all_paths(self.subdirs@.subrange(0, j as int)),
            decreases self.subdirs@.len() - j,
        {
            proof {
                assert(decreases_to!(*self => self.subdirs));
                assert(decreases_to!(self.subdirs => self.subdirs@));
                assert(decreases_to!(self.subdirs@ => self.subdirs@[j as int]));
            }
            let sub = self.subdirs[j].get_all();
            let ghost before = out@;
            let mut k: usize = 0;
            while k < sub.len()
                invariant
                    k <= sub@.len(),
                    paths_view(out@) == paths_view(before) + paths_view(sub@.subrange(0, k as int)),
                decreases sub@.len() - k,
            {
                let p = clone_path(&sub[k]);
                let ghost mid = out@;
                out.push(p);
                proof {
                    assert(sub@.subrange(0, k + 1) =~= sub@.subrange(0, k as int).push(sub@[k as int]));
                    assert(paths_view(out@) =~= paths_view(mid).push(path_view(p@)));
                    assert(paths_view(sub@.subrange(0, k + 1)) =~= paths_view(sub@.subrange(0, k as int)).push(path_view(sub@[k as int]@)));
                }
                k = k + 1;
            }
            proof {
                assert(sub@.subrange(0, sub@.len() as int) =~= sub@);
                lemma_subdirs_all_paths_snoc(self.subdirs@.subrange(0, j as int), self.subdirs@[j as int]);
                assert(self.subdirs@.subrange(0, j + 1) =~= self.subdirs@.subrange(0, j as int).push(self.subdirs@[j as int]));
            }
            j = j + 1;
        }
        proof {
            assert(self.subdirs@.subrange(0, self.subdirs@.len() as int) =~= self.subdirs@);
        }
        out
    }
}

/// The paths of `paths` whose flag in `loaded` is set, in order.
pub open spec fn selected(paths: Seq<Seq<Seq<char>>>, loaded: Seq<bool>) -> Seq<Seq<Seq<char>>>
    decreases paths.len(),
{
    if paths.len() == 0 || loaded.len() == 0 {
        Seq::empty()
    } else {
        let rest = selected(paths.drop_last(), loaded.drop_last());
        if loaded.last() {
            rest.push(paths.last())
        } else {
            rest
        }
    }
}

/// Of the asset paths `paths`, those whose asset is loaded (`loaded[i]` for `paths[i]`),
/// in order; the others are skipped.
pub fn select_loaded(paths: &Vec<Vec<String>>, loaded: &Vec<bool>) -> (r: Vec<Vec<String>>)
    requires
        paths@.len() == loaded@.len(),
    ensures
        paths_view(r@) == selected(paths_view(paths@), loaded@),
{
    let mut r: Vec<Vec<String>> = Vec::new();
    let mut i: usize = 0;
    while i < paths.len()
        invariant
            paths@.len() == loaded@.len(),
            i <= paths@.len(),
            paths_view(r@) == selected(paths_view(paths@.subrange(0, i as int)), loaded@.subrange(0, i as int)),
        decreases paths@.len() - i,
    {
        proof {
            let ps = paths_view(paths@.subrange(0, i + 1));
            let ls = loaded@.subrange(0, i + 1);
            assert(ps.drop_last() =~= paths_view(paths@.subrange(0, i as int)));
            assert(ls.drop_last() =~= loaded@.subrange(0, i as int));
            assert(ps.last() == path_view(paths@[i as int]@));
            assert(ls.last() == loaded@[i as int]);
        }
        if loaded[i] {
            let p = clone_path(&paths[i]);
            let ghost before = r@;
            r.push(p);
            proof {
                assert(paths_view(r@) =~= paths_view(before).push(path_view(p@)));
            }
        }
        i = i + 1;
    }
    proof {
        assert(paths@.subrange(0, paths@.len() as int) =~= paths@);
        assert(loaded@.subrange(0, loaded@.len() as int) =~= loaded@);
    }
    r
}

proof fn lemma_subdirs_all_paths_snoc(s: Seq<AssetListing>, a: AssetListing)
    ensures
        subdirs_all_paths(s.push(a)) == subdirs_all_paths(s) + all_paths(a),
    decreases s.len(),
{
    if s.len() == 0 {
        assert(s.push(a).drop_first() =~= Seq::<AssetListing>::empty());
        assert(s.push(a)[0] == a);
        assert(subdirs_all_paths(s.push(a).drop_first()) =~= Seq::<Seq<Seq<char>>>::empty());
        assert(subdirs_all_paths(s.push(a)) =~= all_paths(a));
    } else {
        assert(s.push(a).drop_first() =~= s.drop_first().push(a));
        lemma_subdirs_all_paths_snoc(s.drop_first(), a);
        assert(subdirs_all_paths(s.push(a)) =~= subdirs_all_paths(s) + all_paths(a));
    }
}

/// Loading a listing loses no asset and finds none that is not listed: the asset paths
/// of a resolved listing, in visiting order, are exactly the files the listing names,
/// each under the path of the directory that holds it.
pub proof fn lemma_resolved_paths(a: AssetListing, l: Listing, base: Seq<Seq<char>>)
    requires
        resolves(a, l, base),
    ensures
        all_paths(a) == listing_paths(l, base),
    decreases l,
{
    assert(a.contents@.map_values(|p: Vec<String>| path_view(p@)) =~= l.contents@.map_values(|c: String| base.push(c@)));
    lemma_resolved_subdir_paths(a.subdirs@, l.subdirs@, base);
}

proof fn lemma_resolved_subdir_paths(a: Seq<AssetListing>, l: Seq<(String, Listing)>, base: Seq<Seq<char>>)
    requires
        subdirs_resolve(a, l, base),
    ensures
        subdirs_all_paths(a) == subdir_listing_paths(l, base),
    decreases l,
{
    if l.len() > 0 {
        lemma_resolved_paths(a[0], l[0].1, base.push(l[0].0@));
        lemma_resolved_subdir_paths(a.drop_first(), l.drop_first(), base);
    }
}

proof fn lemma_subdirs_resolve_pointwise(a: Seq<AssetListing>, l: Seq<(String, Listing)>, base: Seq<Seq<char>>)
    requires
        a.len() == l.len(),
        forall|j: int| 0 <= j < a.len() ==> resolves(#[trigger] a[j], l[j].1, base.push(l[j].0@)),
    ensures
        subdirs_resolve(a, l, base),
    decreases l.len(),
{
    if l.len() > 0 {
        assert(resolves(a[0], l[0].1, base.push(l[0].0@)));
        assert forall|j: int| 0 <= j < a.drop_first().len() implies resolves(#[trigger] a.drop_first()[j], l.drop_first()[j].1, base.push(l.drop_first()[j].0@)) by {
            assert(a.drop_first()[j] == a[j + 1]);
            assert(resolves(a[j + 1], l[j + 1].1, base.push(l[j + 1].0@)));
        }
        lemma_subdirs_resolve_pointwise(a.drop_first(), l.drop_first(), base);
    }
}

} // verus!
