//! Spawners: the tray entries that are dragged onto the arena to place a new waymark or
//! player. A spawner of a unique kind is disabled while its target is on the board.

use vstd::prelude::*;

use crate::job::{Job, PlayerSprite};
use crate::waymark::{Waymark, waymark_name};

verus! {

/// The alpha (out of 255) of an enabled spawner widget.
pub const SPAWNER_ALPHA: u8 = 230;
/// The alpha (out of 255) of a disabled spawner widget.
pub const SPAWNER_DISABLED_ALPHA: u8 = 25;

/// Something a spawner can place on the board.
pub trait Spawnable: Sized + Copy {
    /// Whether at most one of these may be on the board at a time.
    fn unique() -> bool;

    /// The label of the spawner that places this target.
    fn spawner_name(&self) -> String;

    /// Whether two targets are the same.
    fn same_target(&self, other: &Self) -> (r: bool)
        ensures
            r == (*self == *other);
}

impl Spawnable for Waymark {
    fn unique() -> (r: bool)
        ensures
            r,
    {
        true
    }

    fn spawner_name(&self) -> (r: String)
        ensures
            r@ == waymark_name(*self),
    {
        self.name().to_string()
    }

    fn same_target(&self, other: &Self) -> (r: bool) {
        *self == *other
    }
}

impl Spawnable for PlayerSprite {
    fn unique() -> (r: bool)
        ensures
            r,
    {
        true
    }

    fn spawner_name(&self) -> (r: String)
        ensures
            r@ == pretty_debug_job(self.job),
    {
        pretty_debug_job_of(self.job)
    }

    fn same_target(&self, other: &Self) -> (r: bool) {
        *self == *other
    }
}

/// The text that `{:#?}` (derived `Debug`, alternate form) writes for an optional job,
/// such as `None` or `Some(` and the variant's name on an indented line of its own.
/// The layout is the compiler's derived `Debug`, which std documents as not stable, so
/// it is named here rather than spelled out.
pub uninterp spec fn pretty_debug_job(job: Option<Job>) -> Seq<char>;

/// Formats an optional job with `format!("{:#?}", ..)`: the result is
/// `pretty_debug_job` of the argument.
#[verifier::external_body]
fn pretty_debug_job_of(job: Option<Job>) -> (r: String)
    ensures
        r@ == pretty_debug_job(job),
{
    format!("{:#?}", job)
}

/// A tray entry that can be dragged to spawn a `T`.
#[derive(Debug)]
pub struct Spawner<T> {
    pub target: T,
    pub path: String,
    pub enabled: bool,
}

impl<T: Spawnable> Spawner<T> {
    /// A new, enabled spawner for `target` drawn with the image at `path`.
    pub fn new(target: T, path: String) -> (r: Self)
        ensures
            r.target == target,
            r.path == path,
            r.enabled,
    {
        Spawner { target, path, enabled: true }
    }

    /// The alpha the spawner's image is tinted with.
    pub fn tint_alpha(&self) -> (r: u8)
        ensures
            r == if self.enabled { SPAWNER_ALPHA } else { SPAWNER_DISABLED_ALPHA },
    {
        if self.enabled {
            SPAWNER_ALPHA
        } else {
            SPAWNER_DISABLED_ALPHA
        }
    }

    /// Enables each spawner whose target is not on the board and disables the others.
    pub fn update_enabled_state(spawners: &mut Vec<Spawner<T>>, on_board: &Vec<T>)
        ensures
            final(spawners)@.len() == old(spawners)@.len(),
            forall|i: int| 0 <= i < final(spawners)@.len() ==> {
                &&& (#[trigger] final(spawners)@[i]).target == old(spawners)@[i].target
                &&& final(spawners)@[i].path@ == old(spawners)@[i].path@
                &&& final(spawners)@[i].enabled == !on_board@.contains(old(spawners)@[i].target)
            },
    {
        let ghost orig = spawners@;
        let mut i: usize = 0;
        while i < spawners.len()
            invariant
                spawners@.len() == orig.len(),
                i <= orig.len(),
                forall|j: int| 0 <= j < orig.len() ==> {
                    &&& (#[trigger] spawners@[j]).target == orig[j].target
                    &&& spawners@[j].path@ == orig[j].path@
                },
                forall|j: int| 0 <= j < i ==> (#[trigger] spawners@[j]).enabled == !on_board@.contains(orig[j].target),
                forall|j: int| i <= j < orig.len() ==> #[trigger] spawners@[j] == orig[j],
            decreases orig.len() - i,
        {
            let mut found = false;
            let mut k: usize = 0;
            while k < on_board.len()
                invariant
                    i < spawners@.len(),
                    k <= on_board@.len(),
                    found == (exists|m: int| 0 <= m < k && on_board@[m] == spawners@[i as int].target),
                decreases on_board@.len() - k,
            {
                if on_board[k].same_target(&spawners[i].target) {
                    found = true;
                }
                k = k + 1;
            }
            let s = Spawner { target: spawners[i].target, path: spawners[i].path.clone(), enabled: !found };
            spawners.set(i, s);
            i = i + 1;
        }
    }
}

} // verus!
