//! Asset lifecycle hooks: work that waits for an asset to finish loading.
//!
//! A hook names the asset it waits for and holds the work to run once; when the asset is
//! fully loaded, dependencies included, the work runs and the hook goes away, and when the
//! asset is removed first the hook is dropped with a warning. The caller keeps the hooks
//! and the work; this module decides, event by event, what happens to each hook.

use vstd::prelude::*;

verus! {

/// Identifies an asset as Bevy's `AssetId` does: by slot index and generation, or by UUID.
#[derive(Debug, Copy, Clone, PartialEq, Eq, Hash, Structural)]
pub enum AssetKey {
    Index { index: u32, generation: u32 },
    Uuid(u128),
}

/// An asset event, reduced to what the hooks react to.
#[derive(Debug, Copy, Clone, PartialEq, Eq, Structural)]
pub enum AssetEventKind {
    /// The asset's own data was added; its dependencies may still be loading.
    Added(AssetKey),
    /// The asset and all of its dependencies are loaded.
    LoadedWithDependencies(AssetKey),
    Removed(AssetKey),
    /// Any other event (modified, unused).
    Other,
}

/// A hook waiting for an asset: the entity it lives on, the asset it waits for, and
/// whether its work is still there to run.
#[derive(Debug, Copy, Clone, PartialEq, Eq, Structural)]
pub struct PendingHook {
    pub hook: u64,
    pub target: AssetKey,
    pub armed: bool,
}

/// What the caller must do for one hook.
#[derive(Debug, Copy, Clone, PartialEq, Eq, Structural)]
pub enum HookAction {
    /// Run the hook's work.
    Fire(u64),
    /// Despawn the hook's entity.
    Despawn(u64),
    /// Warn that the hook's asset was removed before the hook could fire.
    WarnRemoved(u64),
}

/// The hooks that are waiting, as the caller found them.
pub struct HookTable {
    pub hooks: Vec<PendingHook>,
}

/// The actions one hook gets for an event.
pub open spec fn hook_actions(h: PendingHook, ev: AssetEventKind, has_strong_handle: bool) -> Seq<HookAction> {
    match ev {
        AssetEventKind::LoadedWithDependencies(id) => if has_strong_handle && h.target == id {
            if h.armed {
                seq![HookAction::Fire(h.hook), HookAction::Despawn(h.hook)]
            } else {
                seq![HookAction::Despawn(h.hook)]
            }
        } else {
            seq![]
        },
        AssetEventKind::Removed(id) => if h.target == id {
            seq![HookAction::WarnRemoved(h.hook), HookAction::Despawn(h.hook)]
        } else {
            seq![]
        },
        AssetEventKind::Added(_) | AssetEventKind::Other => seq![],
    }
}

/// A hook after an event: its work is used up once it fires.
pub open spec fn hook_after(h: PendingHook, ev: AssetEventKind, has_strong_handle: bool) -> PendingHook {
    match ev {
        AssetEventKind::LoadedWithDependencies(id) => if has_strong_handle && h.target == id {
            PendingHook { armed: false, ..h }
        } else {
            h
        },
        _ => h,
    }
}

/// The actions for a sequence of hooks, hook by hook.
pub open spec fn table_actions(hooks: Seq<PendingHook>, ev: AssetEventKind, has_strong_handle: bool) -> Seq<HookAction>
    decreases hooks.len(),
{
    if hooks.len() == 0 {
        seq![]
    } else {
        table_actions(hooks.drop_last(), ev, has_strong_handle) + hook_actions(hooks.last(), ev, has_strong_handle)
    }
}

impl HookTable {
    /// Reacts to one asset event. When the asset is fully loaded, dependencies included (and
    /// a strong handle to it can be had), each hook waiting for it fires if its work is
    /// still there and is despawned;
    /// when the asset is removed, each hook waiting for it is despawned with a warning.
    /// Other hooks, and other events, are left alone.
    pub fn apply_event(&mut self, ev: AssetEventKind, has_strong_handle: bool) -> (r: Vec<HookAction>)
        ensures
            r@ == table_actions(old(self).hooks@, ev, has_strong_handle),
            final(self).hooks@ == old(self).hooks@.map_values(|h: PendingHook| hook_after(h, ev, has_strong_handle)),
    {
        let ghost orig = self.hooks@;
        let mut actions: Vec<HookAction> = Vec::new();
        let mut i: usize = 0;
        while i < self.hooks.len()
            invariant
                self.hooks@.len() == orig.len(),
                i <= orig.len(),
                actions@ == table_actions(orig.subrange(0, i as int), ev, has_strong_handle),
                forall|j: int| 0 <= j < i ==> #[trigger] self.hooks@[j] == hook_after(orig[j], ev, has_strong_handle),
                forall|j: int| i <= j < orig.len() ==> #[trigger] self.hooks@[j] == orig[j],
            decreases orig.len() - i,
        {
            let h = self.hooks[i];
            proof {
                assert(orig.subrange(0, i + 1).drop_last() =~= orig.subrange(0, i as int));
                assert(orig.subrange(0, i + 1).last() == h);
            }
            match ev {
                AssetEventKind::LoadedWithDependencies(id) => {
                    if has_strong_handle && h.target == id {
                        if h.armed {
                            actions.push(HookAction::Fire(h.hook));
                        }
                        actions.push(HookAction::Despawn(h.hook));
                        self.hooks.set(i, PendingHook { hook: h.hook, target: h.target, armed: false });
                    }
                },
                AssetEventKind::Removed(id) => {
                    if h.target == id {
                        actions.push(HookAction::WarnRemoved(h.hook));
                        actions.push(HookAction::Despawn(h.hook));
                    }
                },
                AssetEventKind::Added(_) | AssetEventKind::Other => {},
            }
            proof {
                assert(actions@ =~= table_actions(orig.subrange(0, i + 1), ev, has_strong_handle));
            }
            i = i + 1;
        }
        proof {
            assert(orig.subrange(0, orig.len() as int) =~= orig);
            assert(self.hooks@ =~= orig.map_values(|h: PendingHook| hook_after(h, ev, has_strong_handle)));
        }
        actions
    }
}

/// What to do with work that waits for an asset.
#[derive(Debug, Copy, Clone, PartialEq, Eq, Structural)]
pub enum LoadedHookPlan {
    /// The asset is already loaded: run the work now.
    RunNow,
    /// The asset is not loaded yet: leave a hook waiting for it.
    Defer,
}

/// Decides whether work waiting for an asset runs now or waits for the asset.
pub fn plan_on_loaded(loaded: bool) -> (r: LoadedHookPlan)
    ensures
        r == if loaded { LoadedHookPlan::RunNow } else { LoadedHookPlan::Defer },
{
    if loaded {
        LoadedHookPlan::RunNow
    } else {
        LoadedHookPlan::Defer
    }
}

/// Whether a global asset may be handed to a system: when the asset collection is
/// missing this says yes, so that fetching fails loudly; otherwise the asset's handle must
/// be known (`handle_loaded` is `Some`) and its asset loaded (`Some(true)`).
pub fn validate_global_asset(assets_present: bool, handle_loaded: Option<bool>) -> (r: bool)
    ensures
        r == (!assets_present || handle_loaded == Some(true)),
{
    if !assets_present {
        return true;
    }
    match handle_loaded {
        Some(loaded) => loaded,
        None => false,
    }
}

/// An asset removed before its hooks fired drops every hook waiting for it, with a warning
/// and a despawn, whether or not a strong handle to it can still be had (a removed asset
/// has none); hooks waiting for other assets are left alone. So the same happens to a
/// whole table of hooks under either value of the flag.
pub proof fn lemma_removed_drops_waiting_hooks(hooks: Seq<PendingHook>, h: PendingHook, id: AssetKey, strong: bool)
    ensures
        h.target == id ==> hook_actions(h, AssetEventKind::Removed(id), strong)
            == seq![HookAction::WarnRemoved(h.hook), HookAction::Despawn(h.hook)],
        h.target != id ==> hook_actions(h, AssetEventKind::Removed(id), strong).len() == 0,
        hook_after(h, AssetEventKind::Removed(id), strong) == h,
        table_actions(hooks, AssetEventKind::Removed(id), true) == table_actions(hooks, AssetEventKind::Removed(id), false),
    decreases hooks.len(),
{
    if hooks.len() > 0 {
        lemma_removed_drops_waiting_hooks(hooks.drop_last(), hooks.last(), id, strong);
        lemma_removed_drops_waiting_hooks(hooks.drop_last(), hooks.last(), id, !strong);
    }
}

/// Work runs at most once: after any event, a hook that was fired is no longer armed,
/// so no later event fires it again; only the event that the asset is fully loaded fires
/// a hook, so a removed asset, or one whose dependencies are still loading, never does;
/// and an event about another asset leaves a hook untouched.
pub proof fn lemma_hooks_fire_once(h: PendingHook, ev: AssetEventKind, strong: bool, later: AssetEventKind, strong_later: bool)
    ensures
        hook_actions(h, ev, strong).contains(HookAction::Fire(h.hook)) ==> !hook_actions(hook_after(h, ev, strong), later, strong_later).contains(HookAction::Fire(h.hook)),
        !(ev is LoadedWithDependencies) ==> !hook_actions(h, ev, strong).contains(HookAction::Fire(h.hook)),
        ev is Added ==> hook_actions(h, ev, strong).len() == 0 && hook_after(h, ev, strong) == h,
        (ev matches AssetEventKind::LoadedWithDependencies(id) && id != h.target) ==> hook_actions(h, ev, strong).len() == 0 && hook_after(h, ev, strong) == h,
        (ev matches AssetEventKind::Removed(id) && id != h.target) ==> hook_actions(h, ev, strong).len() == 0,
{
    if hook_actions(h, ev, strong).contains(HookAction::Fire(h.hook)) {
        let h2 = hook_after(h, ev, strong);
        assert(!h2.armed);
        let acts = hook_actions(h2, later, strong_later);
        if acts.contains(HookAction::Fire(h.hook)) {
            let k = choose|k: int| 0 <= k < acts.len() && acts[k] == HookAction::Fire(h.hook);
            assert(false);
        }
    }
    if !(ev is LoadedWithDependencies) {
        let acts = hook_actions(h, ev, strong);
        if acts.contains(HookAction::Fire(h.hook)) {
            let k = choose|k: int| 0 <= k < acts.len() && acts[k] == HookAction::Fire(h.hook);
            assert(false);
        }
    }
}

} // verus!
