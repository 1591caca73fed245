use std::sync::atomic::{AtomicUsize, Ordering};
use std::sync::Arc;
use std::task::{Wake, Waker};

use stratmat::future::{Inside, OnceTardis};
use stratmat::job::{Job, PlayerSprite};
use stratmat::lifecycle::{
    plan_on_loaded, validate_global_asset, AssetEventKind, AssetKey, HookAction, HookTable, LoadedHookPlan, PendingHook,
};
use stratmat::spawner::{Spawnable, Spawner, SPAWNER_ALPHA, SPAWNER_DISABLED_ALPHA};
use stratmat::waymark::Waymark;

struct CountingWake(AtomicUsize);

impl Wake for CountingWake {
    fn wake(self: Arc<Self>) {
        self.0.fetch_add(1, Ordering::SeqCst);
    }
}

fn counting_waker() -> (Arc<CountingWake>, Waker) {
    let count = Arc::new(CountingWake(AtomicUsize::new(0)));
    let waker = Waker::from(count.clone());
    (count, waker)
}

#[test]
fn tardis_wakes_waiting_tasks_once_set() {
    let tardis: OnceTardis<u32> = OnceTardis::new();
    let (first, w1) = counting_waker();
    let (second, w2) = counting_waker();
    assert_eq!(tardis.poll_with(w1), None);
    assert_eq!(tardis.poll_with(w2), None);
    assert_eq!(first.0.load(Ordering::SeqCst), 0);
    tardis.set(7);
    assert_eq!(first.0.load(Ordering::SeqCst), 1);
    assert_eq!(second.0.load(Ordering::SeqCst), 1);
    let (late, w3) = counting_waker();
    assert_eq!(tardis.poll_with(w3), Some(7));
    assert_eq!(late.0.load(Ordering::SeqCst), 0);
}

#[test]
fn tardis_keeps_the_first_value() {
    let tardis: OnceTardis<String> = OnceTardis::new();
    let other = tardis.clone();
    tardis.set("first".to_string());
    other.set("second".to_string());
    let (_count, w) = counting_waker();
    assert_eq!(other.poll_with(w.clone()), Some("first".to_string()));
    assert_eq!(tardis.poll_with(w), Some("first".to_string()));
}

#[test]
fn inside_state_steps() {
    let mut inside: Inside<u8> = Inside::new();
    assert!(inside.val.is_none());
    let (count, w) = counting_waker();
    assert_eq!(inside.poll(w), None);
    assert_eq!(inside.wakers.len(), 1);
    let woken = inside.set(3);
    assert_eq!(woken.len(), 1);
    assert!(inside.wakers.is_empty());
    assert_eq!(inside.val, Some(3));
    assert!(inside.set(4).is_empty());
    assert_eq!(inside.val, Some(3));
    for w in woken {
        w.wake();
    }
    assert_eq!(count.0.load(Ordering::SeqCst), 1);
}

fn key(index: u32) -> AssetKey {
    AssetKey::Index { index, generation: 0 }
}

#[test]
fn hooks_fire_once_when_the_asset_is_fully_loaded() {
    let mut table = HookTable {
        hooks: vec![
            PendingHook { hook: 1, target: key(5), armed: true },
            PendingHook { hook: 2, target: key(6), armed: true },
            PendingHook { hook: 3, target: key(5), armed: true },
        ],
    };
    // The asset's own data arriving is not enough: its dependencies may still be loading.
    assert!(table.apply_event(AssetEventKind::Added(key(5)), true).is_empty());
    assert!(table.hooks.iter().all(|h| h.armed));
    let actions = table.apply_event(AssetEventKind::LoadedWithDependencies(key(5)), true);
    assert_eq!(
        actions,
        vec![HookAction::Fire(1), HookAction::Despawn(1), HookAction::Fire(3), HookAction::Despawn(3)]
    );
    assert!(!table.hooks[0].armed);
    assert!(table.hooks[1].armed);
    // The same event again fires nothing: the work is used up.
    let again = table.apply_event(AssetEventKind::LoadedWithDependencies(key(5)), true);
    assert_eq!(again, vec![HookAction::Despawn(1), HookAction::Despawn(3)]);
}

#[test]
fn hooks_wait_without_a_strong_handle() {
    let mut table = HookTable { hooks: vec![PendingHook { hook: 9, target: AssetKey::Uuid(42), armed: true }] };
    assert!(table.apply_event(AssetEventKind::LoadedWithDependencies(AssetKey::Uuid(42)), false).is_empty());
    assert!(table.hooks[0].armed);
    assert!(table.apply_event(AssetEventKind::Other, true).is_empty());
    assert!(table.apply_event(AssetEventKind::LoadedWithDependencies(AssetKey::Uuid(43)), true).is_empty());
    assert!(table.hooks[0].armed);
}

#[test]
fn removed_assets_drop_their_hooks_with_a_warning() {
    let mut table = HookTable {
        hooks: vec![
            PendingHook { hook: 4, target: key(1), armed: true },
            PendingHook { hook: 5, target: key(2), armed: true },
        ],
    };
    let actions = table.apply_event(AssetEventKind::Removed(key(2)), true);
    assert_eq!(actions, vec![HookAction::WarnRemoved(5), HookAction::Despawn(5)]);
    assert!(table.hooks[1].armed);
}

#[test]
fn loaded_assets_run_now() {
    assert_eq!(plan_on_loaded(true), LoadedHookPlan::RunNow);
    assert_eq!(plan_on_loaded(false), LoadedHookPlan::Defer);
}

#[test]
fn global_asset_validation() {
    assert!(validate_global_asset(false, None));
    assert!(validate_global_asset(false, Some(false)));
    assert!(!validate_global_asset(true, None));
    assert!(!validate_global_asset(true, Some(false)));
    assert!(validate_global_asset(true, Some(true)));
}

#[test]
fn spawner_names() {
    assert_eq!(Waymark::C.spawner_name(), "Waymark C");
    assert_eq!(PlayerSprite { job: None }.spawner_name(), "None");
    assert_eq!(PlayerSprite { job: Some(Job::Warrior) }.spawner_name(), "Some(\n    Warrior,\n)");
    assert!(Waymark::unique());
    assert!(PlayerSprite::unique());
}

#[test]
fn spawners_start_enabled() {
    let s = Spawner::new(Waymark::A, "sprites/waymarks/way_a.png".to_string());
    assert!(s.enabled);
    assert_eq!(s.target, Waymark::A);
    assert_eq!(s.path, "sprites/waymarks/way_a.png");
    assert_eq!(s.tint_alpha(), SPAWNER_ALPHA);
    assert_eq!(SPAWNER_ALPHA, 230);
    let off = Spawner { enabled: false, ..s };
    assert_eq!(off.tint_alpha(), SPAWNER_DISABLED_ALPHA);
    assert_eq!(SPAWNER_DISABLED_ALPHA, 25);
}

#[test]
fn spawners_follow_the_board() {
    let mut spawners: Vec<Spawner<Waymark>> =
        Waymark::all().into_iter().map(|w| Spawner::new(w, w.asset_path().to_string())).collect();
    Spawner::update_enabled_state(&mut spawners, &vec![Waymark::B, Waymark::Three]);
    let enabled: Vec<bool> = spawners.iter().map(|s| s.enabled).collect();
    assert_eq!(enabled, vec![true, false, true, true, true, true, false, true]);
    assert_eq!(spawners[1].path, "sprites/waymarks/way_b.png");
    Spawner::update_enabled_state(&mut spawners, &vec![]);
    assert!(spawners.iter().all(|s| s.enabled));

    let mut players = vec![
        Spawner::new(PlayerSprite { job: Some(Job::Sage) }, "sage".to_string()),
        Spawner::new(PlayerSprite { job: None }, "none".to_string()),
    ];
    Spawner::update_enabled_state(&mut players, &vec![PlayerSprite { job: None }]);
    assert!(players[0].enabled);
    assert!(!players[1].enabled);
}

#[test]
fn default_tardis_is_unset() {
    let tardis: OnceTardis<u8> = OnceTardis::default();
    let (_count, w) = counting_waker();
    assert_eq!(tardis.poll_with(w.clone()), None);
    tardis.set(1);
    assert_eq!(tardis.poll_with(w), Some(1));
}
