use stratmat::arena::{asset_path, submenu, ArenaMap, ArenaMenuSource, MenuEntry, ARENA_LISTING_PATH, DIR, EXTENSION};
use stratmat::job::{Job, PlayerSprite};
use stratmat::waymark::{ShapeKind, Waymark, WaymarkColor};

#[test]
fn job_abbreviations() {
    assert_eq!(Job::Paladin.abbrev(), "PLD");
    assert_eq!(Job::Warrior.abbrev(), "WAR");
    assert_eq!(Job::Pictomancer.abbrev(), "PCT");
    assert_eq!(Job::Beastmaster.abbrev(), "BSM");
}

#[test]
fn job_icons() {
    assert_eq!(Job::Sage.icon_asset_path(), "sprites/jobs/sge.png");
    assert_eq!(Job::BlueMage.icon_asset_path(), "sprites/jobs/blu.png");
    // The beastmaster has no icon of its own.
    assert_eq!(Job::Beastmaster.icon_asset_path(), Job::none_asset_path());
    assert_eq!(Job::none_asset_path(), "sprites/jobs/none.png");
}

#[test]
fn player_sprite_paths() {
    assert_eq!(PlayerSprite { job: None }.asset_path(), "sprites/jobs/none.png");
    assert_eq!(PlayerSprite { job: Some(Job::DarkKnight) }.asset_path(), "sprites/jobs/drk.png");
}

#[test]
fn waymark_images_and_names() {
    assert_eq!(Waymark::A.asset_path(), "sprites/waymarks/way_a.png");
    assert_eq!(Waymark::Three.asset_path(), "sprites/waymarks/way_3.png");
    assert_eq!(Waymark::D.name(), "Waymark D");
    assert_eq!(Waymark::Four.name(), "Waymark 4");
}

#[test]
fn waymark_ids_are_preset_ids() {
    let ids: Vec<u8> = Waymark::all().iter().map(|w| w.id()).collect();
    assert_eq!(ids, vec![0, 1, 2, 3, 4, 5, 6, 7]);
    assert_eq!(
        Waymark::all(),
        vec![
            Waymark::A,
            Waymark::B,
            Waymark::C,
            Waymark::D,
            Waymark::One,
            Waymark::Two,
            Waymark::Three,
            Waymark::Four
        ]
    );
}

#[test]
fn waymark_colour_pairs() {
    assert_eq!(Waymark::A.color(), WaymarkColor::Red);
    assert_eq!(Waymark::One.color(), WaymarkColor::Red);
    assert_eq!(Waymark::B.color(), Waymark::Two.color());
    assert_eq!(Waymark::C.color(), WaymarkColor::LightCyan);
    assert_eq!(Waymark::Four.color(), WaymarkColor::Fuchsia);
    assert_ne!(Waymark::A.color(), Waymark::B.color());
}

#[test]
fn waymark_shapes() {
    assert!(Waymark::A.is_circle());
    assert!(!Waymark::A.is_square());
    assert!(Waymark::Two.is_square());
    assert!(!Waymark::Two.is_circle());
    assert_eq!(Waymark::One.shape_kind(), ShapeKind::Rectangle);
    assert_eq!(Waymark::Four.shape_kind(), ShapeKind::Rectangle);
    assert_eq!(Waymark::B.shape_kind(), ShapeKind::Circle);
    assert_eq!(Waymark::D.shape_kind(), ShapeKind::Circle);
}

#[test]
fn arena_constants() {
    assert_eq!(EXTENSION, "arena.ron");
    assert_eq!(DIR, "arenas");
    assert_eq!(ARENA_LISTING_PATH, "arenas/.listing");
    assert_eq!(ArenaMap::TeaP1.asset_path(), "arenas/ultimate/tea/p1.arena.ron");
}

#[test]
fn arena_asset_paths() {
    assert_eq!(asset_path("ultimate/fru/p1"), "arenas/ultimate/fru/p1.arena.ron");
    assert_eq!(asset_path("savage/m1"), "arenas/savage/m1.arena.ron");
    // An extension already there is replaced.
    assert_eq!(asset_path("old.json"), "arenas/old.arena.ron");
    // A path from the root replaces the arena directory.
    assert_eq!(asset_path("/elsewhere/a"), "/elsewhere/a.arena.ron");
    // Only the last dot of the file name starts its extension; a leading dot does not.
    assert_eq!(asset_path("a.b.c"), "arenas/a.b.arena.ron");
    assert_eq!(asset_path("dir/.hidden"), "arenas/dir/.hidden.arena.ron");
}

fn source(name: &str, arenas: Vec<Option<&str>>, subdirs: Vec<ArenaMenuSource>) -> ArenaMenuSource {
    ArenaMenuSource {
        name: name.to_string(),
        arenas: arenas.into_iter().map(|a| a.map(|s| s.to_string())).collect(),
        subdirs,
    }
}

#[test]
fn arena_menu_layout() {
    let tea = source("TEA", vec![Some("P1"), None, Some("P3")], vec![]);
    let fru = source("FRU", vec![Some("P1")], vec![]);
    let root = source("Arenas", vec![Some("Test")], vec![fru, tea]);
    let menu = submenu(root);
    assert_eq!(menu.label, "Arenas");
    assert_eq!(menu.entries.len(), 4);
    match &menu.entries[0] {
        MenuEntry::Submenu(m) => {
            assert_eq!(m.label, "FRU");
            assert_eq!(m.entries.len(), 1);
            assert!(matches!(&m.entries[0], MenuEntry::Button { label, content: 0 } if label == "P1"));
        }
        _ => panic!("first entry is not a submenu"),
    }
    match &menu.entries[1] {
        MenuEntry::Submenu(m) => {
            assert_eq!(m.label, "TEA");
            assert_eq!(m.entries.len(), 3);
            assert!(matches!(&m.entries[0], MenuEntry::Button { label, content: 0 } if label == "P1"));
            assert!(matches!(&m.entries[1], MenuEntry::NotLoaded(1)));
            assert!(matches!(&m.entries[2], MenuEntry::Button { label, content: 2 } if label == "P3"));
        }
        _ => panic!("second entry is not a submenu"),
    }
    assert!(matches!(&menu.entries[2], MenuEntry::Separator));
    assert!(matches!(&menu.entries[3], MenuEntry::Button { label, content: 0 } if label == "Test"));
}

#[test]
fn arena_menu_without_separator() {
    let only_arenas = submenu(source("A", vec![Some("x"), Some("y")], vec![]));
    assert_eq!(only_arenas.entries.len(), 2);
    assert!(!only_arenas.entries.iter().any(|e| matches!(e, MenuEntry::Separator)));
    let only_dirs = submenu(source("B", vec![], vec![source("C", vec![], vec![])]));
    assert_eq!(only_dirs.entries.len(), 1);
    assert!(matches!(&only_dirs.entries[0], MenuEntry::Submenu(m) if m.label == "C" && m.entries.is_empty()));
    let empty = submenu(source("E", vec![], vec![]));
    assert!(empty.entries.is_empty());
}
