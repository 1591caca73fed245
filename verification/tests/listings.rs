use stratmat::asset_listing::{select_loaded, AssetListing};
use stratmat::sorting::sort_texts;
use stratmat::tataru::{
    extension_for, known_dirs, same_path, subdirs_in_order, DirnameRead, EntryKind, EntryStep, Listing, DEFAULT_DIR,
    DIRNAME_FILE_NAME, LISTING_FILE_NAME,
};
use stratmat::text::{bytes_less, ends_with, text_eq, text_less};

fn strings(v: &[&str]) -> Vec<String> {
    v.iter().map(|s| s.to_string()).collect()
}

#[test]
fn text_order_is_byte_order() {
    assert!(text_less("a", "b"));
    assert!(!text_less("b", "a"));
    assert!(!text_less("a", "a"));
    assert!(text_less("ab", "abc"));
    assert!(text_less("", "a"));
    assert!(text_less("Z", "a"));
    // 'é' is encoded from 0xC3, after every ASCII byte.
    assert!(text_less("z", "é"));
    assert!(bytes_less(&[1, 2], &[1, 3]));
    assert!(!bytes_less(&[1, 2, 0], &[1, 2]));
    assert!(text_eq("p1.arena.ron", "p1.arena.ron"));
    assert!(!text_eq("p1", "p2"));
}

#[test]
fn suffixes() {
    assert!(ends_with("p1.arena.ron", ".arena.ron"));
    assert!(!ends_with("p1.arena.json", ".arena.ron"));
    assert!(ends_with("anything", ""));
    assert!(!ends_with("ron", ".arena.ron"));
    assert!(ends_with(".arena.ron", ".arena.ron"));
}

#[test]
fn sorting_matches_std() {
    let cases: Vec<Vec<&str>> = vec![
        vec![],
        vec!["one"],
        vec!["b", "a", "c", "a"],
        vec!["p3.arena.ron", "p10.arena.ron", "p1.arena.ron", "P2.arena.ron"],
        vec!["é", "e", "z", "", "ez"],
    ];
    for case in cases {
        let mut ours = strings(&case);
        let mut expected = strings(&case);
        sort_texts(&mut ours);
        expected.sort();
        assert_eq!(ours, expected);
    }
}

#[test]
fn listing_file_names() {
    assert_eq!(DIRNAME_FILE_NAME, ".dirname");
    assert_eq!(LISTING_FILE_NAME, ".listing");
}

#[test]
fn new_listing_is_empty() {
    let l = Listing::new("assets/arenas".to_string());
    assert_eq!(l.name, "assets/arenas");
    assert!(l.subdirs.is_empty());
    assert!(l.contents.is_empty());
}

#[test]
fn visiting_files() {
    let mut l = Listing::new("dir".to_string());
    assert_eq!(l.visit_entry("p2.arena.ron".to_string(), EntryKind::File, ".arena.ron"), EntryStep::Done);
    assert_eq!(l.visit_entry("notes.txt".to_string(), EntryKind::File, ".arena.ron"), EntryStep::Done);
    assert_eq!(l.visit_entry("p1.arena.ron".to_string(), EntryKind::File, ".arena.ron"), EntryStep::Done);
    assert_eq!(l.contents, strings(&["p2.arena.ron", "p1.arena.ron"]));
    assert_eq!(l.visit_entry(".dirname".to_string(), EntryKind::File, ".arena.ron"), EntryStep::ReadDirname);
    assert_eq!(l.contents.len(), 2);
    assert_eq!(l.visit_entry("link".to_string(), EntryKind::Symlink, ".arena.ron"), EntryStep::WarnSymlink);
    assert_eq!(l.visit_entry("fifo".to_string(), EntryKind::Other, ".arena.ron"), EntryStep::Done);
    assert_eq!(l.contents.len(), 2);
    assert!(l.subdirs.is_empty());
    l.finish();
    assert_eq!(l.contents, strings(&["p1.arena.ron", "p2.arena.ron"]));
    assert_eq!(l.name, "dir");
}

#[test]
fn a_dirname_file_with_the_extension_is_also_content() {
    let mut l = Listing::new("dir".to_string());
    assert_eq!(l.visit_entry(".dirname".to_string(), EntryKind::File, "name"), EntryStep::ReadDirname);
    assert_eq!(l.contents, strings(&[".dirname"]));
}

#[test]
fn dirname_outcomes() {
    let mut l = Listing::new("assets/arenas/ultimate".to_string());
    l.apply_dirname(".dirname".to_string(), DirnameRead::Contents("Ultimates".to_string()));
    assert_eq!(l.name, "Ultimates");
    let mut m = Listing::new("assets/arenas/savage".to_string());
    m.apply_dirname(".dirname".to_string(), DirnameRead::NotFound);
    assert_eq!(m.name, ".dirname");
}

#[test]
fn subdirectories_are_kept_in_name_order() {
    let mut l = Listing::new("root".to_string());
    for name in ["tea", "fru", "ucob", "dsr"] {
        let sub = Listing::new(format!("listing of {name}"));
        assert_eq!(l.visit_entry(name.to_string(), EntryKind::Dir(sub), ".arena.ron"), EntryStep::Done);
    }
    let keys: Vec<&str> = l.subdirs.iter().map(|(k, _)| k.as_str()).collect();
    assert_eq!(keys, vec!["dsr", "fru", "tea", "ucob"]);
    // A second listing under a name replaces the first.
    l.insert_subdir("fru".to_string(), Listing::new("again".to_string()));
    assert_eq!(l.subdirs.len(), 4);
    assert_eq!(l.subdirs[1].0, "fru");
    assert_eq!(l.subdirs[1].1.name, "again");
    assert!(l.contents.is_empty());
}

fn sample_listing() -> Listing {
    let mut tea = Listing::new("TEA".to_string());
    tea.contents = strings(&["p1.arena.ron", "p2.arena.ron"]);
    let mut fru = Listing::new("FRU".to_string());
    fru.contents = strings(&["p1.arena.ron"]);
    let mut ultimate = Listing::new("Ultimates".to_string());
    ultimate.insert_subdir("tea".to_string(), tea);
    ultimate.insert_subdir("fru".to_string(), fru);
    let mut root = Listing::new("Arenas".to_string());
    root.contents = strings(&["test.arena.ron"]);
    root.insert_subdir("ultimate".to_string(), ultimate);
    root
}

#[test]
fn loading_resolves_paths() {
    let a = AssetListing::load_from_tataru(sample_listing(), &strings(&["arenas"]));
    assert_eq!(a.name, "Arenas");
    assert_eq!(a.contents, vec![strings(&["arenas", "test.arena.ron"])]);
    assert_eq!(a.subdirs.len(), 1);
    let ult = &a.subdirs[0];
    assert_eq!(ult.name, "Ultimates");
    assert!(ult.contents.is_empty());
    assert_eq!(ult.subdirs[0].name, "FRU");
    assert_eq!(ult.subdirs[0].contents, vec![strings(&["arenas", "ultimate", "fru", "p1.arena.ron"])]);
    assert_eq!(ult.subdirs[1].name, "TEA");
    assert_eq!(ult.subdirs[1].contents[1], strings(&["arenas", "ultimate", "tea", "p2.arena.ron"]));
}

#[test]
fn every_listed_asset_is_visited_once_in_order() {
    let a = AssetListing::load_from_tataru(sample_listing(), &strings(&["arenas"]));
    let all = a.get_all();
    assert_eq!(
        all,
        vec![
            strings(&["arenas", "test.arena.ron"]),
            strings(&["arenas", "ultimate", "fru", "p1.arena.ron"]),
            strings(&["arenas", "ultimate", "tea", "p1.arena.ron"]),
            strings(&["arenas", "ultimate", "tea", "p2.arena.ron"]),
        ]
    );
}

#[test]
fn loading_from_the_asset_root() {
    let mut l = Listing::new("root".to_string());
    l.contents = strings(&["a.png"]);
    let a = AssetListing::load_from_tataru(l, &Vec::new());
    assert_eq!(a.get_all(), vec![strings(&["a.png"])]);
}

#[test]
fn known_directories() {
    assert_eq!(DEFAULT_DIR, "assets");
    assert_eq!(known_dirs(), vec![(strings(&["assets", "arenas"]), ".arena.ron".to_string())]);
}

#[test]
fn extension_choice() {
    let arenas = strings(&["assets", "arenas"]);
    assert_eq!(extension_for(&arenas, None), Some(".arena.ron".to_string()));
    assert_eq!(extension_for(&arenas, Some(".png".to_string())), Some(".png".to_string()));
    assert_eq!(extension_for(&strings(&["assets", "sprites"]), None), None);
    assert_eq!(extension_for(&strings(&["elsewhere", "arenas"]), None), None);
    assert_eq!(extension_for(&strings(&["assets"]), None), None);
    assert_eq!(extension_for(&Vec::new(), None), None);
    assert_eq!(extension_for(&Vec::new(), Some("x".to_string())), Some("x".to_string()));
}

#[test]
fn path_equality() {
    assert!(same_path(&strings(&["a", "b"]), &strings(&["a", "b"])));
    assert!(!same_path(&strings(&["a", "b"]), &strings(&["a"])));
    assert!(!same_path(&strings(&["a", "b"]), &strings(&["a", "c"])));
    assert!(same_path(&Vec::new(), &Vec::new()));
}

#[test]
fn subdirectory_order_check() {
    assert!(subdirs_in_order(&sample_listing()));
    let mut l = Listing::new("x".to_string());
    l.subdirs.push(("b".to_string(), Listing::new("b".to_string())));
    l.subdirs.push(("a".to_string(), Listing::new("a".to_string())));
    assert!(!subdirs_in_order(&l));
    l.subdirs[1].0 = "b".to_string();
    assert!(!subdirs_in_order(&l));
    l.subdirs[1].0 = "c".to_string();
    assert!(subdirs_in_order(&l));
}

#[test]
fn unloaded_assets_are_skipped() {
    let a = AssetListing::load_from_tataru(sample_listing(), &strings(&["arenas"]));
    let all = a.get_all();
    let kept = select_loaded(&all, &vec![true, false, false, true]);
    assert_eq!(
        kept,
        vec![strings(&["arenas", "test.arena.ron"]), strings(&["arenas", "ultimate", "tea", "p2.arena.ron"])]
    );
    assert!(select_loaded(&all, &vec![false; 4]).is_empty());
    assert_eq!(select_loaded(&all, &vec![true; 4]), all);
}

#[test]
fn default_and_cloned_listings() {
    let d = Listing::default();
    assert_eq!(d.name, "");
    assert!(d.subdirs.is_empty() && d.contents.is_empty());
    let l = sample_listing();
    let c = l.clone();
    assert_eq!(c.name, l.name);
    assert_eq!(c.subdirs.len(), l.subdirs.len());
    assert_eq!(c.contents, l.contents);
}
