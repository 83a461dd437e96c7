use bonsai::error::CustomError;
use bonsai::packer::{is_atlas_source, should_repack, AtlasContext};
use bonsai::staleness::{is_stale, is_tree_stale, Scanned, SourceAsset};

fn file(path: &str, mtime: u64) -> SourceAsset {
    SourceAsset { path: path.to_string(), is_dir: false, mtime }
}

#[test]
fn missing_output_is_stale() {
    assert!(is_stale(0, None));
    assert!(is_stale(u64::MAX, None));
}

#[test]
fn output_is_stale_only_when_the_source_is_strictly_newer() {
    assert!(is_stale(11, Some(10)));
    assert!(!is_stale(10, Some(10)));
    assert!(!is_stale(9, Some(10)));
}

#[test]
fn touching_flips_the_staleness() {
    let source = 100;
    let output = 200;
    assert!(!is_stale(source, Some(output)));
    let touched_source = 201;
    assert!(is_stale(touched_source, Some(output)));
    let touched_output = 202;
    assert!(!is_stale(touched_source, Some(touched_output)));
}

#[test]
fn tree_is_stale_when_any_relevant_file_is_newer() {
    let entries = vec![file("a", 5), file("b", 15), file("c", 7)];
    assert!(is_tree_stale(&entries, &vec![true, true, true], Some(10)));
    assert!(!is_tree_stale(&entries, &vec![true, false, true], Some(10)));
    assert!(!is_tree_stale(&entries, &vec![true, true, true], Some(15)));
    assert!(is_tree_stale(&entries, &vec![false, false, false], None));
    assert!(!is_tree_stale(&Vec::new(), &Vec::new(), Some(0)));
    assert!(is_tree_stale(&Vec::new(), &Vec::new(), None));
}

const ATLAS: &str = "assets/images/atlas.png";

#[test]
fn atlas_sources_are_png_files_other_than_the_atlas() {
    assert!(is_atlas_source("assets/images/hero.png", false, ATLAS));
    assert!(is_atlas_source("assets/images/tilesets/t_16x16.png", false, ATLAS));
    assert!(!is_atlas_source("assets/images/atlas.png", false, ATLAS));
    // only the output file itself is left out, not every file of its name
    assert!(is_atlas_source("assets/images/sub/atlas.png", false, ATLAS));
    assert!(is_atlas_source("atlas.png", false, ATLAS));
    assert!(is_atlas_source("assets/images/my_atlas.png", false, ATLAS));
    assert!(!is_atlas_source("assets/images/hero.jpg", false, ATLAS));
    assert!(!is_atlas_source("assets/images/hero.PNG", false, ATLAS));
    assert!(!is_atlas_source("assets/images/png", false, ATLAS));
    assert!(!is_atlas_source("assets/images/folder.png", true, ATLAS));
}

fn found(path: &str, mtime: u64) -> Scanned {
    Scanned::Found { path: path.to_string(), is_dir: false, mtime: Ok(mtime) }
}

fn unread(path: &str) -> Scanned {
    Scanned::Found { path: path.to_string(), is_dir: false, mtime: Err("permission denied".to_string()) }
}

fn walk() -> Vec<Scanned> {
    vec![
        Scanned::Found { path: "assets/images".to_string(), is_dir: true, mtime: Ok(999) },
        found("assets/images/atlas.png", 999),
        found("assets/images/notes.txt", 999),
        found("assets/images/hero.png", 50),
        found("assets/images/tilesets/t_16x16.png", 60),
    ]
}

#[test]
fn repacking_is_decided_by_the_newest_source_image() {
    assert!(!should_repack(&walk(), ATLAS, Ok(Some(60))).unwrap());
    assert!(should_repack(&walk(), ATLAS, Ok(Some(59))).unwrap());
    assert!(should_repack(&walk(), ATLAS, Ok(None)).unwrap());
    assert!(!should_repack(&Vec::new(), ATLAS, Ok(Some(0))).unwrap());
    assert!(should_repack(&Vec::new(), ATLAS, Ok(None)).unwrap());
}

#[test]
fn image_named_like_the_atlas_in_a_subdirectory_counts() {
    let mut entries = walk();
    entries.push(found("assets/images/sub/atlas.png", 70));
    assert!(should_repack(&entries, ATLAS, Ok(Some(60))).unwrap());
    assert!(!should_repack(&entries, ATLAS, Ok(Some(70))).unwrap());
}

#[test]
fn unreadable_source_image_is_an_error_and_never_fresh() {
    let mut entries = walk();
    entries.push(unread("assets/images/locked.png"));
    let err = should_repack(&entries, ATLAS, Ok(Some(60))).unwrap_err();
    assert!(matches!(err, CustomError::IoError(_)));
    assert_eq!(err.message(), "I/O operation failed: permission denied");
    // a newer image that comes first decides before the unreadable one is reached
    assert!(should_repack(&entries, ATLAS, Ok(Some(59))).unwrap());
    // a missing atlas is stale whatever the walk holds
    assert!(should_repack(&entries, ATLAS, Ok(None)).unwrap());
}

#[test]
fn unreadable_files_that_are_no_sources_are_passed_over() {
    let entries = vec![
        unread("assets/images/notes.txt"),
        unread("assets/images/atlas.png"),
        Scanned::Found {
            path: "assets/images/dir.png".to_string(),
            is_dir: true,
            mtime: Err("permission denied".to_string()),
        },
        found("assets/images/hero.png", 5),
    ];
    assert!(!should_repack(&entries, ATLAS, Ok(Some(60))).unwrap());
}

#[test]
fn failed_walk_and_unreadable_atlas_are_errors() {
    let entries = vec![found("assets/images/a.png", 5), Scanned::Unreadable("loop".to_string())];
    let err = should_repack(&entries, ATLAS, Ok(Some(60))).unwrap_err();
    assert_eq!(err.message(), "I/O operation failed: loop");
    let err = should_repack(&walk(), ATLAS, Err("stat failed".to_string())).unwrap_err();
    assert_eq!(err.message(), "I/O operation failed: stat failed");
}

#[test]
fn atlas_context_names_the_images_directory_and_the_atlas() {
    let ctx = AtlasContext::new("assets", "assets/images", true);
    assert_eq!(ctx.images_dir, "assets/images");
    assert_eq!(ctx.atlas_dir, "assets/images");
    assert_eq!(ctx.atlas_path, "assets/images/atlas.png");
    assert!(ctx.verbose);
    assert_eq!(ctx.info("Packing texture atlas..."), Some("Packing texture atlas...".to_string()));
    let quiet = AtlasContext::new("game/assets/", "out", false);
    assert_eq!(quiet.images_dir, "game/assets/images");
    assert_eq!(quiet.atlas_path, "out/atlas.png");
    assert_eq!(quiet.info("anything"), None);
}
