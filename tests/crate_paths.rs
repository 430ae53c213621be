use block_units::crate_paths::{is_ignored_dir, is_target_file};

#[test]
fn target_file_matches_by_suffix() {
    assert!(is_target_file("Cargo.toml", "Cargo.toml"));
    assert!(is_target_file("MyCargo.toml", "Cargo.toml"));
    assert!(!is_target_file("Cargo.toml.bak", "Cargo.toml"));
    assert!(!is_target_file("toml", "Cargo.toml"));
    assert!(is_target_file("anything", ""));
}

#[test]
fn ignored_dirs_match_whole_names() {
    let ignore = vec![String::from(".git"), String::from("target")];
    assert!(is_ignored_dir(".git", &ignore));
    assert!(is_ignored_dir("target", &ignore));
    assert!(!is_ignored_dir("targets", &ignore));
    assert!(!is_ignored_dir("src", &ignore));
    assert!(!is_ignored_dir("src", &Vec::new()));
}
