use nix_weather::nix::{cut_field, requisites_to_hashes, store_path_to_hash};

#[test]
fn a_store_path_cuts_down_to_its_hash() {
    assert_eq!(
        store_path_to_hash("/nix/store/a1b2c3d4e5f6-package-1.2.3"),
        "a1b2c3d4e5f6"
    );
}

#[test]
fn a_hash_without_a_name_suffix_passes_through() {
    assert_eq!(store_path_to_hash("/nix/store/a1b2c3"), "a1b2c3");
}

#[test]
fn cut_field_selects_by_delimiter() {
    assert_eq!(cut_field("/nix/store/abc-def", '/', 3), "abc-def");
    assert_eq!(cut_field("a-b-c", '-', 0), "a");
    assert_eq!(cut_field("a-b-c", '-', 2), "c");
}

#[test]
fn cut_field_passes_text_without_the_delimiter_through() {
    assert_eq!(cut_field("no-slashes-here", '/', 3), "no-slashes-here");
}

#[test]
fn cut_field_yields_nothing_past_the_last_field() {
    assert_eq!(cut_field("a/b", '/', 3), "");
}

#[test]
fn requisites_become_hashes_line_by_line() {
    let requisites = "/nix/store/aaa111-glibc-2.39\n/nix/store/bbb222-bash-5.2\n";
    assert_eq!(requisites_to_hashes(requisites), vec!["aaa111", "bbb222"]);
}

#[test]
fn no_requisites_mean_no_hashes() {
    assert!(requisites_to_hashes("").is_empty());
}
