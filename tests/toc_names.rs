use wuddle_engine::toc::{addon_folder_name_from_toc, normalize_toc_stem};

#[test]
fn normalize_toc_suffixes_common_cases() {
    assert_eq!(normalize_toc_stem("pfQuest-tbc"), "pfQuest");
    assert_eq!(normalize_toc_stem("pfQuest-wotlk"), "pfQuest");
    assert_eq!(normalize_toc_stem("pfQuest_Wrath"), "pfQuest");
    assert_eq!(normalize_toc_stem("pfUI-Classic"), "pfUI");
    assert_eq!(normalize_toc_stem("MyAddon-WOTLKC"), "MyAddon");
}

#[test]
fn normalize_toc_suffixes_preserves_non_suffix_names() {
    assert_eq!(normalize_toc_stem("nampower"), "nampower");
    assert_eq!(normalize_toc_stem("VanillaHelpers"), "VanillaHelpers");
    assert_eq!(normalize_toc_stem("Addon-Tooling"), "Addon-Tooling");
}

#[test]
fn normalize_toc_strips_repeated_suffixes_and_space() {
    assert_eq!(normalize_toc_stem("  Foo-classic_era  "), "Foo");
    assert_eq!(normalize_toc_stem("Foo-ClassicEra"), "Foo");
    assert_eq!(normalize_toc_stem("-era"), "-era");
    assert_eq!(normalize_toc_stem("   "), "");
}

fn stems(v: &[&str]) -> Vec<String> {
    v.iter().map(|s| s.to_string()).collect()
}

#[test]
fn folder_keeps_directory_name_matching_a_stem() {
    let r = addon_folder_name_from_toc("pfQuest", false, &stems(&["pfQuest-tbc", "pfQuest-wotlk"]));
    assert_eq!(r, Some("pfQuest".to_string()));
    let r = addon_folder_name_from_toc("pfquest", false, &stems(&["PFQUEST"]));
    assert_eq!(r, Some("pfquest".to_string()));
}

#[test]
fn folder_uses_agreed_normalized_stem() {
    let r = addon_folder_name_from_toc("pfQuest-master", false, &stems(&["pfQuest-tbc", "pfQuest_Wrath"]));
    assert_eq!(r, Some("pfQuest".to_string()));
}

#[test]
fn folder_root_with_disagreeing_stems_defers() {
    let r = addon_folder_name_from_toc("repo", true, &stems(&["Alpha", "Beta"]));
    assert_eq!(r, None);
}

#[test]
fn folder_picks_most_common_then_smallest() {
    let r = addon_folder_name_from_toc("x", false, &stems(&["Beta", "Alpha", "beta-tbc"]));
    assert_eq!(r, Some("beta".to_string()));
    let r = addon_folder_name_from_toc("x", false, &stems(&["Zed", "Alpha"]));
    assert_eq!(r, Some("alpha".to_string()));
}

#[test]
fn folder_without_stems_has_no_name() {
    assert_eq!(addon_folder_name_from_toc("x", false, &stems(&[])), None);
    assert_eq!(addon_folder_name_from_toc("x", false, &stems(&["  "])), None);
}
