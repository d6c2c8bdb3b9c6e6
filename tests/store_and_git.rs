use wuddle_engine::dlls::{remove_dlls_txt_entries, set_dlls_txt_entries_commented, update_dlls_txt};
use wuddle_engine::forge::{detect_repo, DetectError, ForgeKind};
use wuddle_engine::git::{remote_branches, remote_head_for_branch, GitHeadError, RemoteRef};
use wuddle_engine::model::InstallMode;
use wuddle_engine::store::find_repo_id;
use wuddle_engine::deploy::resolve_install_path;
use wuddle_engine::paths::to_manifest_path;
use wuddle_engine::paths::{addon_repo_staging_dir, cache_key, db_path, git_url_candidates, repo_key, sanitize_fs_component};
use wuddle_engine::session::{import_entry, cache_lookup, github_token, normalize_git_remote_url, set_github_token, CachedRelease, CacheLookup, TokenHolder};

fn lines(v: &[&str]) -> Vec<String> {
    v.iter().map(|s| s.to_string()).collect()
}

#[test]
fn mode_names_round_trip() {
    for m in [InstallMode::Auto, InstallMode::Addon, InstallMode::AddonGit, InstallMode::Dll, InstallMode::Mixed, InstallMode::Raw] {
        assert_eq!(InstallMode::from_str(m.as_str()), Some(m));
    }
    assert_eq!(InstallMode::from_str("GIT_ADDON"), Some(InstallMode::AddonGit));
    assert_eq!(InstallMode::from_str("zip"), None);
}

#[test]
fn detect_github_release_url() {
    let d = detect_repo("  https://github.com/Owner/Repo.git/releases/latest ").unwrap();
    assert_eq!(d.kind, ForgeKind::GitHub);
    assert_eq!(d.forge_str, "github");
    assert_eq!(d.owner, "Owner");
    assert_eq!(d.name, "Repo");
    assert_eq!(d.project_path, "Owner/Repo");
    assert_eq!(d.canonical_url, "https://github.com/Owner/Repo");
}

#[test]
fn detect_gitlab_and_gitea() {
    let d = detect_repo("https://gitlab.example.org/group/sub/proj/-/releases").unwrap();
    assert_eq!(d.kind, ForgeKind::GitLab);
    assert_eq!(d.owner, "group/sub");
    assert_eq!(d.name, "proj");
    assert_eq!(d.canonical_url, "https://gitlab.example.org/group/sub/proj");
    let d = detect_repo("https://codeberg.org/a/b/tags").unwrap();
    assert_eq!(d.kind, ForgeKind::Gitea);
    assert_eq!(d.project_path, "a/b");
    assert_eq!(detect_repo("https://github.com/").unwrap_err(), DetectError::EmptyPath);
    assert_eq!(detect_repo("https://github.com/onlyowner").unwrap_err(), DetectError::ExpectedOwnerAndName);
    assert_eq!(detect_repo("nope").unwrap_err(), DetectError::InvalidUrl);
    assert_eq!(cache_key(&detect_repo("https://GitHub.com/A/B").unwrap()), "github|github.com|a/b");
}

#[test]
fn dlls_txt_editing() {
    let existing = lines(&["d3d9.dll", "# Foo.dll", "", "bar.dll"]);
    assert_eq!(
        update_dlls_txt(&existing, &lines(&["foo.dll", "new.dll"])),
        Some("d3d9.dll\nfoo.dll\n\nbar.dll\nnew.dll\n".to_string())
    );
    assert_eq!(update_dlls_txt(&existing, &lines(&[])), None);
    assert_eq!(remove_dlls_txt_entries(&existing, &lines(&["FOO.dll"])), Some("d3d9.dll\n\nbar.dll\n".to_string()));
    let (text, n) = set_dlls_txt_entries_commented(&existing, &lines(&["bar.dll"]), true);
    assert_eq!(n, 1);
    assert_eq!(text, Some("d3d9.dll\n# Foo.dll\n\n# bar.dll\n".to_string()));
    let (text, n) = set_dlls_txt_entries_commented(&existing, &lines(&["foo.dll", "x.dll"]), false);
    assert_eq!(n, 2);
    assert_eq!(text, Some("d3d9.dll\nFoo.dll\n\nbar.dll\nx.dll\n".to_string()));
    let (text, n) = set_dlls_txt_entries_commented(&existing, &lines(&["d3d9.dll"]), false);
    assert_eq!((text, n), (None, 0));
}

fn r(name: &str, oid: &str, target: Option<&str>) -> RemoteRef {
    RemoteRef { name: name.to_string(), symref_target: target.map(|t| t.to_string()), oid: oid.to_string() }
}

#[test]
fn remote_head_precedence() {
    let refs = vec![
        r("HEAD", "1111111111aaaa", Some("refs/heads/dev")),
        r("refs/heads/dev", "1111111111aaaa", None),
        r("refs/heads/main", "2222222222bbbb", None),
        r("refs/heads/feature", "3333333333cccc", None),
    ];
    let h = remote_head_for_branch(&refs, Some(" feature ")).unwrap();
    assert_eq!(h.branch, "feature");
    assert_eq!(h.short_oid, "3333333333");
    assert_eq!(h.remote_ref, "refs/heads/feature");
    let h = remote_head_for_branch(&refs, Some("missing")).unwrap();
    assert_eq!(h.branch, "dev");
    let h = remote_head_for_branch(&refs[2..].to_vec(), None).unwrap();
    assert_eq!(h.branch, "main");
    let zero = vec![r("refs/heads/x", "0000", None)];
    assert_eq!(remote_head_for_branch(&zero, None).unwrap_err(), GitHeadError::NoHeadRef);
    assert_eq!(remote_head_for_branch(&vec![], None).unwrap_err(), GitHeadError::NoHeadRef);
}

#[test]
fn branch_listing_sorted_and_deduplicated() {
    let refs = vec![
        r("refs/heads/main", "1", None),
        r("refs/tags/v1", "2", None),
        r("refs/heads/Dev", "3", None),
        r("refs/heads/dev", "4", None),
        r("refs/heads/alpha", "5", None),
    ];
    assert_eq!(remote_branches(&refs), lines(&["alpha", "Dev", "main"]));
}

#[test]
fn paths_and_keys() {
    assert_eq!(sanitize_fs_component("a b/c"), "a_b_c");
    assert_eq!(sanitize_fs_component(""), "_");
    assert_eq!(
        addon_repo_staging_dir("/wow", "github.com", "me", "my addon"),
        "/wow/Interface/AddOns/.wuddle/addon_git/github.com/me/my_addon"
    );
    assert_eq!(db_path("/data/wuddle/"), "/data/wuddle/wuddle.sqlite");
    assert_eq!(repo_key(" GitHub.com ", "Me", "Repo"), "github.com|me|repo");
    assert_eq!(git_url_candidates(" https://h/o/r/ "), lines(&["https://h/o/r.git", "https://h/o/r"]));
    assert_eq!(git_url_candidates("https://h/o/r.git"), lines(&["https://h/o/r.git"]));
    assert!(git_url_candidates("  ").is_empty());
}

#[test]
fn remote_urls_and_tokens() {
    assert_eq!(normalize_git_remote_url("git@github.com:me/repo.git"), Some("https://github.com/me/repo.git".to_string()));
    assert_eq!(normalize_git_remote_url("ssh://git@host.org/me/repo"), Some("https://host.org/me/repo".to_string()));
    assert_eq!(normalize_git_remote_url("https://x/y"), Some("https://x/y".to_string()));
    assert_eq!(normalize_git_remote_url("nonsense"), None);
    let mut h = TokenHolder::default();
    set_github_token(&mut h, Some("  tok  ".to_string()));
    assert_eq!(h.token.as_deref(), Some("tok"));
    assert_eq!(github_token(&h, Some("env".to_string())), Some("tok".to_string()));
    set_github_token(&mut h, Some("   ".to_string()));
    assert_eq!(github_token(&h, Some(" env ".to_string())), Some("env".to_string()));
}

#[test]
fn release_cache_answers() {
    let e = CachedRelease {
        etag: Some("\"abc\"".to_string()),
        release: wuddle_engine::model::LatestRelease { tag: "v1".to_string(), name: None, assets: vec![] },
    };
    assert!(matches!(cache_lookup(None, 0, None), CacheLookup::Miss));
    assert!(matches!(cache_lookup(Some(&e), 46, None), CacheLookup::Expired));
    assert!(matches!(cache_lookup(Some(&e), 10, Some("\"abc\"")), CacheLookup::NotModified { .. }));
    assert!(matches!(cache_lookup(Some(&e), 10, Some("other")), CacheLookup::Hit { .. }));
}

fn row(id: i64, host: &str, owner: &str, name: &str) -> wuddle_engine::model::Repo {
    wuddle_engine::model::Repo {
        id,
        url: format!("https://{}/{}/{}", host, owner, name),
        forge: "github".to_string(),
        host: host.to_string(),
        owner: owner.to_string(),
        name: name.to_string(),
        mode: InstallMode::Addon,
        enabled: true,
        git_branch: None,
        asset_regex: None,
        last_version: None,
        etag: None,
        installed_asset_id: None,
        installed_asset_name: None,
        installed_asset_size: None,
        installed_asset_url: None,
    }
}

#[test]
fn identity_lookup_is_case_sensitive() {
    let rows = vec![row(1, "github.com", "a", "b"), row(2, "github.com", "a", "c")];
    assert_eq!(find_repo_id(&rows, "github.com", "a", "c"), Some(2));
    assert_eq!(find_repo_id(&rows, "github.com", "A", "c"), None);
    assert_eq!(find_repo_id(&vec![], "github.com", "a", "c"), None);
}

#[test]
fn detect_url_without_host() {
    assert_eq!(detect_repo("mailto:someone@example.com").unwrap_err(), DetectError::MissingHost);
}

#[test]
fn head_without_known_commit() {
    let refs = vec![r("HEAD", "0", Some("refs/heads/gone"))];
    assert_eq!(remote_head_for_branch(&refs, None).unwrap_err(), GitHeadError::NoHeadCommit);
}

#[test]
fn windows_paths_in_manifest() {
    assert_eq!(to_manifest_path("C:\\W\\Interface\\AddOns\\A", "C:\\W"), "Interface/AddOns/A");
    assert_eq!(to_manifest_path("C:\\W\\A", "C:\\W\\"), "A");
    assert_eq!(to_manifest_path("C:\\W", "C:\\W"), "");
    assert_eq!(to_manifest_path("D:\\X\\y.dll", "C:\\W"), "D:/X/y.dll");
    assert_eq!(to_manifest_path("/g/wow/x.dll", "/g/wow"), "x.dll");
}

#[test]
fn stored_paths_resolve_on_both_platforms() {
    assert_eq!(resolve_install_path("C:/W/A", Some("C:\\W")), Some("C:/W/A".to_string()));
    assert_eq!(resolve_install_path("C:\\W\\A", None), Some("C:\\W\\A".to_string()));
    assert_eq!(resolve_install_path("\\\\server\\share\\A", Some("C:\\W")), Some("\\\\server\\share\\A".to_string()));
    assert_eq!(resolve_install_path("/abs/x", None), Some("/abs/x".to_string()));
    assert_eq!(resolve_install_path("Interface/AddOns/A", Some("C:\\W")), Some("C:\\W/Interface/AddOns/A".to_string()));
    assert_eq!(resolve_install_path("Interface\\..\\x", Some("C:\\W")), None);
    assert_eq!(resolve_install_path("C:rel", Some("C:\\W")), None);
    assert_eq!(resolve_install_path("rel", None), None);
}

#[test]
fn import_of_found_clone() {
    let detected = vec![
        ("C:\\W\\Interface\\AddOns\\pfQuest\\pfQuest".to_string(), "pfQuest".to_string()),
        ("x".to_string(), "PFQUEST".to_string()),
        ("y".to_string(), "pfQuest-db".to_string()),
    ];
    let imp = import_entry(
        "C:\\W",
        "C:\\W\\Interface\\AddOns\\pfQuest",
        "pfQuest",
        "git@github.com:shagu/pfQuest.git",
        &vec![],
        &detected,
        Some(" main ".to_string()),
        None,
    )
    .unwrap();
    assert_eq!(imp.repo.url, "https://github.com/shagu/pfQuest");
    assert_eq!(imp.repo.mode, InstallMode::AddonGit);
    assert_eq!(imp.repo.git_branch.as_deref(), Some("main"));
    assert_eq!(imp.repo.installed_asset_name.as_deref(), Some("git:main"));
    assert_eq!(imp.key, "github.com|shagu|pfquest");
    assert_eq!(
        imp.entries,
        vec![
            ("Interface/AddOns/pfQuest".to_string(), "raw".to_string()),
            ("Interface/AddOns/pfQuest".to_string(), "addon".to_string()),
            ("Interface/AddOns/pfQuest-db".to_string(), "addon".to_string()),
        ]
    );
    let again = import_entry("C:\\W", "p", "pfQuest", "git@github.com:shagu/pfQuest.git", &vec![imp.key.clone()], &detected, None, None);
    assert!(again.is_none());
    assert!(import_entry("C:\\W", "p", ".hidden", "git@github.com:a/b.git", &vec![], &detected, None, None).is_none());
    assert!(import_entry("C:\\W", "p", "b", "git@github.com:a/b.git", &vec![], &vec![], None, None).is_none());
}
