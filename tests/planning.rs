use wuddle_engine::deploy::{bundled_tool_layout, skip_bundled_patcher, 
    addon_install_conflicts, format_addon_conflict_message, install_route, resolve_addon_conflicts,
    select_dlls_for_install, zip_targets, InstallRoute,
};
use wuddle_engine::model::{InstallMode, LatestRelease, ReleaseAsset, Repo};
use wuddle_engine::paths::to_manifest_path;
use wuddle_engine::plan::{
    blank_plan, effective_asset_id, parse_decimal_i64, plan_after_fetch, plan_after_fetch_error, effective_latest_label, is_generic_release_label, label_from_found_token,
    plan_after_failure, plan_for_release, plan_not_modified, rate_limit_gate, rate_limited_plan,
    record_release_install, should_download, version_from_asset_name, CooldownGate,
};
use wuddle_engine::toc::addon_folder_name_from_toc;

fn repo(mode: InstallMode) -> Repo {
    Repo {
        id: 7,
        url: "https://github.com/owner/sample".to_string(),
        forge: "github".to_string(),
        host: "github.com".to_string(),
        owner: "owner".to_string(),
        name: "sample".to_string(),
        mode,
        enabled: true,
        git_branch: None,
        asset_regex: None,
        last_version: None,
        etag: None,
        installed_asset_id: None,
        installed_asset_name: None,
        installed_asset_size: None,
        installed_asset_url: None,
    }
}

fn one_asset_release(tag: &str, name: &str, size: u64) -> LatestRelease {
    LatestRelease {
        tag: tag.to_string(),
        name: None,
        assets: vec![ReleaseAsset {
            id: Some("42".to_string()),
            name: name.to_string(),
            download_url: format!("https://github.com/owner/sample/releases/download/{}/{}", tag, name),
            size: Some(size),
            content_type: None,
            sha256: None,
        }],
    }
}

#[test]
fn label_from_generic_tag_uses_asset_version() {
    assert_eq!(effective_latest_label("latest", "SuperWoW_1.5.1.zip"), "1.5.1");
    assert_eq!(effective_latest_label("v2.0", "SuperWoW_1.5.1.zip"), "v2.0");
    assert_eq!(effective_latest_label(" Release ", "tool.zip"), "Release");
    assert_eq!(version_from_asset_name("nampower_v2_3.dll"), Some("v2.3".to_string()));
    assert_eq!(label_from_found_token("latest", Some("1_2")), "1.2");
    assert_eq!(label_from_found_token("latest", None), "latest");
    assert!(is_generic_release_label("Latest build"));
    assert!(is_generic_release_label(""));
    assert!(!is_generic_release_label("v1.0"));
}

#[test]
fn asset_id_is_stable_hash_of_url() {
    let mut a = one_asset_release("v1", "x.zip", 1).assets.remove(0);
    assert_eq!(effective_asset_id(&a), "42");
    a.id = None;
    let first = effective_asset_id(&a);
    let second = effective_asset_id(&a.clone());
    assert_eq!(first, second);
    assert_eq!(first.len(), 64);
    a.download_url.push('x');
    assert_ne!(effective_asset_id(&a), first);
}

#[test]
fn cooldown_gates_requests() {
    assert_eq!(rate_limit_gate(true, false, Some(2000), 1000), CooldownGate::Blocked { reset_epoch: 2000 });
    assert_eq!(rate_limit_gate(true, false, Some(2000), 3000), CooldownGate::Proceed { clear_cooldown: true });
    assert_eq!(rate_limit_gate(true, true, Some(2000), 1000), CooldownGate::Proceed { clear_cooldown: true });
    assert_eq!(rate_limit_gate(false, false, Some(2000), 1000), CooldownGate::Proceed { clear_cooldown: false });
    let p = rate_limited_plan(&repo(InstallMode::Addon), 2000);
    assert_eq!(
        p.error.as_deref(),
        Some("GitHub API rate-limited for github.com until unix 2000. Add a GitHub token in Wuddle settings to raise limits.")
    );
    let s = plan_after_failure(&repo(InstallMode::Addon), true, "boom".to_string(), Some(-5));
    assert_eq!(s.store.set_cooldown, Some(-5));
    assert!(s.plan.unwrap().error.unwrap().contains("until unix -5."));
}

#[test]
fn end_to_end_addon_release_plan() {
    let r = repo(InstallMode::Addon);
    let rel = one_asset_release("v1.0", "sample-addon.zip", 1234);
    let plan = plan_for_release(&r, &rel, false);
    assert!(!plan.asset_url.is_empty());
    assert_eq!(plan.asset_name, "sample-addon.zip");
    assert!(plan.error.is_none());
    let (want_dll, want_addon) = zip_targets(plan.mode);
    assert!(want_addon && !want_dll);
    assert_eq!(install_route(&plan.asset_name, "sample-addon.zip", plan.mode), InstallRoute::Archive);
    let folder = addon_folder_name_from_toc("Sample", false, &vec!["Sample".to_string()]).unwrap();
    let manifest = to_manifest_path(&format!("/games/wow/Interface/AddOns/{}", folder), "/games/wow");
    assert_eq!(manifest, "Interface/AddOns/Sample");
    let mut stored = r.clone();
    record_release_install(&mut stored, &plan);
    assert_eq!(stored.installed_asset_name.as_deref(), Some("sample-addon.zip"));
    let again = plan_for_release(&stored, &rel, false);
    assert!(again.asset_url.is_empty());
    assert!(!again.repair_needed);
    let repair = plan_for_release(&stored, &rel, true);
    assert!(repair.repair_needed);
    assert_eq!(repair.asset_url, plan.asset_url);
}

#[test]
fn cached_download_is_reused() {
    assert!(!should_download(Some(10), Some(10), false, false));
    assert!(should_download(Some(9), Some(10), false, false));
    assert!(should_download(None, Some(10), false, false));
    assert!(!should_download(Some(9), None, true, true));
    assert!(should_download(Some(10), Some(10), true, false));
}

#[test]
fn not_modified_paths() {
    let mut r = repo(InstallMode::Addon);
    assert!(plan_not_modified(&r, false, false).is_none());
    r.last_version = Some("v1".to_string());
    r.installed_asset_name = Some("a.zip".to_string());
    r.installed_asset_url = Some("https://github.com/a.zip".to_string());
    let p = plan_not_modified(&r, true, false).unwrap();
    assert!(p.not_modified && p.repair_needed);
    assert_eq!(p.asset_url, "https://github.com/a.zip");
    let b = blank_plan(&r);
    assert_eq!(b.latest, "v1");
}

#[test]
fn conflicts_are_reported_with_prefix() {
    let names = vec!["Foo".to_string(), "Bar".to_string()];
    let owned = vec!["/wow/Interface/AddOns/Bar".to_string()];
    let c = addon_install_conflicts("/wow", &names, &owned, &vec![true, true]);
    assert_eq!(c, vec![("Foo".to_string(), "/wow/Interface/AddOns/Foo".to_string())]);
    let msg = format_addon_conflict_message(&c);
    assert!(msg.starts_with("ADDON_CONFLICT: "));
    assert!(msg.contains("Foo (/wow/Interface/AddOns/Foo)"));
    assert_eq!(resolve_addon_conflicts(&c, false), Err(msg));
    assert_eq!(resolve_addon_conflicts(&c, true), Ok(vec!["/wow/Interface/AddOns/Foo".to_string()]));
    assert_eq!(resolve_addon_conflicts(&vec![], false), Ok(vec![]));
}

#[test]
fn dxvk_bundle_installs_only_x32_d3d9() {
    let dlls = vec!["x64/d3d9.dll".to_string(), "x32/dxgi.dll".to_string(), "x32/d3d9.dll".to_string()];
    assert_eq!(select_dlls_for_install(dlls), vec!["x32/d3d9.dll".to_string()]);
    let plain = vec!["a.dll".to_string(), "b.dll".to_string()];
    assert_eq!(select_dlls_for_install(plain.clone()), plain);
}

#[test]
fn rate_limit_message_sets_cooldown() {
    let r = repo(InstallMode::Addon);
    let msg = "GitHub API rate-limited or forbidden (HTTP 403 Forbidden, remaining 0, reset 1700000000). x".to_string();
    let s = plan_after_fetch_error(&r, true, msg.clone());
    assert_eq!(s.store.set_cooldown, Some(1700000000));
    assert!(s.plan.unwrap().error.unwrap().contains("until unix 1700000000."));
    let s = plan_after_fetch_error(&r, false, msg.clone());
    assert_eq!(s.store.set_cooldown, None);
    assert_eq!(s.plan.unwrap().error, Some(msg));
    let s = plan_after_fetch_error(&r, true, "network down".to_string());
    assert_eq!(s.store.set_cooldown, None);
}

#[test]
fn fetch_outcomes_become_plans() {
    let r = repo(InstallMode::Addon);
    let s = plan_after_fetch(&r, true, Some("\"e1\"".to_string()), None, false, false, false);
    assert_eq!(s.store.etag.as_deref(), Some("\"e1\""));
    assert!(s.store.clear_cooldown);
    assert_eq!(s.plan.unwrap().latest, "none");
    let s = plan_after_fetch(&r, false, None, None, true, false, false);
    assert!(s.plan.is_none());
    let s = plan_after_fetch(&r, false, None, None, true, false, true);
    assert!(s.plan.unwrap().not_modified);
    let rel = one_asset_release("latest", "SuperWoW_1.5.1.zip", 10);
    let s = plan_after_fetch(&r, false, None, Some(rel), false, false, false);
    assert_eq!(s.plan.unwrap().latest, "1.5.1");
}

#[test]
fn reset_epoch_parsing() {
    assert_eq!(parse_decimal_i64("9223372036854775807"), Some(i64::MAX));
    assert_eq!(parse_decimal_i64("9223372036854775808"), None);
    assert_eq!(parse_decimal_i64("12a"), None);
    assert_eq!(parse_decimal_i64(""), None);
    let r = repo(InstallMode::Addon);
    let s = plan_after_fetch_error(&r, true, "reset 99999999999999999999 later".to_string());
    assert_eq!(s.store.set_cooldown, None);
}

#[test]
fn bundled_tool_decisions() {
    assert_eq!(bundled_tool_layout(true, true, true, false), (true, true));
    assert_eq!(bundled_tool_layout(true, true, true, true), (true, false));
    assert_eq!(bundled_tool_layout(true, false, true, false), (false, false));
    assert!(skip_bundled_patcher(true, "vfpatcher.DLL"));
    assert!(!skip_bundled_patcher(false, "VfPatcher.dll"));
}
