use wuddle_engine::digest::{hex_encode, parse_sha256_digest, sha256_hex, sha256_hex_bytes, verify_asset_digest};
use wuddle_engine::model::{InstallMode, LatestRelease, ReleaseAsset};
use wuddle_engine::policy::{
    asset_extension, host_matches_or_subdomain, is_asset_allowed, is_blocked_extension, looks_like_dll_bytes,
    looks_like_zip_bytes, pick_asset, validate_asset_url, validate_downloaded_asset, AssetUrlError, DownloadError,
    PickError,
};

fn asset(name: &str) -> ReleaseAsset {
    ReleaseAsset {
        id: None,
        name: name.to_string(),
        download_url: format!("https://github.com/o/r/releases/download/v1/{}", name),
        size: None,
        content_type: None,
        sha256: None,
    }
}

fn release(names: &[&str]) -> LatestRelease {
    LatestRelease { tag: "v1".to_string(), name: None, assets: names.iter().map(|n| asset(n)).collect() }
}

const ALL: [InstallMode; 6] =
    [InstallMode::Auto, InstallMode::Addon, InstallMode::AddonGit, InstallMode::Dll, InstallMode::Mixed, InstallMode::Raw];

#[test]
fn exe_is_never_allowed() {
    for m in ALL {
        assert!(!is_asset_allowed(&asset("setup.exe"), m));
        assert!(!is_asset_allowed(&asset("Setup.EXE"), m));
    }
}

#[test]
fn zip_allowed_in_release_modes() {
    for m in [InstallMode::Addon, InstallMode::Mixed, InstallMode::Dll, InstallMode::Auto, InstallMode::Raw] {
        assert!(is_asset_allowed(&asset("addon.zip"), m));
    }
    assert!(!is_asset_allowed(&asset("addon.zip"), InstallMode::AddonGit));
}

#[test]
fn extensionless_only_in_raw() {
    for m in ALL {
        assert_eq!(is_asset_allowed(&asset("README"), m), m == InstallMode::Raw);
    }
}

#[test]
fn extension_rules() {
    assert_eq!(asset_extension("Foo.ZIP"), Some("zip".to_string()));
    assert_eq!(asset_extension(".zip"), None);
    assert_eq!(asset_extension("noext"), None);
    assert_eq!(asset_extension("a.tar.gz"), Some("gz".to_string()));
    assert!(is_blocked_extension("ps1"));
    assert!(!is_blocked_extension("zip"));
}

#[test]
fn pick_prefers_pattern_then_zip() {
    let rel = release(&["tool.dll", "addon.zip", "addon-extra.zip"]);
    assert_eq!(pick_asset(&rel, InstallMode::Addon, None).unwrap().name, "addon.zip");
    assert_eq!(pick_asset(&rel, InstallMode::Addon, Some("extra")).unwrap().name, "addon-extra.zip");
    assert_eq!(pick_asset(&rel, InstallMode::Dll, None).unwrap().name, "tool.dll");
    assert_eq!(pick_asset(&rel, InstallMode::Auto, None).unwrap().name, "addon.zip");
}

#[test]
fn pick_bundled_tool_avoids_dxvk_variant() {
    let rel = release(&["VanillaFixes-1.0-dxvk.zip", "VanillaFixes-1.0.zip"]);
    assert_eq!(pick_asset(&rel, InstallMode::Auto, None).unwrap().name, "VanillaFixes-1.0.zip");
}

#[test]
fn pick_errors() {
    assert_eq!(pick_asset(&release(&[]), InstallMode::Addon, None).unwrap_err(), PickError::NoAssets);
    assert_eq!(pick_asset(&release(&["a.exe"]), InstallMode::Raw, None).unwrap_err(), PickError::NoCompatible);
    assert_eq!(pick_asset(&release(&["a.zip"]), InstallMode::Addon, Some("(")).unwrap_err(), PickError::InvalidPattern);
}

#[test]
fn host_trust() {
    assert!(host_matches_or_subdomain("GitHub.com", "github.com"));
    assert!(host_matches_or_subdomain("objects.github.com", "github.com"));
    assert!(!host_matches_or_subdomain("evilgithub.com", "github.com"));
    assert_eq!(validate_asset_url("https://objects.githubusercontent.com/x", "github", "github.com"), Ok(()));
    assert_eq!(validate_asset_url("http://github.com/x", "github", "github.com"), Err(AssetUrlError::NotHttps));
    assert_eq!(validate_asset_url("https://evil.example/x", "github", "github.com"), Err(AssetUrlError::UntrustedHost));
    assert_eq!(
        validate_asset_url("https://objects.githubusercontent.com/x", "gitea", "codeberg.org"),
        Err(AssetUrlError::UntrustedHost)
    );
    assert_eq!(validate_asset_url("not a url", "github", "github.com"), Err(AssetUrlError::Invalid));
}

#[test]
fn downloaded_bytes_checks() {
    assert!(looks_like_zip_bytes(b"PK\x03\x04rest"));
    assert!(looks_like_zip_bytes(b"PK\x05\x06"));
    assert!(!looks_like_zip_bytes(b"PK\x01\x02"));
    assert!(looks_like_dll_bytes(b"MZ\x90\x00"));
    assert_eq!(validate_downloaded_asset("a.zip", Some(10), 9, b"PK\x03\x04"), Err(DownloadError::SizeMismatch));
    assert_eq!(validate_downloaded_asset("a.ZIP", Some(10), 10, b"MZ\x00\x00"), Err(DownloadError::BadZipSignature));
    assert_eq!(validate_downloaded_asset("a.dll", None, 10, b"PK\x03\x04"), Err(DownloadError::BadDllSignature));
    assert_eq!(validate_downloaded_asset("a.dll", None, 10, b"MZ\x00\x00"), Ok(()));
    assert_eq!(validate_downloaded_asset("a.txt", None, 10, b""), Ok(()));
}

#[test]
fn digests() {
    assert_eq!(hex_encode(&[0x00, 0xab, 0x10]), "00ab10");
    assert_eq!(sha256_hex(""), "e3b0c44298fc1c149afbf4c8996fb92427ae41e4649b934ca495991b7852b855");
    assert_eq!(sha256_hex_bytes(b"abc"), "ba7816bf8f01cfea414140de5dae2223b00361a396177a9cb410ff61f20015ad");
    let hex = "BA7816BF8F01CFEA414140DE5DAE2223B00361A396177A9CB410FF61F20015AD";
    assert_eq!(
        parse_sha256_digest(Some(&format!("sha256:{}", hex))),
        Some("ba7816bf8f01cfea414140de5dae2223b00361a396177a9cb410ff61f20015ad".to_string())
    );
    assert_eq!(parse_sha256_digest(Some("sha256:abc")), None);
    assert_eq!(parse_sha256_digest(Some("  ")), None);
    assert_eq!(parse_sha256_digest(None), None);
    assert!(verify_asset_digest(None, "ff"));
    assert!(verify_asset_digest(Some(" FF "), "ff"));
    assert!(!verify_asset_digest(Some("ee"), "ff"));
}

#[test]
fn pick_bundled_tool_prefers_its_own_family() {
    let rel = release(&["Readme-tools.zip", "VanillaFixes-1.0-dxvk.zip", "VanillaFixes-1.0.zip"]);
    assert_eq!(pick_asset(&rel, InstallMode::Mixed, None).unwrap().name, "VanillaFixes-1.0.zip");
    let rel = release(&["Other-dxvk.zip", "VanillaFixes-1.0-dxvk.zip"]);
    assert_eq!(pick_asset(&rel, InstallMode::Addon, None).unwrap().name, "Other-dxvk.zip");
}
