use deadass::updater::{
    asset_by_name, backup_name, compare, staged_name, staged_target, version_tuple, Release,
    ReleaseAsset, ReleaseStatus, UpdateCheck,
};

#[test]
fn version_tags_parse_and_compare() {
    assert_eq!(version_tuple("v0.2.0"), Some((0, 2, 0)));
    assert_eq!(version_tuple("0.2"), Some((0, 2, 0)));
    assert_eq!(version_tuple("release-1"), None);
    assert_eq!(
        compare("0.1.0", "v0.2.0"),
        Some(UpdateCheck::Available {
            version: "0.2.0".into()
        })
    );
    assert_eq!(
        compare("0.2.0", "v0.2.0"),
        Some(UpdateCheck::UpToDate {
            version: "0.2.0".into()
        })
    );
    assert_eq!(compare("nonsense", "v0.2.0"), None);
}

#[test]
fn version_tags_trim_and_ignore_extra_fields() {
    assert_eq!(version_tuple("  vv1.10.3.7 "), Some((1, 10, 3)));
    assert_eq!(version_tuple("1."), None);
    assert_eq!(version_tuple("1.x"), None);
    assert_eq!(version_tuple("1.2."), None);
    assert_eq!(
        compare("1.9.9", " v1.10.0"),
        Some(UpdateCheck::Available {
            version: "1.10.0".into()
        })
    );
}

#[test]
fn first_asset_with_the_name_is_picked() {
    let asset = |name: &str, size: u64| ReleaseAsset {
        name: String::from(name),
        browser_download_url: format!("https://example.invalid/{name}"),
        size,
    };
    let release = Release {
        tag_name: String::from("v1.0.0"),
        name: None,
        assets: vec![asset("a.dll", 1), asset("b.exe", 2), asset("a.dll", 3)],
    };
    assert_eq!(asset_by_name(&release, "a.dll").map(|a| a.size), Some(1));
    assert_eq!(asset_by_name(&release, "b.exe").map(|a| a.size), Some(2));
    assert!(asset_by_name(&release, "c").is_none());
}

#[test]
fn staging_names_follow_path_extensions() {
    assert_eq!(staged_name("deadass-desktop.exe"), "deadass-desktop.exe.update");
    assert_eq!(staged_name("deadass-offsets.toml"), "deadass-offsets.toml.update");
    assert_eq!(staged_name("companion"), "companion.bin.update");
    assert_eq!(staged_name(".hidden"), ".hidden.bin.update");
    assert_eq!(staged_name(""), "");
    assert_eq!(staged_name("."), ".");
    assert_eq!(staged_name(".."), "..");
    assert_eq!(staged_target("deadass_dll.dll.update"), Some(String::from("deadass_dll.dll")));
    assert_eq!(staged_target("notes.txt"), None);
    assert_eq!(staged_target(".update"), None);
    assert_eq!(staged_target("update"), None);
    assert_eq!(staged_target(".."), None);
    assert_eq!(backup_name("deadass_dll.dll"), "deadass_dll.dll.old");
}

#[test]
fn release_checks_update_the_offer() {
    let mut status = ReleaseStatus {
        checked: false,
        latest_version: None,
        available: Some(String::from("0.1.5")),
    };
    status.note_release("0.1.0", "garbage");
    assert!(status.checked);
    assert_eq!(status.latest_version, None);
    assert_eq!(status.available.as_deref(), Some("0.1.5"));
    status.note_release("0.1.0", " v0.2 ");
    assert_eq!(status.latest_version.as_deref(), Some("0.2.0"));
    assert_eq!(status.available.as_deref(), Some("0.2"));
    status.note_release("0.2.0", "v0.2.0");
    assert_eq!(status.latest_version.as_deref(), Some("0.2.0"));
    assert_eq!(status.available, None);
}
