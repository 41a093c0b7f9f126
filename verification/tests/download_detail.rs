use epic_asset_manager::download_detail::{DownloadDetailsProperty, EpicDownloadDetails};
use epic_asset_manager::release::{format_utc_day, AssetInfo, ReleaseDate, ReleaseInfo};

fn date(seconds: i64, nanos: u32, day: &str) -> Option<ReleaseDate> {
    let d = ReleaseDate::new(seconds, nanos).unwrap();
    assert_eq!(d.day(), day);
    Some(d)
}

fn release(id: &str, title: Option<&str>, app: Option<&str>, added: Option<ReleaseDate>) -> ReleaseInfo {
    ReleaseInfo {
        id: Some(id.to_string()),
        app_id: app.map(|s| s.to_string()),
        compatible_apps: None,
        platform: None,
        date_added: added,
        release_note: None,
        version_title: title.map(|s| s.to_string()),
    }
}

fn strings(v: &[&str]) -> Vec<String> {
    v.iter().map(|s| s.to_string()).collect()
}

#[test]
fn sorted_releases_newest_first() {
    let asset = AssetInfo {
        release_info: Some(vec![
            release("old", None, Some("a"), date(100, 0, "1970-01-01")),
            release("new", None, Some("b"), date(300, 0, "1970-01-01")),
            release("mid", None, Some("c"), date(200, 0, "1970-01-01")),
        ]),
    };
    let sorted = asset.sorted_releases().unwrap();
    let ids: Vec<&str> = sorted.iter().map(|r| r.id.as_deref().unwrap()).collect();
    assert_eq!(ids, vec!["new", "mid", "old"]);
}

#[test]
fn sorted_releases_ties_and_missing_dates() {
    let asset = AssetInfo {
        release_info: Some(vec![
            release("undated", None, None, None),
            release("first", None, None, date(50, 5, "1970-01-01")),
            release("second", None, None, date(50, 5, "1970-01-01")),
            release("later-nanos", None, None, date(50, 6, "1970-01-01")),
        ]),
    };
    let sorted = asset.sorted_releases().unwrap();
    let ids: Vec<&str> = sorted.iter().map(|r| r.id.as_deref().unwrap()).collect();
    assert_eq!(ids, vec!["later-nanos", "second", "first", "undated"]);
}

#[test]
fn sorted_releases_none_without_list() {
    let asset = AssetInfo { release_info: None };
    assert!(asset.sorted_releases().is_none());
    assert!(asset.release_info("x").is_none());
}

#[test]
fn release_info_finds_first_by_id() {
    let mut nameless = release("", Some("nameless"), None, None);
    nameless.id = None;
    let asset = AssetInfo {
        release_info: Some(vec![
            release("r1", Some("one"), None, None),
            release("r2", Some("two"), None, None),
            release("r2", Some("three"), None, None),
            nameless,
        ]),
    };
    assert_eq!(asset.release_info("r2").unwrap().version_title.as_deref(), Some("two"));
    assert_eq!(asset.release_info("").unwrap().version_title.as_deref(), Some("nameless"));
    assert!(asset.release_info("r3").is_none());
}

#[test]
fn set_asset_lists_versions_and_shows_latest() {
    let mut newest = release("id-new", Some(""), Some("App_5_1"), date(1682899200, 0, "2023-05-01"));
    newest.compatible_apps = Some(strings(&["UE_5.0", "UE_5.1"]));
    newest.platform = Some(strings(&["Windows", "Mac"]));
    newest.release_note = Some("Fixed things".to_string());
    let older = release("id-old", Some("Version 1"), Some("App_4"), date(1640995200, 0, "2022-01-01"));
    let asset = AssetInfo { release_info: Some(vec![older, newest]) };

    let mut details = EpicDownloadDetails::new();
    details.set_asset(asset);
    let versions = details.versions();
    assert_eq!(versions.len(), 2);
    assert_eq!(versions[0].id, "id-new");
    assert_eq!(versions[0].label, "App_5_1 (latest)");
    assert_eq!(versions[1].id, "id-old");
    assert_eq!(versions[1].label, "Version 1");
    assert_eq!(details.active(), Some(0));
    assert_eq!(details.property(DownloadDetailsProperty::SupportedVersions), Some("5.0, 5.1".to_string()));
    assert_eq!(details.property(DownloadDetailsProperty::Platforms), Some("Windows, Mac".to_string()));
    assert_eq!(details.property(DownloadDetailsProperty::ReleaseDate), Some("2023-05-01".to_string()));
    assert_eq!(details.property(DownloadDetailsProperty::ReleaseNotes), Some("Fixed things".to_string()));
    assert_eq!(details.rows_visible(), (true, true, true, true));
}

#[test]
fn selecting_a_version_hides_missing_details() {
    let mut newest = release("a", Some("A"), None, date(1682899200, 0, "2023-05-01"));
    newest.compatible_apps = Some(strings(&["UE_5.1"]));
    newest.platform = Some(strings(&["Windows"]));
    newest.release_note = Some("notes".to_string());
    let mut older = release("b", Some("B"), None, None);
    older.release_note = Some(String::new());
    let asset = AssetInfo { release_info: Some(vec![newest, older]) };

    let mut details = EpicDownloadDetails::new();
    details.set_asset(asset);
    details.select_version(1);
    assert_eq!(details.active(), Some(1));
    assert_eq!(details.rows_visible(), (false, false, false, false));
    // hidden details keep their last text
    assert_eq!(details.property(DownloadDetailsProperty::SupportedVersions), Some("5.1".to_string()));
    assert_eq!(details.property(DownloadDetailsProperty::ReleaseNotes), Some("notes".to_string()));
    details.select_version(0);
    assert_eq!(details.rows_visible(), (true, true, true, true));
}

#[test]
fn supported_versions_remove_every_ue_prefix() {
    let mut r = release("a", Some("A"), None, None);
    r.compatible_apps = Some(strings(&["UE_4.27", "UE_UE_5", "5.2UE_", "UEx"]));
    let mut details = EpicDownloadDetails::new();
    details.set_asset(AssetInfo { release_info: Some(vec![r]) });
    assert_eq!(
        details.property(DownloadDetailsProperty::SupportedVersions),
        Some("4.27, 5, 5.2, UEx".to_string())
    );
    assert_eq!(details.versions()[0].label, "A (latest)");
}

#[test]
fn empty_release_list_picks_nothing() {
    let mut details = EpicDownloadDetails::new();
    details.set_asset(AssetInfo { release_info: Some(vec![]) });
    assert_eq!(details.versions().len(), 0);
    assert_eq!(details.active(), None);
    details.set_asset(AssetInfo { release_info: None });
    assert_eq!(details.active(), None);
    assert_eq!(details.rows_visible(), (true, true, true, true));
    details.version_selected();
    assert_eq!(details.property(DownloadDetailsProperty::Platforms), None);
}

#[test]
fn toggle_details_twice_restores() {
    let mut details = EpicDownloadDetails::new();
    assert!(!details.details_revealed());
    let shown = details.toggle_details();
    assert!(details.details_revealed());
    assert_eq!(shown.icon_name, "go-up-symbolic");
    assert_eq!(shown.tooltip, "Hide details");
    let hidden = details.toggle_details();
    assert!(!details.details_revealed());
    assert_eq!(hidden.icon_name, "go-down-symbolic");
    assert_eq!(hidden.tooltip, "Show details");
}

#[test]
fn details_property_names_and_writes() {
    assert_eq!(
        DownloadDetailsProperty::from_name("supported-versions"),
        Some(DownloadDetailsProperty::SupportedVersions)
    );
    assert_eq!(DownloadDetailsProperty::from_name("release-notes"), Some(DownloadDetailsProperty::ReleaseNotes));
    assert_eq!(DownloadDetailsProperty::from_name("release_notes"), None);
    assert_eq!(DownloadDetailsProperty::ReleaseDate.name(), "release-date");
    let mut details = EpicDownloadDetails::new();
    details.set_property(DownloadDetailsProperty::Platforms, Some("Linux".to_string()));
    assert_eq!(details.property(DownloadDetailsProperty::Platforms), Some("Linux".to_string()));
    assert_eq!(details.property(DownloadDetailsProperty::ReleaseDate), None);
}

#[test]
fn release_day_follows_chrono() {
    assert_eq!(format_utc_day(0, 0), Some("1970-01-01".to_string()));
    assert_eq!(format_utc_day(-1, 0), Some("1969-12-31".to_string()));
    assert_eq!(format_utc_day(1682985599, 999_999_999), Some("2023-05-01".to_string()));
    assert_eq!(format_utc_day(59, 1_500_000_000), Some("1970-01-01".to_string()));
    assert_eq!(format_utc_day(0, 1_500_000_000), None);
    assert_eq!(format_utc_day(i64::MAX, 0), None);
    assert!(ReleaseDate::new(0, 2_000_000_000).is_none());
    let d = ReleaseDate::new(1682899200, 7).unwrap();
    assert_eq!((d.seconds(), d.nanos()), (1682899200, 7));
    assert_eq!(d.clone(), d);
}
