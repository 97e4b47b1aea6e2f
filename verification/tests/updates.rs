use ytdlp_ui::checksum::{parse_checksum, parse_github_sha256, verify_github_digest};
use ytdlp_ui::paths::staged_app_path;
use ytdlp_ui::updater::{
    build_component, selected_update_targets, ComponentInfo, ComponentKind, ComponentStatus,
    APP_RELEASE_ASSET,
};

fn update_component(kind: ComponentKind, title: &str) -> ComponentInfo {
    ComponentInfo {
        kind,
        title: title.to_string(),
        local_version: Some("1.0.0".to_string()),
        latest_version: Some("2.0.0".to_string()),
        status: ComponentStatus::UpdateAvailable,
        asset_name: Some("asset".to_string()),
        download_url: Some("https://example.com/asset".to_string()),
        checksum_url: None,
        digest: None,
    }
}

#[test]
fn selected_updates_bundle_ffmpeg_and_keep_gui_last() {
    let candidates = vec![
        update_component(ComponentKind::YtDlpGui, "yt-dlp GUI"),
        update_component(ComponentKind::YtDlp, "yt-dlp"),
        update_component(ComponentKind::Ffmpeg, "ffmpeg"),
        update_component(ComponentKind::Ffprobe, "ffprobe"),
    ];
    let selected = [
        ComponentKind::YtDlpGui,
        ComponentKind::YtDlp,
        ComponentKind::Ffmpeg,
        ComponentKind::Ffprobe,
    ];
    let targets = selected_update_targets(&candidates, &selected);

    assert_eq!(
        targets
            .iter()
            .map(|component| component.kind)
            .collect::<Vec<_>>(),
        vec![
            ComponentKind::YtDlp,
            ComponentKind::FfmpegBundle,
            ComponentKind::YtDlpGui,
        ]
    );
}

#[test]
fn selected_updates_can_install_only_ffprobe() {
    let candidates = vec![
        update_component(ComponentKind::Ffmpeg, "ffmpeg"),
        update_component(ComponentKind::Ffprobe, "ffprobe"),
    ];
    let targets = selected_update_targets(&candidates, &[ComponentKind::Ffprobe]);

    assert_eq!(targets.len(), 1);
    assert_eq!(targets[0].kind, ComponentKind::Ffprobe);
    assert_eq!(targets[0].title, "ffprobe");
}

#[test]
fn checksum_requires_the_requested_release_asset() {
    let wrong_hash = "a".repeat(64);
    let expected_hash = "B".repeat(64);
    let manifest = format!("{wrong_hash}  other.exe\n{expected_hash}  {APP_RELEASE_ASSET}\n");

    assert_eq!(
        parse_checksum(&manifest, Some(APP_RELEASE_ASSET), "ignored.tmp"),
        Some(expected_hash.to_ascii_lowercase())
    );
    assert_eq!(
        parse_checksum(&manifest, Some("missing.exe"), "ignored.tmp"),
        None
    );
}

#[test]
fn github_digest_requires_a_sha256_value() {
    let hash = "a".repeat(64);

    assert_eq!(
        parse_github_sha256(&format!("sha256:{hash}")),
        Some(hash.as_str())
    );
    assert_eq!(parse_github_sha256(&hash), None);
    assert_eq!(parse_github_sha256("sha512:abc"), None);
    assert_eq!(parse_github_sha256("sha256:not-a-hash"), None);
}

#[test]
fn github_digest_verifies_the_downloaded_file() {
    let content = Ok(Vec::new());

    assert!(verify_github_digest(
        &content,
        "sha256:e3b0c44298fc1c149afbf4c8996fb92427ae41e4649b934ca495991b7852b855"
    )
    .is_ok());
    assert!(verify_github_digest(
        &content,
        "sha256:aaaaaaaaaaaaaaaaaaaaaaaaaaaaaaaaaaaaaaaaaaaaaaaaaaaaaaaaaaaaaaaa"
    )
    .is_err());
}

#[test]
fn gui_release_tags_are_compared_with_the_cargo_version() {
    let current = build_component(
        ComponentKind::YtDlpGui,
        "yt-dlp GUI",
        Some("0.1.0".to_string()),
        Some("v0.1.0".to_string()),
        None,
        None,
        None,
        None,
    );
    let newer = build_component(
        ComponentKind::YtDlpGui,
        "yt-dlp GUI",
        Some("0.1.0".to_string()),
        Some("v0.2.0".to_string()),
        None,
        None,
        None,
        None,
    );

    assert_eq!(current.status, ComponentStatus::UpToDate);
    assert_eq!(newer.status, ComponentStatus::UpdateAvailable);
}

#[test]
fn staged_update_stays_next_to_the_running_executable() {
    assert_eq!(
        staged_app_path(r"C:\Apps\ytdlp-ui.exe"),
        Ok(r"C:\Apps\ytdlp-ui.update.exe".to_string())
    );
}
