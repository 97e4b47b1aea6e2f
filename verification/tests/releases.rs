use std::cmp::Ordering;
use ytdlp_ui::checksum::{
    can_parse_checksum, fallback_name, hex_text, match_digest, parse_checksum,
    verify_checksum_if_present, verify_github_digest, verify_sha256,
};
use ytdlp_ui::release::{
    fetch_release, is_ffmpeg_essentials_checksum_asset, is_ffmpeg_essentials_zip_asset,
    is_zip_asset, member, read_release_document, release_from_document, AssetDocument, HttpReply,
    JsonShape, ReleaseDocument,
};
use ytdlp_ui::updater::{
    build_component, check_for_updates, selected_update_targets, user_agent, ComponentKind,
    ComponentStatus, InstalledProgram, ReleaseReplies, UpdateSources, APP_RELEASE_ASSET,
    APP_VERSION,
};
use ytdlp_ui::version::{
    compare_versions, normalize_version, read_version_from_binary, to_semver, version_from_output,
    ProgramOutput, ReleaseVersion,
};

const ABC: &str = "ba7816bf8f01cfea414140de5dae2223b00361a396177a9cb410ff61f20015ad";

fn answer(body: &str) -> HttpReply {
    HttpReply::Answered {
        success: true,
        status: "200 OK".to_string(),
        body: Ok(body.as_bytes().to_vec()),
    }
}

fn printed(text: &str) -> Option<ProgramOutput> {
    Some(ProgramOutput {
        success: true,
        stdout: text.as_bytes().to_vec(),
    })
}

fn status(local: Option<&str>, latest: Option<&str>) -> ComponentStatus {
    build_component(
        ComponentKind::YtDlp,
        "yt-dlp",
        local.map(str::to_string),
        latest.map(str::to_string),
        None,
        None,
        None,
        None,
    )
    .status
}

#[test]
fn versions_are_read_from_texts() {
    let version = |major, minor, patch| {
        Some(ReleaseVersion {
            major,
            minor,
            patch,
        })
    };

    assert_eq!(normalize_version("  vv1.2 beta "), "1.2");
    assert_eq!(normalize_version(" v "), " v ");
    assert_eq!(to_semver("v1.2.3-rc1"), version(1, 2, 3));
    assert_eq!(to_semver("7"), version(7, 0, 0));
    assert_eq!(to_semver("1..2"), version(1, 2, 0));
    assert_eq!(to_semver("1.2.3.4"), version(1, 2, 3));
    assert_eq!(to_semver("2026.03.1"), None);
    assert_eq!(to_semver("18446744073709551616"), None);
    assert_eq!(to_semver("18446744073709551615"), version(u64::MAX, 0, 0));
    assert_eq!(to_semver("git-2026"), None);
    assert_eq!(to_semver(""), None);
}

#[test]
fn versions_are_ordered_by_their_numbers() {
    assert_eq!(compare_versions("1.9.0", "1.10.0"), Some(Ordering::Less));
    assert_eq!(compare_versions("1.10.0", "1.9.0"), Some(Ordering::Greater));
    assert_eq!(compare_versions("v1.2", "1.2.0"), Some(Ordering::Equal));
    assert_eq!(compare_versions("2.0.0", "1.99.99"), Some(Ordering::Greater));
    assert_eq!(compare_versions("1.2.3", "1.2.4"), Some(Ordering::Less));
    assert_eq!(compare_versions("1.2.3", "nightly"), None);
}

#[test]
fn a_component_is_as_new_as_its_version() {
    assert_eq!(status(None, Some("1.0")), ComponentStatus::Missing);
    assert_eq!(status(None, None), ComponentStatus::Unknown);
    assert_eq!(status(Some("1.0"), None), ComponentStatus::Unknown);
    assert_eq!(status(Some("2.0"), Some("1.0")), ComponentStatus::UpToDate);
    assert_eq!(
        status(Some("2026.03.01"), Some("2026.03.01")),
        ComponentStatus::UpToDate
    );
    assert_eq!(
        status(Some("2026.03.01"), Some("2026.03.02")),
        ComponentStatus::UpdateAvailable
    );
}

#[test]
fn programs_print_their_versions() {
    assert_eq!(
        version_from_output("ffmpeg version 7.1-essentials_build-www.gyan.dev Copyright\nbuilt"),
        "7.1"
    );
    assert_eq!(version_from_output("2026.03.01\r\n"), "2026.03.01");
    assert_eq!(version_from_output("the version"), "the version");
    assert_eq!(version_from_output(""), "?");
    assert_eq!(read_version_from_binary(None), None);
    assert_eq!(
        read_version_from_binary(Some(ProgramOutput {
            success: false,
            stdout: b"1.0".to_vec(),
        })),
        None
    );
    assert_eq!(
        read_version_from_binary(Some(ProgramOutput {
            success: true,
            stdout: vec![b'1', 0xff, b'\n'],
        })),
        Some("1\u{fffd}".to_string())
    );
}

#[test]
fn digests_are_written_in_hexadecimal() {
    assert_eq!(hex_text(&vec![0x00, 0x0f, 0xa5, 0xff]), "000fa5ff");
    assert_eq!(verify_sha256(&b"abc".to_vec(), ABC), Ok(()));
    assert_eq!(
        verify_sha256(&b"abc".to_vec(), &ABC.to_ascii_uppercase()),
        Ok(())
    );
    assert_eq!(
        verify_sha256(&b"abc".to_vec(), "00"),
        Err(format!("Checksum mismatch: expected 00, got {ABC}"))
    );
    assert_eq!(
        match_digest("aa", "BB"),
        Err("Checksum mismatch: expected bb, got aa".to_string())
    );
}

#[test]
fn a_release_digest_names_its_algorithm() {
    let content = Ok(b"abc".to_vec());

    assert_eq!(verify_github_digest(&content, &format!("sha256:{ABC}")), Ok(()));
    assert_eq!(
        verify_github_digest(&content, "md5:1"),
        Err("Неподдерживаемый GitHub digest: md5:1".to_string())
    );
    assert_eq!(
        verify_github_digest(&Err("gone".to_string()), &format!("sha256:{ABC}")),
        Err("gone".to_string())
    );
}

#[test]
fn checksum_lists_have_several_forms() {
    let upper = ABC.to_ascii_uppercase();

    assert_eq!(
        parse_checksum(&format!("{upper} *bin/YT-DLP.exe"), Some("yt-dlp.exe"), ""),
        Some(ABC.to_string())
    );
    assert_eq!(
        parse_checksum(&format!("x\n  {ABC}  a\\b.zip  \n"), None, "b.zip"),
        Some(ABC.to_string())
    );
    assert_eq!(
        parse_checksum(&format!("\n {upper}\n"), None, "b.zip"),
        Some(ABC.to_string())
    );
    assert_eq!(parse_checksum(&format!("{ABC}\n"), Some("b.zip"), "b.zip"), None);
    assert_eq!(parse_checksum("nothing", None, "b.zip"), None);
    assert_eq!(parse_checksum(&"z".repeat(70), None, "b.zip"), None);
}

#[test]
fn a_line_that_cannot_be_cut_is_told_of() {
    let cut = format!("{}я tail", "a".repeat(63));

    assert!(!can_parse_checksum(&cut, Some("a"), ""));
    assert!(can_parse_checksum(&"я".repeat(40), Some("a"), ""));
    assert!(can_parse_checksum(&format!("{ABC}  a\n{cut}"), Some("a"), ""));
    assert!(!can_parse_checksum(&format!("{ABC}  b\n{cut}"), Some("a"), ""));
}

#[test]
fn a_download_is_held_against_its_list() {
    let content = Ok(b"abc".to_vec());
    let list = |text: String| Some(Ok(text));

    assert_eq!(
        verify_checksum_if_present(&None, "x.tmp", &Err("gone".to_string()), None),
        Ok(())
    );
    assert_eq!(
        verify_checksum_if_present(&Some(Err("offline".to_string())), "x.tmp", &content, None),
        Err("offline".to_string())
    );
    assert_eq!(
        verify_checksum_if_present(&list("?".to_string()), "x.tmp", &content, None),
        Err("Не удалось извлечь checksum".to_string())
    );
    assert_eq!(
        verify_checksum_if_present(&list(format!("{ABC}  x.tmp")), r"C:\x.tmp", &content, None),
        Ok(())
    );
    assert!(verify_checksum_if_present(
        &list(format!("{}  x.tmp", "0".repeat(64))),
        r"C:\x.tmp",
        &content,
        None
    )
    .is_err());
    assert_eq!(fallback_name(r"C:\dir\x.tmp"), "x.tmp");
    assert_eq!(fallback_name(".."), "");
}

#[test]
fn files_of_a_release_are_told_apart_by_name() {
    assert!(is_zip_asset("a.ZIP"));
    assert!(!is_zip_asset("a.zip.sha256"));
    assert!(is_ffmpeg_essentials_zip_asset("ffmpeg-7.1-Essentials_build.zip"));
    assert!(is_ffmpeg_essentials_zip_asset("ffmpeg-release-essentials.zip"));
    assert!(!is_ffmpeg_essentials_zip_asset("ffmpeg-7.1-full_build.zip"));
    assert!(!is_ffmpeg_essentials_zip_asset("ffmpeg-7.1-essentials_build.7z"));
    assert!(is_ffmpeg_essentials_checksum_asset(
        "ffmpeg-7.1-essentials_build.zip.SHA256"
    ));
    assert!(!is_ffmpeg_essentials_checksum_asset("ffmpeg-7.1-essentials_build.zip"));
}

#[test]
fn a_release_document_is_read_as_json() {
    let body = r#"{
        "tag_name": "v1.2",
        "assets": [
            {"name": "a.exe", "browser_download_url": "http://a", "digest": "sha256:1"},
            {"name": "b.exe", "browser_download_url": "http://b", "digest": null},
            {"name": "c.exe"},
            {"name": 4, "browser_download_url": "http://d"},
            "e"
        ]
    }"#;
    let doc = read_release_document(&body.as_bytes().to_vec()).unwrap();
    let assets = doc.assets.as_ref().unwrap();

    assert_eq!(doc.tag_name.as_deref(), Some("v1.2"));
    assert_eq!(assets.len(), 5);
    assert_eq!(assets[0].digest.as_deref(), Some("sha256:1"));
    assert_eq!(assets[3].name, None);

    let release = release_from_document(doc).unwrap_or_else(|err| panic!("{err}"));
    assert_eq!(release.tag, "v1.2");
    assert_eq!(release.assets.len(), 2);
    assert_eq!(release.assets[0].name, "a.exe");
    assert_eq!(release.assets[0].url, "http://a");
    assert_eq!(release.assets[1].digest, None);
}

#[test]
fn a_release_document_must_have_a_tag_and_files() {
    let asset = || AssetDocument {
        name: Some("a".to_string()),
        browser_download_url: Some("u".to_string()),
        digest: None,
    };
    let no_tag = ReleaseDocument {
        tag_name: None,
        assets: None,
    };
    let no_assets = ReleaseDocument {
        tag_name: Some("v1".to_string()),
        assets: None,
    };
    let whole = ReleaseDocument {
        tag_name: Some("v1".to_string()),
        assets: Some(vec![asset()]),
    };

    assert_eq!(
        release_from_document(no_tag).err().as_deref(),
        Some("tag_name не найден")
    );
    assert_eq!(
        release_from_document(no_assets).err().as_deref(),
        Some("assets не найден")
    );
    assert!(release_from_document(whole).is_ok());
}

#[test]
fn every_way_an_answer_can_fail_is_reported() {
    let fails = |reply: HttpReply| fetch_release(&reply).err().unwrap();

    assert_eq!(fails(HttpReply::Failed("no route".to_string())), "no route");
    assert_eq!(
        fails(HttpReply::Answered {
            success: false,
            status: "404 Not Found".to_string(),
            body: Ok(Vec::new()),
        }),
        "HTTP 404 Not Found"
    );
    assert_eq!(
        fails(HttpReply::Answered {
            success: true,
            status: "200 OK".to_string(),
            body: Err("cut off".to_string()),
        }),
        "cut off"
    );
    assert_eq!(fails(answer("{")), "error decoding response body");
    assert_eq!(fails(answer("[]")), "tag_name не найден");
    assert_eq!(fails(answer(r#"{"tag_name": "v1", "assets": 3}"#)), "assets не найден");
    assert!(fetch_release(&answer(r#"{"tag_name": "v1", "assets": []}"#)).is_ok());
}

#[test]
fn a_check_for_updates_reports_every_component() {
    let app = format!(
        r#"{{"tag_name": "v9.0.0", "assets": [
            {{"name": "{}", "browser_download_url": "http://gui", "digest": "sha256:d"}}]}}"#,
        APP_RELEASE_ASSET.to_ascii_uppercase()
    );
    let yt_dlp = r#"{"tag_name": "2026.3.1", "assets": [
        {"name": "SHA2-256SUMS", "browser_download_url": "http://sums"},
        {"name": "yt-dlp.exe", "browser_download_url": "http://yt"}]}"#;
    let ffmpeg = r#"{"tag_name": "7.1", "assets": [
        {"name": "ffmpeg-7.1-essentials_build.zip.sha256", "browser_download_url": "http://ffsum"},
        {"name": "ffmpeg-7.1-essentials_build.zip", "browser_download_url": "http://ff"}]}"#;
    let report = check_for_updates(UpdateSources {
        replies: Ok(ReleaseReplies {
            app: answer(&app),
            yt_dlp: answer(yt_dlp),
            ffmpeg: answer(ffmpeg),
        }),
        yt_dlp: printed("2026.3.1\n"),
        ffmpeg: printed("ffmpeg version 7.0-essentials\n"),
        ffprobe: None,
    });

    assert!(report.warnings.is_empty());
    let kinds: Vec<_> = report.components.iter().map(|c| c.kind).collect();
    assert_eq!(
        kinds,
        vec![
            ComponentKind::YtDlpGui,
            ComponentKind::YtDlp,
            ComponentKind::Ffmpeg,
            ComponentKind::Ffprobe,
        ]
    );
    let states: Vec<_> = report.components.iter().map(|c| c.status).collect();
    assert_eq!(
        states,
        vec![
            ComponentStatus::UpdateAvailable,
            ComponentStatus::UpToDate,
            ComponentStatus::UpdateAvailable,
            ComponentStatus::Missing,
        ]
    );
    let gui = &report.components[0];
    assert_eq!(gui.local_version.as_deref(), Some(APP_VERSION));
    assert_eq!(gui.digest.as_deref(), Some("sha256:d"));
    assert_eq!(gui.checksum_url, None);
    let yt = &report.components[1];
    assert_eq!(yt.download_url.as_deref(), Some("http://yt"));
    assert_eq!(yt.checksum_url.as_deref(), Some("http://sums"));
    assert_eq!(yt.digest, None);
    let ff = &report.components[2];
    assert_eq!(ff.local_version.as_deref(), Some("7.0"));
    assert_eq!(ff.asset_name.as_deref(), Some("ffmpeg-7.1-essentials_build.zip"));
    assert_eq!(ff.checksum_url.as_deref(), Some("http://ffsum"));
    assert_eq!(report.components[3].download_url.as_deref(), Some("http://ff"));
}

#[test]
fn a_check_for_updates_warns_of_what_it_could_not_learn() {
    let offline = check_for_updates(UpdateSources {
        replies: Err("no TLS".to_string()),
        yt_dlp: None,
        ffmpeg: None,
        ffprobe: None,
    });
    assert_eq!(
        offline.warnings,
        vec![">>> Не удалось создать HTTP-клиент для проверки обновлений: no TLS"]
    );
    assert_eq!(offline.components.len(), 4);
    assert!(offline
        .components
        .iter()
        .all(|component| component.status == ComponentStatus::Unknown));

    let failed = || HttpReply::Failed("down".to_string());
    let partly = check_for_updates(UpdateSources {
        replies: Ok(ReleaseReplies {
            app: failed(),
            yt_dlp: answer(r#"{"tag_name": "1", "assets": []}"#),
            ffmpeg: failed(),
        }),
        yt_dlp: None,
        ffmpeg: None,
        ffprobe: None,
    });
    assert_eq!(
        partly.warnings,
        vec![
            ">>> Не удалось получить релиз yt-dlp GUI: down",
            ">>> Не удалось получить релиз ffmpeg: down",
        ]
    );
    assert_eq!(partly.components[1].status, ComponentStatus::Missing);
    assert_eq!(partly.components[1].download_url, None);
}

#[test]
fn an_ffmpeg_component_with_an_address_is_preferred() {
    let mut with_url = build_component(
        ComponentKind::Ffprobe,
        "ffprobe",
        None,
        Some("7".to_string()),
        None,
        Some("http://ff".to_string()),
        None,
        None,
    );
    with_url.status = ComponentStatus::Missing;
    let without_url = build_component(
        ComponentKind::Ffmpeg,
        "ffmpeg",
        None,
        Some("7".to_string()),
        None,
        None,
        None,
        None,
    );

    let targets = selected_update_targets(
        &[without_url.clone(), with_url],
        &[ComponentKind::Ffmpeg],
    );
    assert_eq!(targets.len(), 1);
    assert_eq!(targets[0].kind, ComponentKind::Ffmpeg);
    assert_eq!(targets[0].title, "ffmpeg");
    assert_eq!(targets[0].download_url.as_deref(), Some("http://ff"));

    assert!(selected_update_targets(&[without_url], &[]).is_empty());
    assert!(selected_update_targets(&[], &[ComponentKind::Ffmpeg]).is_empty());
}

#[test]
fn programs_stand_beside_this_one() {
    assert_eq!(InstalledProgram::YtDlp.path(r"C:\Apps"), r"C:\Apps\yt-dlp.exe");
    assert_eq!(InstalledProgram::Ffprobe.path("d"), r"d\ffprobe.exe");
    assert_eq!(InstalledProgram::YtDlp.version_argument(), "--version");
    assert_eq!(InstalledProgram::Ffmpeg.version_argument(), "-version");
    assert_eq!(user_agent(), "ytdlp-ui/0.1.0");
}

#[test]
fn only_objects_have_members() {
    let object = Some(JsonShape::Object(vec![
        ("name".to_string(), b"1".to_vec()),
        ("tag".to_string(), b"2".to_vec()),
    ]));
    assert_eq!(member(&object, "tag"), Some(&b"2".to_vec()));
    assert_eq!(member(&object, "Tag"), None);
    assert_eq!(member(&Some(JsonShape::Text("tag".to_string())), "tag"), None);
    assert_eq!(member(&Some(JsonShape::List(vec![b"2".to_vec()])), "tag"), None);
    assert_eq!(member(&Some(JsonShape::Other), "tag"), None);
    assert_eq!(member(&None, "tag"), None);
}
