use ytdlp_ui::config::AppConfig;
use ytdlp_ui::profile::{
    builtin_profile_by_id, AudioFormat, DownloadKind, DownloadProfile, FileNameTemplate,
    AUDIO_MP3_PROFILE_ID, MP4_1080_PROFILE_ID, NO_SPONSORS_PROFILE_ID, RAW_PROFILE_ID,
};
use ytdlp_ui::stored::StoredConfig;
use ytdlp_ui::theme::ThemeMode;

#[test]
fn default_config_uses_raw_profile_without_yt_dlp_args() {
    let cfg = AppConfig::default();

    assert_eq!(cfg.active_profile_id, RAW_PROFILE_ID);
    assert_eq!(cfg.theme_mode, ThemeMode::System);
    assert!(cfg
        .active_profile()
        .to_yt_dlp_args("download-archive.txt")
        .is_empty());
}

#[test]
fn migrates_legacy_yt_dlp_args_to_custom_profile() {
    let mut cfg = StoredConfig {
        output_path: Some("Video".to_string()),
        theme_mode: None,
        active_profile_id: None,
        custom_profiles: None,
        yt_dlp_args: Some(vec![
            "--sponsorblock-remove sponsor,selfpromo".to_string(),
            "--merge-output-format mp4".to_string(),
        ]),
    }
    .restore();

    let (changed, messages) = cfg.normalize_after_load(".");
    let args = cfg.active_profile().to_yt_dlp_args("download-archive.txt");
    let stored = StoredConfig::of(&cfg);

    assert!(changed);
    assert_eq!(cfg.theme_mode, ThemeMode::System);
    assert_eq!(cfg.custom_profiles.len(), 1);
    assert_eq!(cfg.custom_profiles[0].name, "Старые настройки");
    assert_eq!(
        args,
        vec![
            "--sponsorblock-remove",
            "sponsor,selfpromo",
            "--merge-output-format",
            "mp4"
        ]
    );
    assert!(stored.yt_dlp_args.is_none());
    assert!(cfg.legacy_yt_dlp_args.is_empty());
    assert_eq!(
        messages,
        vec![">>> Старые параметры yt-dlp перенесены в профиль \"Старые настройки\""]
    );
}

#[test]
fn preset_mp4_1080_builds_expected_args() {
    let profile = builtin_profile_by_id(MP4_1080_PROFILE_ID).unwrap();

    assert_eq!(
        profile.to_yt_dlp_args("download-archive.txt"),
        vec![
            "-S",
            "res:1080",
            "--merge-output-format",
            "mp4",
            "--remux-video",
            "mp4"
        ]
    );
}

#[test]
fn preset_sponsorblock_remove_builds_expected_args() {
    let profile = builtin_profile_by_id(NO_SPONSORS_PROFILE_ID).unwrap();

    assert_eq!(
        profile.to_yt_dlp_args("download-archive.txt"),
        vec![
            "-S",
            "res:1080",
            "--merge-output-format",
            "mp4",
            "--remux-video",
            "mp4",
            "--sponsorblock-remove",
            "sponsor,selfpromo"
        ]
    );
}

#[test]
fn preset_audio_mp3_builds_expected_args() {
    let profile = builtin_profile_by_id(AUDIO_MP3_PROFILE_ID).unwrap();

    assert_eq!(
        profile.to_yt_dlp_args("download-archive.txt"),
        vec!["-x", "--audio-format", "mp3"]
    );
}

#[test]
fn video_profile_uses_title_output_template() {
    let profile = builtin_profile_by_id(MP4_1080_PROFILE_ID).unwrap();

    assert_eq!(
        profile.output_template(r"C:\Music\"),
        r"C:\Music/%(title)s.%(ext)s"
    );
}

#[test]
fn audio_profile_uses_title_output_template_by_default() {
    let profile = builtin_profile_by_id(AUDIO_MP3_PROFILE_ID).unwrap();

    assert_eq!(
        profile.output_template(r"C:\Music\"),
        r"C:\Music/%(title)s.%(ext)s"
    );
}

#[test]
fn audio_profile_can_use_artist_track_output_template() {
    let mut profile = builtin_profile_by_id(AUDIO_MP3_PROFILE_ID).unwrap();
    profile.file_name_template = FileNameTemplate::ArtistTrack;

    assert_eq!(
        profile.output_template(r"C:\Music\"),
        r"C:\Music/%(artist,uploader|Unknown Artist)s - %(track,title)s.%(ext)s"
    );
}

#[test]
fn extra_args_are_preserved_as_single_arguments() {
    let mut profile = DownloadProfile::custom_default("custom-test", "Custom");
    profile.kind = DownloadKind::AudioOnly;
    profile.audio_format = AudioFormat::Best;
    profile.extra_args = vec![
        "--cookies-from-browser".to_string(),
        "firefox:default profile".to_string(),
        "  ".to_string(),
    ];

    assert_eq!(
        profile.to_yt_dlp_args("download-archive.txt"),
        vec!["-x", "--cookies-from-browser", "firefox:default profile"]
    );
}
