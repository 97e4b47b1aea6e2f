use ytdlp_ui::config::{AppConfig, ConfigSource, LEGACY_PROFILE_ID};
use ytdlp_ui::profile::{
    builtin_profiles, AudioFormat, ContainerFormat, DownloadKind, DownloadProfile, PlaylistMode,
    SponsorBlockMode, SubtitleMode, VideoResolution, RAW_PROFILE_ID,
};
use ytdlp_ui::stored::{StoredConfig, StoredProfile};
use ytdlp_ui::theme::ThemeMode;

fn custom(id: &str) -> DownloadProfile {
    DownloadProfile::custom_default(id, id)
}

#[test]
fn every_switch_of_a_profile_has_its_argument() {
    let mut profile = custom("custom-1");
    profile.video_resolution = VideoResolution::P360;
    profile.container = ContainerFormat::Webm;
    profile.sponsorblock = SponsorBlockMode::Mark;
    profile.sponsorblock_categories = vec![" intro ".to_string(), " ".to_string()];
    profile.subtitles = SubtitleMode::Auto;
    profile.subtitle_langs = " ru ".to_string();
    profile.embed_metadata = true;
    profile.embed_thumbnail = true;
    profile.embed_chapters = true;
    profile.playlist_mode = PlaylistMode::Playlist;
    profile.use_download_archive = true;
    profile.extra_args = vec![" --x y ".to_string()];

    assert_eq!(
        profile.to_yt_dlp_args("a.txt"),
        vec![
            "-S",
            "res:360",
            "--merge-output-format",
            "webm",
            "--remux-video",
            "webm",
            "--sponsorblock-mark",
            "intro",
            "--write-auto-subs",
            "--sub-langs",
            "ru",
            "--embed-metadata",
            "--embed-thumbnail",
            "--embed-chapters",
            "--yes-playlist",
            "--download-archive",
            "a.txt",
            "--x y",
        ]
    );
}

#[test]
fn blank_values_fall_back() {
    let mut profile = custom("custom-1");
    profile.kind = DownloadKind::AudioOnly;
    profile.audio_format = AudioFormat::Flac;
    profile.sponsorblock = SponsorBlockMode::Remove;
    profile.sponsorblock_categories = Vec::new();
    profile.subtitles = SubtitleMode::Manual;
    profile.subtitle_langs = "  ".to_string();
    profile.playlist_mode = PlaylistMode::SingleVideo;

    assert_eq!(
        profile.to_yt_dlp_args("a.txt"),
        vec![
            "-x",
            "--audio-format",
            "flac",
            "--sponsorblock-remove",
            "sponsor,selfpromo",
            "--write-subs",
            "--no-playlist",
        ]
    );
}

#[test]
fn a_separator_at_the_end_of_the_folder_makes_no_difference() {
    let profile = custom("custom-1");

    assert_eq!(profile.output_template("C:/x"), "C:/x/%(title)s.%(ext)s");
    assert_eq!(profile.output_template(r"C:/x\/"), "C:/x/%(title)s.%(ext)s");
}

#[test]
fn choosing_a_category_twice_changes_nothing_more() {
    let mut profile = custom("custom-1");

    profile.set_sponsorblock_category("intro", true);
    profile.set_sponsorblock_category("intro", true);
    assert_eq!(
        profile.sponsorblock_categories,
        vec!["sponsor", "selfpromo", "intro"]
    );
    assert!(profile.has_category("intro"));

    profile.set_sponsorblock_category("sponsor", false);
    profile.set_sponsorblock_category("sponsor", false);
    assert_eq!(profile.sponsorblock_categories, vec!["selfpromo", "intro"]);
    assert!(!profile.has_category("sponsor"));
}

#[test]
fn additional_arguments_keep_through_the_input_field() {
    let mut profile = custom("custom-1");

    profile.set_extra_args_text("  --a b \n\n\t\r\n--c\r\n");
    assert_eq!(profile.extra_args, vec!["--a b", "--c"]);
    assert_eq!(profile.extra_args_text(), "--a b\n--c");

    let text = profile.extra_args_text();
    profile.set_extra_args_text(&text);
    assert_eq!(profile.extra_args, vec!["--a b", "--c"]);
}

#[test]
fn the_first_built_in_profile_changes_nothing() {
    let profiles = builtin_profiles();

    assert_eq!(profiles.len(), 6);
    assert_eq!(profiles[0].id, RAW_PROFILE_ID);
    assert_eq!(profiles[0].name, "Обычное видео");
    assert!(profiles[0].to_yt_dlp_args("a.txt").is_empty());
}

#[test]
fn settings_without_a_folder_get_one() {
    let mut config = AppConfig::default();
    config.output_path = "  ".to_string();

    let (changed, messages) = config.normalize_after_load(r"C:\Apps");

    assert!(changed);
    assert!(messages.is_empty());
    assert_eq!(config.output_path, r"C:\Apps\Video");
}

#[test]
fn an_unknown_active_profile_is_replaced() {
    for id in ["", "  ", "custom-7"] {
        let mut config = AppConfig::default_for(r"C:\Apps");
        config.active_profile_id = id.to_string();

        assert!(config.normalize_after_load(r"C:\Apps").0);
        assert_eq!(config.active_profile_id, RAW_PROFILE_ID);
    }
}

#[test]
fn settings_that_need_no_repair_stay_as_they_are() {
    let mut config = AppConfig::default_for(r"C:\Apps");
    config.theme_mode = ThemeMode::Dark;
    config.custom_profiles.push(custom("custom-1"));
    config.active_profile_id = "custom-1".to_string();

    let (changed, messages) = config.normalize_after_load("elsewhere");

    assert!(!changed);
    assert!(messages.is_empty());
    assert_eq!(config.output_path, r"C:\Apps\Video");
    assert_eq!(config.active_profile_id, "custom-1");
    assert_eq!(config.theme_mode, ThemeMode::Dark);
}

#[test]
fn old_arguments_replace_an_earlier_profile_of_theirs() {
    let mut config = AppConfig::default_for(r"C:\Apps");
    config.custom_profiles.push(custom("custom-1"));
    config.custom_profiles.push(custom(LEGACY_PROFILE_ID));
    config.legacy_yt_dlp_args = vec![" --a\tb ".to_string()];

    assert!(config.normalize_after_load(r"C:\Apps").0);
    assert_eq!(config.custom_profiles.len(), 2);
    assert_eq!(config.custom_profiles[1].extra_args, vec!["--a", "b"]);
    assert_eq!(config.active_profile_name(), "Старые настройки");
    assert_eq!(config.active_custom_profile_index(), Some(1));

    assert!(!config.normalize_after_load(r"C:\Apps").0);
}

#[test]
fn a_custom_profile_comes_before_a_built_in_one() {
    let mut config = AppConfig::default();
    config.custom_profiles.push(DownloadProfile::custom_default(RAW_PROFILE_ID, "Моё"));

    assert_eq!(config.active_profile_name(), "Моё");
}

#[test]
fn the_next_id_is_the_least_free_one() {
    let mut config = AppConfig::default();
    assert_eq!(config.next_custom_profile_id(), "custom-1");

    config.custom_profiles.push(custom("custom-2"));
    config.custom_profiles.push(custom("custom-3"));
    assert_eq!(config.next_custom_profile_id(), "custom-4");

    config.custom_profiles[0].id = "custom-4".to_string();
    assert_eq!(config.next_custom_profile_id(), "custom-5");
}

#[test]
fn settings_that_were_read_are_written_only_when_repaired() {
    let good = AppConfig::default_for("d");
    let plan = AppConfig::load(ConfigSource::Parsed(StoredConfig::of(&good)), "c.toml", "d");
    assert!(!plan.fresh);
    assert!(!plan.save);
    let (_, messages) = plan.finish("c.toml", Some("denied"), None);
    assert_eq!(
        messages,
        vec![r">>> Не удалось подготовить папку загрузок d\Video: denied"]
    );

    let mut old = StoredConfig::of(&AppConfig::default_for("d"));
    old.yt_dlp_args = Some(vec!["--a".to_string()]);
    let plan = AppConfig::load(ConfigSource::Parsed(old), "c.toml", "d");
    assert!(plan.save);
    let (config, messages) = plan.finish("c.toml", Some("denied"), Some("full"));
    assert_eq!(config.active_profile_id, LEGACY_PROFILE_ID);
    assert_eq!(
        messages,
        vec![
            ">>> Старые параметры yt-dlp перенесены в профиль \"Старые настройки\"",
            r">>> Не удалось подготовить папку загрузок d\Video: denied",
            ">>> Не удалось сохранить конфиг c.toml: full",
        ]
    );
}

#[test]
fn anything_else_becomes_new_settings() {
    let plan = AppConfig::load(ConfigSource::Missing, "c.toml", "d");
    assert!(plan.fresh && plan.save);
    assert_eq!(plan.config.output_path, r"d\Video");
    assert!(plan.finish("c.toml", None, None).1.is_empty());

    let plan = AppConfig::load(ConfigSource::Corrupt("line 1".to_string()), "c.toml", "d");
    assert_eq!(
        plan.finish("c.toml", Some("denied"), Some("full")).1,
        vec![
            ">>> Конфиг c.toml поврежден, будет создан новый: line 1",
            r">>> Не удалось создать папку загрузок d\Video: denied",
            ">>> Не удалось сохранить конфиг c.toml: full",
        ]
    );

    let plan = AppConfig::load(ConfigSource::Unreadable("denied".to_string()), "c.toml", "d");
    assert_eq!(
        plan.finish("c.toml", None, None).1,
        vec![">>> Не удалось прочитать конфиг c.toml: denied"]
    );
}

#[test]
fn saved_settings_are_read_back() {
    let mut config = AppConfig::default_for("d");
    config.theme_mode = ThemeMode::Dark;
    let mut profile = custom("custom-1");
    profile.kind = DownloadKind::AudioOnly;
    profile.audio_format = AudioFormat::Opus;
    profile.sponsorblock_categories = vec!["intro".to_string()];
    profile.subtitle_langs = "de".to_string();
    profile.embed_chapters = true;
    profile.extra_args = vec!["--x".to_string()];
    config.custom_profiles.push(profile.clone());
    config.active_profile_id = "custom-1".to_string();

    let stored = StoredConfig::of(&config);
    assert_eq!(stored.theme_mode, Some(ThemeMode::Dark));
    assert!(stored.yt_dlp_args.is_none());
    let plan = AppConfig::load(ConfigSource::Parsed(stored), "c.toml", "elsewhere");
    assert!(!plan.save && !plan.fresh && plan.messages.is_empty());
    assert_eq!(plan.config.output_path, r"d\Video");
    assert_eq!(plan.config.theme_mode, ThemeMode::Dark);
    assert_eq!(plan.config.active_profile_id, "custom-1");
    assert_eq!(plan.config.custom_profiles, vec![profile]);
}

#[test]
fn what_the_settings_file_leaves_out_has_a_default() {
    let stored = StoredConfig {
        output_path: None,
        theme_mode: None,
        active_profile_id: None,
        custom_profiles: Some(vec![StoredProfile {
            id: "custom-1".to_string(),
            name: "mine".to_string(),
            kind: None,
            video_resolution: Some(VideoResolution::P720),
            container: None,
            audio_format: None,
            file_name_template: None,
            sponsorblock: None,
            sponsorblock_categories: None,
            subtitles: None,
            subtitle_langs: None,
            embed_metadata: None,
            embed_thumbnail: None,
            embed_chapters: None,
            playlist_mode: None,
            use_download_archive: None,
            extra_args: None,
        }]),
        yt_dlp_args: None,
    };
    let config = stored.restore();
    assert_eq!(config.output_path, "");
    assert_eq!(config.theme_mode, ThemeMode::System);
    assert_eq!(config.active_profile_id, RAW_PROFILE_ID);
    assert!(config.legacy_yt_dlp_args.is_empty());
    let mut expected = DownloadProfile::base("custom-1", "mine");
    expected.video_resolution = VideoResolution::P720;
    assert_eq!(config.custom_profiles, vec![expected]);
}

#[test]
fn selected_theme_mode_is_serialized() {
    let mut cfg = AppConfig::default();
    cfg.theme_mode = ThemeMode::Dark;

    let serialized = StoredConfig::of(&cfg);
    assert_eq!(serialized.theme_mode, Some(ThemeMode::Dark));

    let restored = serialized.restore();
    assert_eq!(restored.theme_mode, ThemeMode::Dark);
}
