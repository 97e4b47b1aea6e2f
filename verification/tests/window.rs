use ytdlp_ui::app_state::{ConfigOpening, Page, ProfileDialog, WindowSize, YtDlpApp};
use ytdlp_ui::components_page::{change_label, version_or};
use ytdlp_ui::config::AppConfig;
use ytdlp_ui::dialogs::DialogChoice;
use ytdlp_ui::download::{DownloadOutcome, DownloadRun};
use ytdlp_ui::links::Preparation;
use ytdlp_ui::process_output::{
    can_decode, decode_process_line, read_failure, read_line, ErrorSink, STDERR_PREFIX,
};
use ytdlp_ui::profile::{MP4_720_PROFILE_ID, RAW_PROFILE_ID};
use ytdlp_ui::status::{AppMessage, ColorRole, FinishState, StatusMessage, StatusTone};
use ytdlp_ui::theme::{NativeTitleBarApplyResult, ThemeMode, TitleBarStep};
use ytdlp_ui::update_run::{
    check_messages, recheck_messages, without_mark, UpdateNext, UpdateRun,
};
use ytdlp_ui::updater::{
    ComponentInfo, ComponentKind, ComponentStatus, InstallResult, UpdateReport,
};

fn app() -> YtDlpApp {
    YtDlpApp::new(AppConfig::default_for("d"), &Vec::new(), "d", "c.toml")
}

fn component(kind: ComponentKind, status: ComponentStatus) -> ComponentInfo {
    ComponentInfo {
        kind,
        title: "t".to_string(),
        local_version: None,
        latest_version: Some("2".to_string()),
        status,
        asset_name: None,
        download_url: None,
        checksum_url: None,
        digest: None,
    }
}

/// Messages in words.
fn told(messages: &[AppMessage]) -> Vec<String> {
    messages
        .iter()
        .map(|message| match message {
            AppMessage::Log(line) => format!("log {line}"),
            AppMessage::Status(status) => format!(
                "{:?} {} / {} {:?}",
                status.tone, status.title, status.detail, status.progress
            ),
            AppMessage::UpdateSnapshot(list) => format!("snapshot {}", list.len()),
            AppMessage::UpdatingComponent(kind) => format!("updating {kind:?}"),
            AppMessage::AllFinished(finish) => format!("finished {}", finish.title),
        })
        .collect()
}

fn finished(had_error: bool, restart_required: bool) -> AppMessage {
    AppMessage::AllFinished(FinishState {
        had_error,
        restart_required,
        title: "T".to_string(),
        detail: "D".to_string(),
    })
}

#[test]
fn extracts_plain_yt_dlp_error() {
    assert_eq!(
        YtDlpApp::extract_yt_dlp_error_line("ERROR: video unavailable"),
        Some("video unavailable".to_string())
    );
}

#[test]
fn extracts_prefixed_stderr_error() {
    assert_eq!(
        YtDlpApp::extract_yt_dlp_error_line("stderr | ERROR: private video"),
        Some("private video".to_string())
    );
}

#[test]
fn ignores_regular_output() {
    assert_eq!(
        YtDlpApp::extract_yt_dlp_error_line("[download] 42.0% of 12.00MiB"),
        None
    );
}

#[test]
fn an_error_without_words_is_none() {
    assert_eq!(YtDlpApp::extract_yt_dlp_error_line("ERROR:   "), None);
    assert_eq!(
        YtDlpApp::extract_yt_dlp_error_line("  x ERROR: a ERROR: b "),
        Some("a ERROR: b".to_string())
    );
}

#[test]
fn lines_are_utf8_or_windows_1251() {
    assert_eq!(decode_process_line(&"привет".as_bytes().to_vec()), "привет");
    assert_eq!(
        decode_process_line(&vec![0xef, 0xf0, 0xe8, 0xe2, 0xe5, 0xf2]),
        "привет"
    );
    assert!(can_decode(&vec![0; 10]));
}

#[test]
fn a_line_is_shown_without_its_end() {
    let line = read_line(b"ERROR: gone\r\n".to_vec(), STDERR_PREFIX);
    assert_eq!(line.text, "stderr | ERROR: gone");
    assert_eq!(line.error.as_deref(), Some("gone"));

    let line = read_line(b"plain\n\r\n".to_vec(), "");
    assert_eq!(line.text, "plain");
    assert_eq!(line.error, None);

    assert_eq!(read_failure("eof"), "❌ Ошибка чтения вывода процесса: eof");
}

#[test]
fn the_last_error_of_a_stream_counts() {
    let mut sink = ErrorSink::new();
    sink.note(Some("one".to_string()));
    sink.note(None);
    assert_eq!(sink.latest.as_deref(), Some("one"));
    sink.note(Some("two".to_string()));
    assert_eq!(sink.latest.as_deref(), Some("two"));
}

#[test]
fn a_new_window_tells_of_the_settings() {
    let app = app();
    assert_eq!(app.urls, vec![""]);
    assert_eq!(app.status.title, "Готов к загрузке");
    assert_eq!(app.page(), Page::Main);

    let app = YtDlpApp::new(
        AppConfig::default(),
        &vec![">>> a".to_string(), ">>>>>> b ".to_string()],
        "d",
        "c.toml",
    );
    assert_eq!(app.logs, ">>> a\n>>>>>> b \n");
    assert_eq!(app.status.tone, StatusTone::Warning);
    assert_eq!(app.status.title, "Проверьте конфигурацию");
    assert_eq!(app.status.detail, "b");
    assert_eq!(app.log_line_count(), 2);
    assert_eq!(app.log_hint(), "Строк в логе: 2");
    assert_eq!(without_mark(">>> x "), "x");
}

#[test]
fn messages_change_the_window() {
    let mut app = app();
    assert!(app.is_checking());
    assert_eq!(app.log_hint(), "Лог пуст");

    assert!(!app.handle_message(AppMessage::Log("line".to_string())));
    assert!(!app.handle_message(AppMessage::Status(StatusMessage::new(
        StatusTone::Running,
        "a",
        "b",
        Some((1, 2)),
    ))));
    assert!(!app.handle_message(AppMessage::UpdatingComponent(Some(ComponentKind::YtDlp))));
    assert!(!app.handle_message(AppMessage::UpdateSnapshot(vec![component(
        ComponentKind::YtDlp,
        ComponentStatus::UpToDate,
    )])));
    assert_eq!(app.logs, "line\n");
    assert!(app.status.spins());
    assert_eq!(app.status.progress_text().as_deref(), Some("1 из 2"));
    assert_eq!(app.updating_component, Some(ComponentKind::YtDlp));
    assert!(!app.is_checking());

    app.is_working = true;
    assert!(!app.handle_message(finished(true, false)));
    assert!(!app.is_working);
    assert_eq!(app.status.tone, StatusTone::Error);
    assert_eq!(app.logs, "line\n>>> Готово.\n");

    assert!(app.handle_message(finished(false, true)));
    assert_eq!(app.status.tone, StatusTone::Success);
    assert_eq!(
        app.logs,
        "line\n>>> Готово.\n>>> Готово.\n>>> Перезапуск для установки новой версии.\n"
    );
}

#[test]
fn tones_have_colors() {
    assert_eq!(StatusTone::Idle.status_color(), ColorRole::Secondary);
    assert!(matches!(StatusTone::Running.status_color(), ColorRole::Fixed(c) if c.r == 245));
    assert_eq!(StatusTone::Warning.status_color(), ColorRole::Warning);
}

#[test]
fn pages_lead_back_to_the_main_one() {
    let mut app = app();
    assert_eq!(app.open_settings(), WindowSize::Page);
    assert_eq!(app.page(), Page::Settings);
    assert_eq!(app.close_settings(), WindowSize::Main);
    assert_eq!(app.toggle_logs(), WindowSize::Log);
    assert_eq!(app.log_button_label(), "Скрыть лог");
    assert_eq!(app.open_about(), WindowSize::Page);
    assert_eq!(app.page(), Page::About);
    assert_eq!(app.hide_empty_log(), None);
    assert!(!app.show_logs);
    assert_eq!(app.close_about(), WindowSize::Main);
    app.show_logs = true;
    assert_eq!(app.hide_empty_log(), Some(WindowSize::Main));
    app.open_url_editor();
    assert_eq!(app.page(), Page::UrlEditor);
    app.close_url_editor();
    assert_eq!(app.page(), Page::Main);
}

#[test]
fn there_is_always_a_link() {
    let mut app = app();
    app.set_url(0, "a");
    app.remove_url(0);
    assert_eq!(app.urls, vec![""]);

    app.add_url();
    app.set_url(1, " b ");
    app.add_url();
    assert_eq!(app.url_count_label(), "3 ссылок");
    assert_eq!(app.open_list_label(), "Открыть список (3)");
    app.drop_blank_urls();
    assert_eq!(app.urls, vec![" b "]);
    app.set_url(0, "  ");
    app.drop_blank_urls();
    assert_eq!(app.urls, vec![""]);

    app.add_url();
    app.set_url(1, "c");
    app.remove_url(0);
    assert_eq!(app.urls, vec!["c"]);
    assert_eq!(YtDlpApp::place_label(0), "01.");
    assert_eq!(YtDlpApp::place_label(9), "10.");
}

#[test]
fn the_download_button_waits_for_yt_dlp() {
    let mut app = app();
    let button = app.download_button(true);
    assert!(!button.enabled && button.hint.is_none());
    assert_eq!(button.label, "СКАЧАТЬ");

    app.component_states = vec![component(ComponentKind::YtDlp, ComponentStatus::UpToDate)];
    assert!(app.download_button(true).enabled);
    assert_eq!(
        app.download_button(false).hint,
        Some("Установите yt-dlp в разделе «О программе».")
    );

    app.component_states[0].status = ComponentStatus::Missing;
    assert!(!app.download_button(true).enabled);

    app.urls = vec![String::new(), "b".to_string()];
    assert_eq!(app.download_button(true).label, "СКАЧАТЬ ВСЕ");
    app.is_working = true;
    let button = app.download_button(true);
    assert_eq!(button.label, "СКАЧИВАЕТСЯ");
    assert!(!button.enabled);
}

#[test]
fn a_download_starts_only_when_all_is_ready() {
    let mut window = app();
    assert!(window
        .start_download(Preparation::FolderFailed("denied".to_string()))
        .is_none());
    assert_eq!(
        window.logs,
        ">>> Не удалось создать папку загрузок: d\\Video: denied\n"
    );
    assert!(window
        .start_download(Preparation::SaveFailed("full".to_string()))
        .is_none());
    assert_eq!(window.status.detail, "c.toml: full");
    assert!(window
        .start_download(Preparation::Prepared { has_yt_dlp: false })
        .is_none());
    assert_eq!(window.status.title, "yt-dlp.exe не найден");
    assert!(window
        .start_download(Preparation::Prepared { has_yt_dlp: true })
        .is_none());
    assert_eq!(window.status.title, "Список ссылок пуст");
    assert!(!window.is_working);

    window.urls = vec![" a ".to_string(), " ".to_string(), "b".to_string()];
    window.config.active_profile_id = MP4_720_PROFILE_ID.to_string();
    let run = window
        .start_download(Preparation::Prepared { has_yt_dlp: true })
        .expect("a run");
    assert!(window.is_working);
    assert_eq!(window.logs, ">>> Старт: 2 файл(ов)\n");
    assert_eq!(window.status.detail, "В очереди: 2 файл(ов)");
    assert_eq!(window.status.progress, Some((0, 2)));
    assert_eq!(run.urls, vec!["a", "b"]);
    assert_eq!(
        run.next_command(),
        vec![
            "--newline",
            "-S",
            "res:720",
            "--merge-output-format",
            "mp4",
            "--remux-video",
            "mp4",
            "-o",
            "d\\Video/%(title)s.%(ext)s",
            "a",
        ]
    );
    assert_eq!(window.managed_yt_dlp_path(), "d\\yt-dlp.exe");
}

fn run_of(urls: &[&str]) -> DownloadRun {
    DownloadRun {
        urls: urls.iter().map(|url| url.to_string()).collect(),
        config_args: Vec::new(),
        output_template: "o".to_string(),
        done: 0,
        last_error: None,
    }
}

fn exited(success: bool, code: Option<i32>, error: Option<&str>) -> DownloadOutcome {
    DownloadOutcome::Exited {
        success,
        code,
        stderr_error: error.map(str::to_string),
    }
}

#[test]
fn a_run_without_failures_counts_its_files() {
    let mut run = run_of(&["a", "b"]);
    assert_eq!(
        told(&run.announce_next()),
        vec![
            "Running Скачивание 1 из 2 / a Some((1, 2))",
            "log >>> [1/2] a",
        ]
    );
    assert_eq!(
        told(&run.record(exited(true, Some(0), Some("ignored")))),
        vec!["Success Ссылка загружена / a Some((1, 2))"]
    );
    assert_eq!(run.next_command(), vec!["--newline", "-o", "o", "b"]);
    run.record(exited(true, Some(0), None));
    assert!(!run.has_next());

    let finish = run.finish();
    assert!(!finish.had_error && !finish.restart_required);
    assert_eq!(finish.title, "Загрузка завершена");
    assert_eq!(finish.detail, "Скачано: 2 файл(ов)");
}

#[test]
fn a_run_reports_its_last_failure() {
    let mut run = run_of(&["a", "b", "c", "d", "e"]);
    assert_eq!(
        told(&run.record(DownloadOutcome::NotStarted("no file".to_string()))),
        vec![
            "log ❌ Ошибка запуска yt-dlp: no file",
            "Error Ошибка загрузки / Ошибка запуска yt-dlp: no file Some((1, 5))",
        ]
    );
    assert_eq!(
        told(&run.record(DownloadOutcome::NotAwaited("lost".to_string())))[0],
        "log ❌ Не удалось дождаться завершения yt-dlp: lost"
    );
    assert_eq!(
        told(&run.record(exited(false, None, Some("private")))),
        vec![
            "log ❌ yt-dlp завершился с кодом без кода",
            "Error Ошибка загрузки / private Some((3, 5))",
        ]
    );
    assert_eq!(
        told(&run.record(exited(false, Some(-2), None))),
        vec![
            "log ❌ yt-dlp завершился с кодом -2",
            "Error Ошибка загрузки / yt-dlp завершился с кодом -2 Some((4, 5))",
        ]
    );
    run.record(exited(true, Some(0), None));

    let finish = run.finish();
    assert!(finish.had_error);
    assert_eq!(finish.title, "Загрузка завершена с ошибкой");
    assert_eq!(finish.detail, "yt-dlp завершился с кодом -2");
}

#[test]
fn a_check_tells_its_warnings_and_components() {
    let report = || UpdateReport {
        components: vec![component(ComponentKind::YtDlp, ComponentStatus::Unknown)],
        warnings: vec![">>> one".to_string()],
    };

    assert_eq!(
        told(&check_messages(report())),
        vec![
            "log >>> one",
            "Warning Проверка обновлений не завершена / one None",
            "snapshot 1",
        ]
    );
    assert_eq!(
        told(&recheck_messages(report())),
        vec!["log >>> one", "snapshot 1"]
    );
}

#[test]
fn updates_are_told_of_one_after_another() {
    let mut run = UpdateRun::new(vec![
        component(ComponentKind::YtDlp, ComponentStatus::Missing),
        component(ComponentKind::YtDlpGui, ComponentStatus::UpdateAvailable),
    ]);
    assert_eq!(
        told(&run.announce_next()),
        vec![
            "updating Some(YtDlp)",
            "Running Обновление t / Загрузка и установка Some((1, 2))",
        ]
    );
    assert_eq!(
        told(&run.record(Err("offline".to_string()))),
        vec![
            "log ❌ t: offline",
            "Error Ошибка обновления / t: offline Some((1, 2))",
        ]
    );
    assert!(run.rechecks());
    assert_eq!(
        told(&run.record(Ok(InstallResult::RestartRequired("done".to_string())))),
        vec![
            "log ✅ done",
            "Success Компонент обновлен / done Some((2, 2))",
        ]
    );
    assert!(!run.has_next());
    assert!(!run.rechecks());
    assert_eq!(
        told(&run.conclude()),
        vec!["updating None", "log ✅ Обновление завершено."]
    );
    let finish = run.finish();
    assert!(finish.had_error && finish.restart_required);
    assert_eq!(finish.title, "Обновление завершено с ошибкой");
    assert_eq!(finish.detail, "t: offline");
}

#[test]
fn updates_end_well_with_or_without_a_restart() {
    let targets = || vec![component(ComponentKind::YtDlp, ComponentStatus::Missing)];

    let mut run = UpdateRun::new(targets());
    run.record(Ok(InstallResult::Installed("a".to_string())));
    let finish = run.finish();
    assert_eq!(finish.title, "Обновление завершено");
    assert_eq!(finish.detail, "Компоненты готовы к работе");

    let mut run = UpdateRun::new(targets());
    run.record(Ok(InstallResult::RestartRequired("a".to_string())));
    assert_eq!(run.finish().detail, "Приложение будет перезапущено");
}

#[test]
fn only_components_that_need_it_are_updated() {
    let mut app = app();
    assert!(!app.update_enabled());
    assert_eq!(app.update_tooltip(), "Проверка обновлений");

    app.component_states = vec![
        component(ComponentKind::YtDlpGui, ComponentStatus::UpToDate),
        component(ComponentKind::YtDlp, ComponentStatus::Missing),
        component(ComponentKind::Ffmpeg, ComponentStatus::Unknown),
        component(ComponentKind::Ffprobe, ComponentStatus::UpdateAvailable),
    ];
    assert!(app.update_enabled());
    assert_eq!(app.update_tooltip(), "Обновить компоненты");
    app.open_update_confirm();
    assert!(app.show_update_confirm);
    assert!(app.take_center_request());
    assert!(!app.take_center_request());
    assert!(app.is_selected(ComponentKind::YtDlp));
    app.select_update(ComponentKind::YtDlp, false);
    assert!(!app.is_selected(ComponentKind::YtDlp));
    assert!(app.can_approve());

    let run = app.approve_update().expect("a run");
    assert_eq!(run.targets.len(), 1);
    assert_eq!(run.targets[0].kind, ComponentKind::Ffprobe);
    assert!(app.is_working && !app.show_update_confirm);
    assert_eq!(app.status.detail, "В очереди: 1");
    assert_eq!(app.update_tooltip(), "Дождитесь завершения текущей операции");
    assert!(!app.can_approve());
}

#[test]
fn nothing_to_update_is_said() {
    let mut app = app();
    app.component_states = vec![component(ComponentKind::YtDlp, ComponentStatus::UpToDate)];
    assert_eq!(app.update_tooltip(), "Все компоненты актуальны");
    assert!(app.approve_update().is_none());
    assert_eq!(app.logs, ">>> Обновления не требуются.\n");
    assert!(!app.is_working);

    app.component_states[0].status = ComponentStatus::Unknown;
    assert_eq!(app.update_tooltip(), "Нет доступных обновлений");
    app.open_update_confirm();
    app.cancel_update();
    assert!(!app.show_update_confirm);
}

#[test]
fn components_have_badges() {
    let mut app = app();
    let missing = component(ComponentKind::Ffprobe, ComponentStatus::Missing);
    assert_eq!(app.component_badge(&missing), (ColorRole::Error, "не установлен"));
    app.updating_component = Some(ComponentKind::FfmpegBundle);
    assert_eq!(app.component_badge(&missing).1, "не установлен");
    app.is_working = true;
    assert_eq!(app.component_badge(&missing), (ColorRole::Warning, "обновляется"));
    let other = component(ComponentKind::YtDlp, ComponentStatus::UpToDate);
    assert_eq!(app.component_badge(&other), (ColorRole::Success, "актуален"));

    assert_eq!(version_or(&other.local_version, "—"), "—");
    assert_eq!(change_label(&other), "не установлен → 2");
}

const NAME: DialogChoice = DialogChoice {
    apply_name: true,
    approve_delete: false,
    cancel: false,
};
const DELETE: DialogChoice = DialogChoice {
    apply_name: false,
    approve_delete: true,
    cancel: false,
};
const CANCEL: DialogChoice = DialogChoice {
    apply_name: false,
    approve_delete: false,
    cancel: true,
};

#[test]
fn a_profile_can_be_created_copied_renamed_and_deleted() {
    let mut app = app();
    assert!(!app.can_edit_profile());
    app.open_rename_dialog();
    app.open_delete_dialog();
    assert!(app.profile_dialog.is_none());
    assert!(!app.resolve_profile_dialog(NAME));

    app.open_create_dialog();
    assert_eq!(app.profile_dialog_text, "Новый профиль");
    assert!(app.profile_dialog_needs_focus);
    app.profile_dialog_text = "  ".to_string();
    assert!(app.resolve_profile_dialog(NAME));
    assert_eq!(app.config.active_profile_id, "custom-1");
    assert_eq!(app.config.active_profile_name(), "Профиль");
    assert!(app.profile_dialog.is_none());

    app.config.custom_profiles[0].set_extra_args_text("--a");
    app.open_duplicate_dialog();
    assert_eq!(app.profile_dialog_text, "Профиль копия");
    assert!(app.resolve_profile_dialog(NAME));
    assert_eq!(app.config.active_profile_id, "custom-2");
    assert_eq!(app.config.active_profile().extra_args, vec!["--a"]);

    app.open_rename_dialog();
    app.profile_dialog_text = " X ".to_string();
    assert!(app.resolve_profile_dialog(NAME));
    assert_eq!(app.config.custom_profiles[1].name, "X");
    assert_eq!(app.config.custom_profiles[0].name, "Профиль");

    app.open_delete_dialog();
    let dialog = app.profile_dialog.as_ref().expect("a dialog");
    assert_eq!(dialog.title(), "Удалить профиль");
    assert_eq!(dialog.question().as_deref(), Some("Удалить профиль \"X\"?"));
    assert!(!app.resolve_profile_dialog(NAME));
    assert!(app.profile_dialog.is_some());
    assert!(app.resolve_profile_dialog(DELETE));
    assert_eq!(app.config.custom_profiles.len(), 1);
    assert_eq!(app.config.active_profile_id, RAW_PROFILE_ID);
}

#[test]
fn a_dialog_can_be_cancelled() {
    let mut app = app();
    app.open_create_dialog();
    assert!(!app.resolve_profile_dialog(DELETE));
    assert!(app.profile_dialog.is_some());
    assert!(!app.resolve_profile_dialog(CANCEL));
    assert!(app.profile_dialog.is_none());
    assert!(app.profile_dialog_text.is_empty());
    assert!(app.config.custom_profiles.is_empty());

    let gone = ProfileDialog::Rename {
        id: "custom-9".to_string(),
    };
    assert!(!app.apply_profile_name_dialog(gone));
    assert!(!app.apply_profile_delete_dialog("custom-9"));
}

#[test]
fn choosing_another_profile_closes_the_dialog() {
    let mut app = app();
    app.open_create_dialog();
    assert!(!app.select_profile(RAW_PROFILE_ID));
    assert!(app.profile_dialog.is_some());
    assert!(app.select_profile(MP4_720_PROFILE_ID));
    assert!(app.profile_dialog.is_none());
    assert_eq!(app.config.active_profile_name(), "MP4 720p");
}

#[test]
fn a_new_theme_repaints_the_title_bar() {
    let mut app = app();
    assert!(!app.select_theme(ThemeMode::System));
    assert!(app.select_theme(ThemeMode::Dark));
    let TitleBarStep::Apply(style) = app.sync_native_title_bar(false) else {
        panic!("a style");
    };
    assert!(style.dark_mode);
    assert!(!app
        .report_title_bar(style, NativeTitleBarApplyResult::Applied)
        .repaint);
    assert_eq!(app.sync_native_title_bar(false), TitleBarStep::Idle);
}

#[test]
fn failures_of_the_window_are_told() {
    let mut app = app();
    app.report_save(None);
    app.report_open_folder(None);
    app.report_open_config(ConfigOpening::Opened);
    assert!(app.logs.is_empty());

    app.report_save(Some("full"));
    app.report_open_folder(Some("denied"));
    app.report_open_config(ConfigOpening::SaveFailed("full".to_string()));
    app.report_open_config(ConfigOpening::OpenFailed("no viewer".to_string()));
    assert_eq!(
        app.logs,
        ">>> Не удалось сохранить конфиг: full\n>>> Не удалось открыть папку: denied\n\
         >>> Не удалось сохранить конфиг: full\n>>> Не удалось открыть конфиг: no viewer\n"
    );
    assert_eq!(app.status.tone, StatusTone::Error);
}

#[test]
fn a_new_folder_is_told() {
    let mut app = app();
    app.set_output_path("D:\\x");
    app.report_output_path(None);
    assert_eq!(app.config.output_path, "D:\\x");
    assert_eq!(app.status.title, "Путь сохранения обновлен");
    assert_eq!(app.status.detail, "D:\\x");
    assert_eq!(app.logs, ">>> Путь сохранения: D:\\x\n");
    app.report_output_path(Some("full"));
    assert_eq!(app.status.title, "Не удалось сохранить конфиг");
}

#[test]
fn the_prefix_of_the_error_stream_hides_no_error() {
    for line in [
        "ERROR: gone",
        "  ERROR: gone  ",
        "stderr | ERROR: gone",
        "stderr |    x ERROR: gone",
        "stderr | ",
        "   ",
        "no problem",
    ] {
        assert_eq!(
            YtDlpApp::extract_yt_dlp_error_line(&format!("stderr | {line}")),
            YtDlpApp::extract_yt_dlp_error_line(line)
        );
    }
    assert_eq!(
        YtDlpApp::extract_yt_dlp_error_line("stderr | stderr |    x ERROR: gone"),
        Some("gone".to_string())
    );
}

#[test]
fn a_run_of_downloads_ends_with_its_last_message() {
    let mut run = run_of(&["a", "b"]);
    let mut all = Vec::new();
    let mut commands = Vec::new();
    let mut step = run.start();
    loop {
        all.extend(told(&step.messages));
        match step.command {
            Some(args) => {
                let ends_well = commands.is_empty();
                commands.push(args.last().cloned());
                step = run.advance(exited(ends_well, Some(1), None));
            }
            None => break,
        }
    }
    assert_eq!(
        commands,
        vec![Some("a".to_string()), Some("b".to_string())]
    );
    assert_eq!(
        all,
        vec![
            "Running Скачивание 1 из 2 / a Some((1, 2))",
            "log >>> [1/2] a",
            "Success Ссылка загружена / a Some((1, 2))",
            "Running Скачивание 2 из 2 / b Some((2, 2))",
            "log >>> [2/2] b",
            "log ❌ yt-dlp завершился с кодом 1",
            "Error Ошибка загрузки / yt-dlp завершился с кодом 1 Some((2, 2))",
            "finished Загрузка завершена с ошибкой",
        ]
    );
}

fn sent_by_an_update(result: Result<InstallResult, String>) -> Vec<String> {
    let mut run = UpdateRun::new(vec![component(
        ComponentKind::YtDlp,
        ComponentStatus::Missing,
    )]);
    let mut result = Some(result);
    let mut all = Vec::new();
    let mut step = run.start();
    loop {
        all.extend(told(&step.messages));
        step = match step.next {
            UpdateNext::Install(component) => {
                assert_eq!(component.kind, ComponentKind::YtDlp);
                run.advance(result.take().expect("one installation"))
            }
            UpdateNext::Recheck => {
                all.push("check".to_string());
                run.after_recheck(UpdateReport {
                    components: Vec::new(),
                    warnings: vec![">>> one".to_string()],
                })
            }
            UpdateNext::Nothing => return all,
        };
    }
}

#[test]
fn a_run_of_updates_checks_again_unless_it_restarts() {
    assert_eq!(
        sent_by_an_update(Err("offline".to_string())),
        vec![
            "updating Some(YtDlp)",
            "Running Обновление t / Загрузка и установка Some((1, 1))",
            "log ❌ t: offline",
            "Error Ошибка обновления / t: offline Some((1, 1))",
            "updating None",
            "log ✅ Обновление завершено.",
            "check",
            "log >>> one",
            "snapshot 0",
            "finished Обновление завершено с ошибкой",
        ]
    );
    assert_eq!(
        sent_by_an_update(Ok(InstallResult::RestartRequired("new".to_string()))),
        vec![
            "updating Some(YtDlp)",
            "Running Обновление t / Загрузка и установка Some((1, 1))",
            "log ✅ new",
            "Success Компонент обновлен / new Some((1, 1))",
            "updating None",
            "log ✅ Обновление завершено.",
            "finished Обновление завершено",
        ]
    );
}
