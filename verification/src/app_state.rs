//! The window's state: what it shows, and what each action of the user and each message of the
//! background work makes of it.
use crate::config::{AppConfig, ConfigModel};
use crate::paths::joined_path;
use crate::process_output::line_error;
use crate::profile::{DownloadProfile, ProfileModel};
use crate::status::{
    status, AppMessage, FinishState, MessageModel, StatusMessage, StatusModel, StatusTone,
};
use crate::text::{
    cat, cat3, cat4, decimal, decimal_text, lines, opt_slice, opt_text, slices, split_lines, texts,
};
use crate::theme::{
    title_bar_style, NativeTitleBarApplyResult, NativeTitleBarStyle, ThemeMode, TitleBarFollowUp,
    TitleBarStep, TitleBarSync,
};
use crate::update_run::{unmarked, without_mark};
use crate::updater::{
    components, ComponentInfo, ComponentKind, ComponentModel, InstalledProgram,
};
use vstd::prelude::*;

verus! {

/// The dialog about a profile that is open.
pub enum ProfileDialog {
    Create,
    Duplicate(DownloadProfile),
    Rename { id: String },
    Delete { id: String, name: String },
}

/// What a dialog is about.
#[verifier::ext_equal]
pub enum DialogModel {
    Create,
    Duplicate(ProfileModel),
    Rename { id: Seq<char> },
    Delete { id: Seq<char>, name: Seq<char> },
}

impl View for ProfileDialog {
    type V = DialogModel;

    open spec fn view(&self) -> DialogModel {
        match self {
            ProfileDialog::Create => DialogModel::Create,
            ProfileDialog::Duplicate(profile) => DialogModel::Duplicate(profile@),
            ProfileDialog::Rename { id } => DialogModel::Rename { id: id@ },
            ProfileDialog::Delete { id, name } => DialogModel::Delete { id: id@, name: name@ },
        }
    }
}

/// What the window shows.
#[derive(Clone, Copy, Debug, PartialEq, Eq, Structural)]
pub enum Page {
    Main,
    UrlEditor,
    Settings,
    About,
}

/// How large the window is.
#[derive(Clone, Copy, Debug, PartialEq, Eq, Structural)]
pub enum WindowSize {
    /// The main page.
    Main,
    /// The main page with the log.
    Log,
    /// The settings and the page about the program.
    Page,
}

/// The size of the main page.
pub open spec fn main_size(show_logs: bool) -> WindowSize {
    if show_logs {
        WindowSize::Log
    } else {
        WindowSize::Main
    }
}

/// The window's state.
pub struct YtDlpApp {
    pub urls: Vec<String>,
    pub config: AppConfig,
    pub logs: String,
    pub status: StatusMessage,
    pub is_working: bool,
    pub show_logs: bool,
    pub show_url_editor: bool,
    pub show_settings: bool,
    pub show_about: bool,
    pub show_update_confirm: bool,
    pub center_confirm_window_on_open: bool,
    pub profile_dialog: Option<ProfileDialog>,
    pub profile_dialog_text: String,
    pub profile_dialog_needs_focus: bool,
    pub component_states: Vec<ComponentInfo>,
    pub selected_update_components: Vec<ComponentKind>,
    pub updating_component: Option<ComponentKind>,
    pub app_dir: String,
    pub config_path: String,
    pub title_bar: TitleBarSync,
}

/// What the window's state is.
#[verifier::ext_equal]
pub struct AppModel {
    pub urls: Seq<Seq<char>>,
    pub config: ConfigModel,
    pub logs: Seq<char>,
    pub status: StatusModel,
    pub is_working: bool,
    pub show_logs: bool,
    pub show_url_editor: bool,
    pub show_settings: bool,
    pub show_about: bool,
    pub show_update_confirm: bool,
    pub center_confirm_window_on_open: bool,
    pub profile_dialog: Option<DialogModel>,
    pub profile_dialog_text: Seq<char>,
    pub profile_dialog_needs_focus: bool,
    pub component_states: Seq<ComponentModel>,
    pub selected_update_components: Seq<ComponentKind>,
    pub updating_component: Option<ComponentKind>,
    pub app_dir: Seq<char>,
    pub config_path: Seq<char>,
    pub title_bar: TitleBarSync,
}

/// What an optional dialog is about.
pub open spec fn opt_dialog(dialog: Option<ProfileDialog>) -> Option<DialogModel> {
    match dialog {
        Some(dialog) => Some(dialog@),
        None => None,
    }
}

impl View for YtDlpApp {
    type V = AppModel;

    open spec fn view(&self) -> AppModel {
        AppModel {
            urls: texts(self.urls@),
            config: self.config@,
            logs: self.logs@,
            status: self.status@,
            is_working: self.is_working,
            show_logs: self.show_logs,
            show_url_editor: self.show_url_editor,
            show_settings: self.show_settings,
            show_about: self.show_about,
            show_update_confirm: self.show_update_confirm,
            center_confirm_window_on_open: self.center_confirm_window_on_open,
            profile_dialog: opt_dialog(self.profile_dialog),
            profile_dialog_text: self.profile_dialog_text@,
            profile_dialog_needs_focus: self.profile_dialog_needs_focus,
            component_states: components(self.component_states@),
            selected_update_components: self.selected_update_components@,
            updating_component: self.updating_component,
            app_dir: self.app_dir@,
            config_path: self.config_path@,
            title_bar: self.title_bar,
        }
    }
}

/// What is logged of the settings when the window opens.
pub open spec fn start_logs(list: Seq<Seq<char>>) -> Seq<char>
    decreases list.len(),
{
    if list.len() == 0 {
        Seq::empty()
    } else {
        start_logs(list.drop_last()) + list.last() + "\n"@
    }
}

/// The status when the window opens: what is last said of the settings.
pub open spec fn start_status(list: Seq<Seq<char>>) -> StatusModel {
    if list.len() == 0 {
        StatusMessage::idle_model()
    } else {
        status(StatusTone::Warning, "Проверьте конфигурацию"@, unmarked(list.last()), None)
    }
}

impl AppModel {
    /// Whether there is a link, if only an empty one.
    pub open spec fn well_formed(self) -> bool {
        self.urls.len() > 0
    }

    /// The state of a window that has just opened.
    pub open spec fn opened(
        config: ConfigModel,
        config_messages: Seq<Seq<char>>,
        app_dir: Seq<char>,
        config_path: Seq<char>,
    ) -> AppModel {
        AppModel {
            urls: seq![Seq::empty()],
            config,
            logs: start_logs(config_messages),
            status: start_status(config_messages),
            is_working: false,
            show_logs: false,
            show_url_editor: false,
            show_settings: false,
            show_about: false,
            show_update_confirm: false,
            center_confirm_window_on_open: false,
            profile_dialog: None,
            profile_dialog_text: Seq::empty(),
            profile_dialog_needs_focus: false,
            component_states: Seq::empty(),
            selected_update_components: Seq::empty(),
            updating_component: None,
            app_dir,
            config_path,
            title_bar: TitleBarSync { delay: 2, last: None },
        }
    }

    /// The state after something went wrong in the window itself.
    pub open spec fn with_error(self, title: Seq<char>, detail: Seq<char>) -> AppModel {
        AppModel {
            logs: self.logs + (">>> "@ + title + ": "@ + detail + "\n"@),
            status: status(StatusTone::Error, title, detail, None),
            ..self
        }
    }

    /// The state after a message.
    pub open spec fn handled(self, message: MessageModel) -> AppModel {
        match message {
            MessageModel::Log(line) => AppModel { logs: self.logs + line + "\n"@, ..self },
            MessageModel::Status(status) => AppModel { status, ..self },
            MessageModel::UpdateSnapshot(states) => AppModel { component_states: states, ..self },
            MessageModel::UpdatingComponent(current) => AppModel {
                updating_component: current,
                ..self
            },
            MessageModel::AllFinished(finish) => AppModel {
                is_working: false,
                status: status(
                    if finish.had_error {
                        StatusTone::Error
                    } else {
                        StatusTone::Success
                    },
                    finish.title,
                    finish.detail,
                    None,
                ),
                logs: self.logs + ">>> Готово.\n"@ + if finish.restart_required {
                    ">>> Перезапуск для установки новой версии.\n"@
                } else {
                    Seq::empty()
                },
                ..self
            },
        }
    }

    /// Whether a message has the window close.
    pub open spec fn closes(message: MessageModel) -> bool {
        message matches MessageModel::AllFinished(finish) && finish.restart_required
    }

    /// What the window shows.
    pub open spec fn page(self) -> Page {
        if self.show_settings {
            Page::Settings
        } else if self.show_about {
            Page::About
        } else if self.show_url_editor {
            Page::UrlEditor
        } else {
            Page::Main
        }
    }

    /// How large the window is with what it shows.
    pub open spec fn window_size(self) -> WindowSize {
        if self.show_settings || self.show_about {
            WindowSize::Page
        } else {
            main_size(self.show_logs)
        }
    }

    /// The state with the settings open or closed.
    pub open spec fn with_settings(self, shown: bool) -> AppModel {
        AppModel { show_settings: shown, ..self }
    }

    /// The state with the page about the program open or closed.
    pub open spec fn with_about(self, shown: bool) -> AppModel {
        AppModel { show_about: shown, ..self }
    }
}

impl YtDlpApp {
    /// The state of a window that has just opened.
    pub fn new(
        config: AppConfig,
        config_messages: &Vec<String>,
        app_dir: &str,
        config_path: &str,
    ) -> (r: Self)
        ensures
            r@ == AppModel::opened(config@, texts(config_messages@), app_dir@, config_path@),
            r@.well_formed(),
    {
        let mut logs = String::new();
        let mut shown = StatusMessage::idle();
        let ghost all = texts(config_messages@);
        let mut i: usize = 0;
        while i < config_messages.len()
            invariant
                i <= config_messages.len(),
                all == texts(config_messages@),
                logs@ == start_logs(all.take(i as int)),
                shown@ == start_status(all.take(i as int)),
            decreases config_messages.len() - i,
        {
            let ghost seen = all.take(i + 1);
            assert(seen.drop_last() =~= all.take(i as int));
            assert(seen.last() == config_messages@[i as int]@);
            let message = config_messages[i].as_str();
            shown = StatusMessage::new(
                StatusTone::Warning,
                "Проверьте конфигурацию",
                without_mark(message),
                None,
            );
            logs.append(message);
            logs.append("\n");
            i = i + 1;
        }
        assert(all.take(all.len() as int) =~= all);
        let mut urls: Vec<String> = Vec::new();
        urls.push(String::new());
        assert(texts(urls@) =~= seq![Seq::<char>::empty()]);
        let r = YtDlpApp {
            urls,
            config,
            logs,
            status: shown,
            is_working: false,
            show_logs: false,
            show_url_editor: false,
            show_settings: false,
            show_about: false,
            show_update_confirm: false,
            center_confirm_window_on_open: false,
            profile_dialog: None,
            profile_dialog_text: String::new(),
            profile_dialog_needs_focus: false,
            component_states: Vec::new(),
            selected_update_components: Vec::new(),
            updating_component: None,
            app_dir: app_dir.to_owned(),
            config_path: config_path.to_owned(),
            title_bar: TitleBarSync::new(),
        };
        assert(r@ =~= AppModel::opened(config@, all, app_dir@, config_path@));
        r
    }

    /// The error in a line that yt-dlp printed.
    pub fn extract_yt_dlp_error_line(line: &str) -> (r: Option<String>)
        ensures
            opt_text(r) == line_error(line@),
    {
        crate::process_output::extract_yt_dlp_error_line(line)
    }

    /// Tells of something that went wrong in the window itself.
    pub fn set_local_error(&mut self, title: &str, detail: &str)
        ensures
            final(self)@ == old(self)@.with_error(title@, detail@),
    {
        let line = cat4(">>> ", title, ": ", detail);
        let line = cat(line.as_str(), "\n");
        self.logs.append(line.as_str());
        self.status = StatusMessage::new(StatusTone::Error, title, detail, None);
    }

    /// Takes a message of the background work. Tells whether the window is to be closed.
    pub fn handle_message(&mut self, message: AppMessage) -> (r: bool)
        ensures
            final(self)@ == old(self)@.handled(message@),
            r == AppModel::closes(message@),
    {
        match message {
            AppMessage::Log(line) => {
                self.logs.append(line.as_str());
                self.logs.append("\n");
                false
            },
            AppMessage::Status(status) => {
                self.status = status;
                false
            },
            AppMessage::UpdateSnapshot(states) => {
                self.component_states = states;
                false
            },
            AppMessage::UpdatingComponent(current) => {
                self.updating_component = current;
                false
            },
            AppMessage::AllFinished(finish) => {
                self.is_working = false;
                let tone = if finish.had_error {
                    StatusTone::Error
                } else {
                    StatusTone::Success
                };
                self.status = StatusMessage::new(
                    tone,
                    finish.title.as_str(),
                    finish.detail.as_str(),
                    None,
                );
                self.logs.append(">>> Готово.\n");
                if finish.restart_required {
                    self.logs.append(">>> Перезапуск для установки новой версии.\n");
                }
                assert(self@.logs =~= old(self)@.handled(message@).logs);
                finish.restart_required
            },
        }
    }

    /// What the window shows.
    pub fn page(&self) -> (r: Page)
        ensures
            r == self@.page(),
    {
        if self.show_settings {
            Page::Settings
        } else if self.show_about {
            Page::About
        } else if self.show_url_editor {
            Page::UrlEditor
        } else {
            Page::Main
        }
    }

    /// The size of the main page.
    fn main_page_size(&self) -> (r: WindowSize)
        ensures
            r == main_size(self@.show_logs),
    {
        if self.show_logs {
            WindowSize::Log
        } else {
            WindowSize::Main
        }
    }

    /// Hides a log that has become empty. The window gets a new size where the log was shown.
    pub fn hide_empty_log(&mut self) -> (r: Option<WindowSize>)
        ensures
            ({
                let hides = old(self)@.show_logs && old(self)@.logs.len() == 0;
                &&& final(self)@ == if hides {
                    AppModel { show_logs: false, ..old(self)@ }
                } else {
                    old(self)@
                }
                &&& r == if hides && !old(self)@.show_settings && !old(self)@.show_about {
                    Some(WindowSize::Main)
                } else {
                    None
                }
            }),
    {
        if self.show_logs && self.logs.as_str().is_empty() {
            self.show_logs = false;
            if !self.show_settings && !self.show_about {
                return Some(WindowSize::Main);
            }
        }
        None
    }

    /// Whether the first check for updates is still under way.
    pub fn is_checking(&self) -> (r: bool)
        ensures
            r == (self@.component_states.len() == 0),
    {
        self.component_states.len() == 0
    }

    /// Opens the settings.
    pub fn open_settings(&mut self) -> (r: WindowSize)
        ensures
            final(self)@ == old(self)@.with_settings(true),
            r == WindowSize::Page,
    {
        self.show_settings = true;
        WindowSize::Page
    }

    /// Goes back from the settings.
    pub fn close_settings(&mut self) -> (r: WindowSize)
        ensures
            final(self)@ == old(self)@.with_settings(false),
            r == main_size(old(self)@.show_logs),
    {
        self.show_settings = false;
        self.main_page_size()
    }

    /// Opens the page about the program.
    pub fn open_about(&mut self) -> (r: WindowSize)
        ensures
            final(self)@ == old(self)@.with_about(true),
            r == WindowSize::Page,
    {
        self.show_about = true;
        WindowSize::Page
    }

    /// Goes back from the page about the program.
    pub fn close_about(&mut self) -> (r: WindowSize)
        ensures
            final(self)@ == old(self)@.with_about(false),
            r == main_size(old(self)@.show_logs),
    {
        self.show_about = false;
        self.main_page_size()
    }

    /// Shows the log or hides it.
    pub fn toggle_logs(&mut self) -> (r: WindowSize)
        ensures
            final(self)@ == (AppModel { show_logs: !old(self)@.show_logs, ..old(self)@ }),
            r == main_size(!old(self)@.show_logs),
    {
        self.show_logs = !self.show_logs;
        self.main_page_size()
    }

    /// What the button of the log says.
    pub fn log_button_label(&self) -> (r: &'static str)
        ensures
            r@ == if self@.show_logs {
                "Скрыть лог"@
            } else {
                "Показать лог"@
            },
    {
        if self.show_logs {
            "Скрыть лог"
        } else {
            "Показать лог"
        }
    }

    /// How many lines the log has.
    pub fn log_line_count(&self) -> (r: usize)
        ensures
            r == lines(self@.logs).len(),
    {
        let list = split_lines(self.logs.as_str());
        assert(slices(list@).len() == list@.len());
        list.len()
    }

    /// What is said of the log.
    pub fn log_hint(&self) -> (r: String)
        ensures
            r@ == if lines(self@.logs).len() == 0 {
                "Лог пуст"@
            } else {
                "Строк в логе: "@ + decimal(lines(self@.logs).len())
            },
    {
        let count = self.log_line_count();
        if count == 0 {
            "Лог пуст".to_owned()
        } else {
            let number = decimal_text(count as u128);
            cat("Строк в логе: ", number.as_str())
        }
    }

    /// Where the yt-dlp is that the program installs.
    pub fn managed_yt_dlp_path(&self) -> (r: String)
        ensures
            r@ == joined_path(self@.app_dir, "yt-dlp.exe"@),
    {
        InstalledProgram::YtDlp.path(self.app_dir.as_str())
    }
}

/// What came of opening the settings file for the user.
pub enum ConfigOpening {
    /// It could not be written before, for this reason.
    SaveFailed(String),
    /// It could not be opened, for this reason.
    OpenFailed(String),
    /// It is open.
    Opened,
}

impl AppModel {
    /// The state after the user chose a theme.
    pub open spec fn with_theme(self, mode: ThemeMode) -> AppModel {
        if mode == self.config.theme_mode {
            self
        } else {
            AppModel {
                config: ConfigModel { theme_mode: mode, ..self.config },
                title_bar: self.title_bar.scheduled(),
                ..self
            }
        }
    }

    /// The state after the settings were written, or were not.
    pub open spec fn after_save(self, error: Option<Seq<char>>) -> AppModel {
        match error {
            Some(err) => self.with_error("Не удалось сохранить конфиг"@, err),
            None => self,
        }
    }

    /// The state after the settings with a new download folder were written, or were not.
    pub open spec fn after_output_path(self, error: Option<Seq<char>>) -> AppModel {
        match error {
            Some(err) => self.with_error("Не удалось сохранить конфиг"@, err),
            None => AppModel {
                status: status(
                    StatusTone::Success,
                    "Путь сохранения обновлен"@,
                    self.config.output_path,
                    None,
                ),
                logs: self.logs + (">>> Путь сохранения: "@ + self.config.output_path + "\n"@),
                ..self
            },
        }
    }

    /// The state after the settings file was opened for the user, or was not.
    pub open spec fn after_opening(self, opening: ConfigOpening) -> AppModel {
        match opening {
            ConfigOpening::SaveFailed(err) => self.with_error(
                "Не удалось сохранить конфиг"@,
                err@,
            ),
            ConfigOpening::OpenFailed(err) => self.with_error("Не удалось открыть конфиг"@, err@),
            ConfigOpening::Opened => self,
        }
    }
}

impl YtDlpApp {
    /// Changes the theme. Tells whether that changed anything; the settings are then to be written.
    pub fn select_theme(&mut self, mode: ThemeMode) -> (r: bool)
        ensures
            final(self)@ == old(self)@.with_theme(mode),
            r == (mode != old(self)@.config.theme_mode),
    {
        if mode == self.config.theme_mode {
            return false;
        }
        self.config.theme_mode = mode;
        self.title_bar.schedule();
        true
    }

    /// Takes one frame for the title bar, while the window is dark or not.
    pub fn sync_native_title_bar(&mut self, effective_dark_mode: bool) -> (r: TitleBarStep)
        ensures
            ({
                let style = title_bar_style(old(self)@.config.theme_mode, effective_dark_mode);
                &&& final(self)@ == (AppModel {
                    title_bar: old(self)@.title_bar.stepped(style).0,
                    ..old(self)@
                })
                &&& r == old(self)@.title_bar.stepped(style).1
            }),
    {
        let style = NativeTitleBarStyle::for_theme(self.config.theme_mode, effective_dark_mode);
        self.title_bar.step(style)
    }

    /// Takes note of how painting the title bar ended.
    pub fn report_title_bar(
        &mut self,
        style: NativeTitleBarStyle,
        result: NativeTitleBarApplyResult,
    ) -> (r: TitleBarFollowUp)
        ensures
            final(self)@ == (AppModel {
                title_bar: old(self)@.title_bar.reported(style, result).0,
                ..old(self)@
            }),
            r == old(self)@.title_bar.reported(style, result).1,
    {
        self.title_bar.report(style, result)
    }

    /// Tells of settings that could not be written.
    pub fn report_save(&mut self, error: Option<&str>)
        ensures
            final(self)@ == old(self)@.after_save(opt_slice(error)),
    {
        if let Some(err) = error {
            self.set_local_error("Не удалось сохранить конфиг", err);
        }
    }

    /// Changes the download folder; the settings are then to be written.
    pub fn set_output_path(&mut self, path: &str)
        ensures
            final(self)@ == (AppModel {
                config: ConfigModel { output_path: path@, ..old(self)@.config },
                ..old(self)@
            }),
    {
        self.config.output_path = path.to_owned();
    }

    /// Tells of a new download folder, or of settings that could not be written.
    pub fn report_output_path(&mut self, error: Option<&str>)
        ensures
            final(self)@ == old(self)@.after_output_path(opt_slice(error)),
    {
        match error {
            Some(err) => self.set_local_error("Не удалось сохранить конфиг", err),
            None => {
                self.status = StatusMessage::new(
                    StatusTone::Success,
                    "Путь сохранения обновлен",
                    self.config.output_path.as_str(),
                    None,
                );
                let line = cat3(">>> Путь сохранения: ", self.config.output_path.as_str(), "\n");
                self.logs.append(line.as_str());
            },
        }
    }

    /// Tells of a download folder that could not be opened.
    pub fn report_open_folder(&mut self, error: Option<&str>)
        ensures
            final(self)@ == match error {
                Some(err) => old(self)@.with_error("Не удалось открыть папку"@, err@),
                None => old(self)@,
            },
    {
        if let Some(err) = error {
            self.set_local_error("Не удалось открыть папку", err);
        }
    }

    /// Tells of a settings file that could not be opened.
    pub fn report_open_config(&mut self, opening: ConfigOpening)
        ensures
            final(self)@ == old(self)@.after_opening(opening),
    {
        match opening {
            ConfigOpening::SaveFailed(err) => self.set_local_error(
                "Не удалось сохранить конфиг",
                err.as_str(),
            ),
            ConfigOpening::OpenFailed(err) => self.set_local_error(
                "Не удалось открыть конфиг",
                err.as_str(),
            ),
            ConfigOpening::Opened => {},
        }
    }
}

/// The log only ever grows with a message, and no message touches the links, the settings or the
/// open dialog.
pub proof fn law_messages_keep_the_users_work(app: AppModel, message: MessageModel)
    ensures
        app.handled(message).urls == app.urls,
        app.handled(message).config == app.config,
        app.handled(message).profile_dialog == app.profile_dialog,
        app.handled(message).profile_dialog_text == app.profile_dialog_text,
        app.handled(message).selected_update_components == app.selected_update_components,
        app.logs.len() <= app.handled(message).logs.len(),
        app.handled(message).logs.take(app.logs.len() as int) == app.logs,
{
    assert(app.handled(message).logs.take(app.logs.len() as int) =~= app.logs);
}

/// Going back from the settings or from the page about the program leads back to what was shown
/// before, in the size that it had.
pub proof fn law_pages_lead_back(app: AppModel)
    requires
        !app.show_settings,
        !app.show_about,
    ensures
        app.with_settings(true).page() == Page::Settings,
        app.with_about(true).page() == Page::About,
        app.with_settings(true).window_size() == WindowSize::Page,
        app.with_about(true).window_size() == WindowSize::Page,
        app.with_settings(true).with_settings(false) == app,
        app.with_about(true).with_about(false) == app,
        app.window_size() == main_size(app.show_logs),
{
    assert(app.with_settings(true).with_settings(false) =~= app);
    assert(app.with_about(true).with_about(false) =~= app);
}

/// A line of the log is added at its end; a status replaces the one that is shown; news of components
/// and of the one that is being updated replace what was known. Nothing else changes, and the window
/// stays open.
pub proof fn law_messages_are_shown(app: &mut YtDlpApp, message: AppMessage, r: bool)
    requires
        !(message is AllFinished),
        call_ensures(YtDlpApp::handle_message, (app, message), r),
    ensures
        !r,
        message matches AppMessage::Log(line) ==> final(app)@ == (AppModel {
            logs: old(app).logs@ + line@ + "\n"@,
            ..old(app)@
        }),
        message matches AppMessage::Status(line) ==> final(app)@ == (AppModel {
            status: line@,
            ..old(app)@
        }),
        message matches AppMessage::UpdateSnapshot(list) ==> final(app)@ == (AppModel {
            component_states: components(list@),
            ..old(app)@
        }),
        message matches AppMessage::UpdatingComponent(kind) ==> final(app)@ == (AppModel {
            updating_component: kind,
            ..old(app)@
        }),
{
}

/// The end of the background work lets the user work again, and shows its title and detail in the tone
/// of an error exactly where there was one. The window closes exactly where a restart is needed.
pub proof fn law_end_of_work_is_shown(app: &mut YtDlpApp, finish: FinishState, r: bool)
    requires
        call_ensures(YtDlpApp::handle_message, (app, AppMessage::AllFinished(finish)), r),
    ensures
        r == finish.restart_required,
        !final(app).is_working,
        final(app).status.tone == StatusTone::Error <==> finish.had_error,
        final(app).status.tone == StatusTone::Success <==> !finish.had_error,
        final(app).status.title@ == finish.title@,
        final(app).status.detail@ == finish.detail@,
        final(app).status.progress is None,
        final(app).logs@ == if finish.restart_required {
            old(app).logs@ + ">>> Готово.\n"@ + ">>> Перезапуск для установки новой версии.\n"@
        } else {
            old(app).logs@ + ">>> Готово.\n"@
        },
        final(app)@ == (AppModel {
            is_working: false,
            status: final(app)@.status,
            logs: final(app)@.logs,
            ..old(app)@
        }),
{
    let end = old(app).logs@ + ">>> Готово.\n"@;
    assert(end + Seq::<char>::empty() =~= end);
    assert(final(app)@ =~= (AppModel {
        is_working: false,
        status: final(app)@.status,
        logs: final(app)@.logs,
        ..old(app)@
    }));
}

/// Something that went wrong in the window is shown as an error and added to the log; nothing else
/// changes.
pub proof fn law_local_error_is_shown(app: &mut YtDlpApp, title: &str, detail: &str)
    requires
        call_ensures(YtDlpApp::set_local_error, (app, title, detail), ()),
    ensures
        final(app)@ == (AppModel {
            logs: old(app).logs@ + (">>> "@ + title@ + ": "@ + detail@ + "\n"@),
            status: StatusModel {
                tone: StatusTone::Error,
                title: title@,
                detail: detail@,
                progress: None,
            },
            ..old(app)@
        }),
{
}

/// A window opens on the main page with one empty link, the given settings and folder, and nothing under
/// way.
pub proof fn law_window_opens(
    config: AppConfig,
    messages: Vec<String>,
    app_dir: &str,
    config_path: &str,
    r: YtDlpApp,
    page: Page,
)
    requires
        call_ensures(YtDlpApp::new, (config, &messages, app_dir, config_path), r),
        call_ensures(YtDlpApp::page, (&r,), page),
    ensures
        page == Page::Main,
        r.config@ == config@,
        r.app_dir@ == app_dir@,
        r.config_path@ == config_path@,
        r.urls@.len() == 1 && r.urls@[0]@.len() == 0,
        !r.is_working && !r.show_logs && !r.show_update_confirm,
        r.profile_dialog is None,
        r.component_states@.len() == 0,
        r.selected_update_components@.len() == 0,
        r.updating_component is None,
{
    assert(texts(r.urls@).len() == r.urls@.len());
    assert(texts(r.urls@)[0] == r.urls@[0]@);
    assert(components(r.component_states@).len() == r.component_states@.len());
}

/// What is said of the settings is logged line by line when a window opens, and the last of it is shown
/// as a warning; without any the log is empty and the status idle.
pub proof fn law_window_tells_of_settings(
    config: AppConfig,
    front: Vec<String>,
    last: &str,
    all: Vec<String>,
    app_dir: &str,
    config_path: &str,
    before: YtDlpApp,
    shown: &str,
    idle: StatusMessage,
    r: YtDlpApp,
)
    requires
        texts(all@) == texts(front@).push(last@),
        call_ensures(YtDlpApp::new, (config, &front, app_dir, config_path), before),
        call_ensures(YtDlpApp::new, (config, &all, app_dir, config_path), r),
        call_ensures(without_mark, (last,), shown),
        call_ensures(StatusMessage::idle, (), idle),
    ensures
        r.logs@ == before.logs@ + last@ + "\n"@,
        r.status.tone == StatusTone::Warning,
        r.status.title@ == "Проверьте конфигурацию"@,
        r.status.detail@ == shown@,
        front@.len() == 0 ==> before.logs@.len() == 0 && before.status@ == idle@,
{
    assert(texts(all@).drop_last() =~= texts(front@));
    assert(texts(front@).len() == front@.len());
}

/// The settings come before the page about the program, that one before the list of links, and the main
/// page last.
pub proof fn law_page_that_is_shown(app: YtDlpApp, r: Page)
    requires
        call_ensures(YtDlpApp::page, (&app,), r),
    ensures
        r == Page::Settings <==> app.show_settings,
        r == Page::About <==> app.show_about && !app.show_settings,
        r == Page::UrlEditor <==> app.show_url_editor && !app.show_about && !app.show_settings,
        r == Page::Main <==> !app.show_url_editor && !app.show_about && !app.show_settings,
{
}

/// Opening and closing pages changes nothing but what is shown: the window has the size of a page while
/// one is open, and otherwise the size with the log exactly where the log is shown.
pub proof fn law_pages_open_and_close(
    settings: &mut YtDlpApp,
    no_settings: &mut YtDlpApp,
    about: &mut YtDlpApp,
    no_about: &mut YtDlpApp,
    opened: WindowSize,
    closed: WindowSize,
    opened_about: WindowSize,
    closed_about: WindowSize,
)
    requires
        call_ensures(YtDlpApp::open_settings, (settings,), opened),
        call_ensures(YtDlpApp::close_settings, (no_settings,), closed),
        call_ensures(YtDlpApp::open_about, (about,), opened_about),
        call_ensures(YtDlpApp::close_about, (no_about,), closed_about),
    ensures
        final(settings)@ == (AppModel { show_settings: true, ..old(settings)@ }),
        opened == WindowSize::Page,
        final(no_settings)@ == (AppModel { show_settings: false, ..old(no_settings)@ }),
        closed == WindowSize::Log <==> old(no_settings).show_logs,
        closed == WindowSize::Main <==> !old(no_settings).show_logs,
        final(about)@ == (AppModel { show_about: true, ..old(about)@ }),
        opened_about == WindowSize::Page,
        final(no_about)@ == (AppModel { show_about: false, ..old(no_about)@ }),
        closed_about == WindowSize::Log <==> old(no_about).show_logs,
        closed_about == WindowSize::Main <==> !old(no_about).show_logs,
{
}

/// The button of the log shows it where it is hidden and hides it where it is shown; its label says
/// which of the two, and the window has the size for what is then shown.
pub proof fn law_log_is_toggled(app: &mut YtDlpApp, r: WindowSize, label: &'static str)
    requires
        call_ensures(YtDlpApp::toggle_logs, (app,), r),
        call_ensures(YtDlpApp::log_button_label, (&*old(app),), label),
    ensures
        final(app)@ == (AppModel { show_logs: !old(app).show_logs, ..old(app)@ }),
        r == WindowSize::Log <==> final(app).show_logs,
        r == WindowSize::Main <==> !final(app).show_logs,
        old(app).show_logs ==> label@ == "Скрыть лог"@,
        !old(app).show_logs ==> label@ == "Показать лог"@,
{
}

/// A log that is shown and empty is hidden, and a log with anything in it stays as it is; the window is
/// made smaller only where the main page is shown.
pub proof fn law_empty_log_is_hidden(app: &mut YtDlpApp, r: Option<WindowSize>)
    requires
        call_ensures(YtDlpApp::hide_empty_log, (app,), r),
    ensures
        final(app)@ == (AppModel { show_logs: final(app).show_logs, ..old(app)@ }),
        final(app).show_logs <==> old(app).show_logs && old(app).logs@.len() > 0,
        r is Some <==> old(app).show_logs && !final(app).show_logs && !old(app).show_settings
            && !old(app).show_about,
        r matches Some(size) ==> size == WindowSize::Main,
{
    assert(final(app)@ =~= (AppModel { show_logs: final(app).show_logs, ..old(app)@ }));
}

/// The log has as many lines as line feeds part it into, and the hint tells their number, or that there
/// are none.
pub proof fn law_log_lines_are_counted(
    app: YtDlpApp,
    log: &str,
    parts: Vec<&str>,
    count: usize,
    hint: String,
)
    requires
        log@ == app.logs@,
        call_ensures(split_lines, (log,), parts),
        call_ensures(YtDlpApp::log_line_count, (&app,), count),
        call_ensures(YtDlpApp::log_hint, (&app,), hint),
    ensures
        count == parts@.len(),
        count == 0 ==> hint@ == "Лог пуст"@,
        count > 0 ==> hint@ == "Строк в логе: "@ + decimal(count as nat),
{
    assert(slices(parts@).len() == parts@.len());
}

/// Choosing the theme that is set changes nothing; any other is set, and the title bar is painted
/// anew. Nothing else changes.
pub proof fn law_theme_is_chosen(app: &mut YtDlpApp, mode: ThemeMode, r: bool)
    requires
        call_ensures(YtDlpApp::select_theme, (app, mode), r),
    ensures
        r <==> mode != old(app).config.theme_mode,
        final(app).config.theme_mode == mode,
        !r ==> final(app)@ == old(app)@,
        r ==> final(app)@ == (AppModel {
            config: ConfigModel { theme_mode: mode, ..old(app)@.config },
            title_bar: TitleBarSync { delay: 1, last: old(app).title_bar.last },
            ..old(app)@
        }),
{
}

/// A chosen folder becomes the folder for downloads, and nothing else changes. That it was saved is told
/// with the folder, and that it was not with the reason.
pub proof fn law_folder_is_chosen(
    app: &mut YtDlpApp,
    path: &str,
    told: &mut YtDlpApp,
    error: Option<&str>,
)
    requires
        call_ensures(YtDlpApp::set_output_path, (app, path), ()),
        call_ensures(YtDlpApp::report_output_path, (told, error), ()),
    ensures
        final(app)@ == (AppModel {
            config: ConfigModel { output_path: path@, ..old(app)@.config },
            ..old(app)@
        }),
        error is None ==> final(told)@ == (AppModel {
            status: StatusModel {
                tone: StatusTone::Success,
                title: "Путь сохранения обновлен"@,
                detail: old(told).config.output_path@,
                progress: None,
            },
            logs: old(told).logs@ + (">>> Путь сохранения: "@ + old(told).config.output_path@
                + "\n"@),
            ..old(told)@
        }),
        error matches Some(err) ==> final(told)@ == shows_error(
            old(told)@,
            "Не удалось сохранить конфиг"@,
            err@,
        ),
{
}

/// The state in which something that went wrong is logged and shown.
pub open spec fn shows_error(app: AppModel, title: Seq<char>, detail: Seq<char>) -> AppModel {
    AppModel {
        logs: app.logs + (">>> "@ + title + ": "@ + detail + "\n"@),
        status: StatusModel { tone: StatusTone::Error, title, detail, progress: None },
        ..app
    }
}

/// What could not be saved or opened is told with its reason; where nothing went wrong nothing changes.
pub proof fn law_failures_are_told(
    saved: &mut YtDlpApp,
    folder: &mut YtDlpApp,
    settings: &mut YtDlpApp,
    error: Option<&str>,
    opening: ConfigOpening,
)
    requires
        call_ensures(YtDlpApp::report_save, (saved, error), ()),
        call_ensures(YtDlpApp::report_open_folder, (folder, error), ()),
        call_ensures(YtDlpApp::report_open_config, (settings, opening), ()),
    ensures
        error is None ==> final(saved)@ == old(saved)@ && final(folder)@ == old(folder)@,
        error matches Some(err) ==> final(saved)@ == shows_error(
            old(saved)@,
            "Не удалось сохранить конфиг"@,
            err@,
        ) && final(folder)@ == shows_error(old(folder)@, "Не удалось открыть папку"@, err@),
        opening is Opened ==> final(settings)@ == old(settings)@,
        opening matches ConfigOpening::SaveFailed(err) ==> final(settings)@ == shows_error(
            old(settings)@,
            "Не удалось сохранить конфиг"@,
            err@,
        ),
        opening matches ConfigOpening::OpenFailed(err) ==> final(settings)@ == shows_error(
            old(settings)@,
            "Не удалось открыть конфиг"@,
            err@,
        ),
{
}

} // verus!
