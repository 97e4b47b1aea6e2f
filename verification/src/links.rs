//! The list of links, and the start of their download.
use crate::app_state::{shows_error, AppModel, YtDlpApp};
use crate::download::{DownloadRun, RunModel};
use crate::config::AppConfig;
use crate::paths::{join_path, joined_path, DOWNLOAD_ARCHIVE_FILE};
use crate::profile::{file_pattern, lemma_template, DownloadProfile};
use crate::status::{status, StatusMessage, StatusModel, StatusTone};
use crate::text::{
    all_white, cat, cat3, decimal, decimal_text, lemma_blank_iff_white, texts, trim, trim_parts,
    trimmed, trimmed_parts,
};
use crate::updater::{ComponentModel, ComponentStatus};
use vstd::prelude::*;

verus! {

/// The links of `list` that are not blank.
pub open spec fn not_blank(list: Seq<Seq<char>>) -> Seq<Seq<char>>
    decreases list.len(),
{
    if list.len() == 0 {
        Seq::empty()
    } else if trimmed(list.last()).len() == 0 {
        not_blank(list.drop_last())
    } else {
        not_blank(list.drop_last()).push(list.last())
    }
}

/// The place of a link in the list, with at least two digits.
pub open spec fn place_text(n: nat) -> Seq<char> {
    if n < 10 {
        "0"@ + decimal(n) + "."@
    } else {
        decimal(n) + "."@
    }
}

/// What came of the preparations for a download.
pub enum Preparation {
    /// The download folder could not be created, for this reason.
    FolderFailed(String),
    /// The settings could not be written, for this reason.
    SaveFailed(String),
    /// All is ready, if yt-dlp is there.
    Prepared { has_yt_dlp: bool },
}

/// The button that starts the download.
#[derive(Clone, Copy)]
pub struct DownloadButton {
    pub label: &'static str,
    pub enabled: bool,
    /// What is said beside it.
    pub hint: Option<&'static str>,
}

/// Whether a component of `list` is missing.
pub open spec fn has_missing(list: Seq<ComponentModel>) -> bool {
    exists|i: int| 0 <= i < list.len() && (#[trigger] list[i]).status == ComponentStatus::Missing
}

impl AppModel {
    /// The state after the link at `at` was taken away. The last link is emptied instead.
    pub open spec fn without_url(self, at: int) -> AppModel {
        AppModel {
            urls: if self.urls.len() > 1 {
                self.urls.remove(at)
            } else {
                seq![Seq::empty()]
            },
            ..self
        }
    }

    /// The state after blank links were taken away. An empty one is left where there was no other.
    pub open spec fn without_blank_urls(self) -> AppModel {
        AppModel {
            urls: if not_blank(self.urls).len() == 0 {
                seq![Seq::empty()]
            } else {
                not_blank(self.urls)
            },
            ..self
        }
    }

    /// What yt-dlp is to download: the links without the white space round them, but for blank
    /// ones.
    pub open spec fn valid_urls(self) -> Seq<Seq<char>> {
        trimmed_parts(self.urls)
    }

    /// The downloads that begin now.
    pub open spec fn new_run(self) -> RunModel {
        RunModel {
            urls: self.valid_urls(),
            config_args: self.config.active().yt_dlp_args(
                joined_path(self.app_dir, DOWNLOAD_ARCHIVE_FILE@),
            ),
            output_template: self.config.active().output_template(self.config.output_path),
            done: 0,
            last_error: None,
        }
    }

    /// Whether the downloads begin after these preparations.
    pub open spec fn can_start(self, preparation: Preparation) -> bool {
        preparation == (Preparation::Prepared { has_yt_dlp: true }) && self.valid_urls().len() > 0
    }

    /// The state after these preparations for a download.
    pub open spec fn started(self, preparation: Preparation) -> AppModel {
        match preparation {
            Preparation::FolderFailed(err) => self.with_error(
                "Не удалось создать папку загрузок"@,
                self.config.output_path + ": "@ + err@,
            ),
            Preparation::SaveFailed(err) => self.with_error(
                "Не удалось сохранить конфиг"@,
                self.config_path + ": "@ + err@,
            ),
            Preparation::Prepared { has_yt_dlp } => if !has_yt_dlp {
                self.with_error(
                    "yt-dlp.exe не найден"@,
                    "Сначала установите его через Обновить"@,
                )
            } else if self.valid_urls().len() == 0 {
                self.with_error("Список ссылок пуст"@, "Добавьте хотя бы одну ссылку"@)
            } else {
                let total = decimal(self.valid_urls().len());
                AppModel {
                    is_working: true,
                    logs: ">>> Старт: "@ + total + " файл(ов)\n"@,
                    status: status(
                        StatusTone::Running,
                        "Подготовка загрузки"@,
                        "В очереди: "@ + total + " файл(ов)"@,
                        Some((0, self.valid_urls().len() as usize)),
                    ),
                    ..self
                }
            },
        }
    }

    /// Whether the button that starts the download can be pressed, where yt-dlp is there or not.
    pub open spec fn can_download(self, downloader_ready: bool) -> bool {
        !self.is_working && downloader_ready && !has_missing(self.component_states)
            && self.component_states.len() > 0
    }
}

impl YtDlpApp {
    /// Opens the list of links.
    pub fn open_url_editor(&mut self)
        ensures
            final(self)@ == (AppModel { show_url_editor: true, ..old(self)@ }),
    {
        self.show_url_editor = true;
    }

    /// Goes back from the list of links.
    pub fn close_url_editor(&mut self)
        ensures
            final(self)@ == (AppModel { show_url_editor: false, ..old(self)@ }),
    {
        self.show_url_editor = false;
    }

    /// What the button that opens the list says.
    pub fn open_list_label(&self) -> (r: String)
        ensures
            r@ == "Открыть список ("@ + decimal(self@.urls.len()) + ")"@,
    {
        let count = decimal_text(self.urls.len() as u128);
        cat3("Открыть список (", count.as_str(), ")")
    }

    /// How many links there are, in words.
    pub fn url_count_label(&self) -> (r: String)
        ensures
            r@ == decimal(self@.urls.len()) + " ссылок"@,
    {
        let count = decimal_text(self.urls.len() as u128);
        cat(count.as_str(), " ссылок")
    }

    /// The place of the link at `at`, in words.
    pub fn place_label(at: usize) -> (r: String)
        ensures
            r@ == place_text((at + 1) as nat),
    {
        let place: u128 = at as u128 + 1;
        let digits = decimal_text(place);
        if place < 10 {
            cat3("0", digits.as_str(), ".")
        } else {
            cat(digits.as_str(), ".")
        }
    }

    /// Puts `text` in place of the link at `at`.
    pub fn set_url(&mut self, at: usize, text: &str)
        requires
            at < old(self)@.urls.len(),
        ensures
            final(self)@ == (AppModel {
                urls: old(self)@.urls.update(at as int, text@),
                ..old(self)@
            }),
            final(self)@.urls.len() == old(self)@.urls.len(),
    {
        self.urls.set(at, text.to_owned());
        assert(self@.urls =~= old(self)@.urls.update(at as int, text@));
    }

    /// Adds an empty link at the end.
    pub fn add_url(&mut self)
        ensures
            final(self)@ == (AppModel {
                urls: old(self)@.urls.push(Seq::empty()),
                ..old(self)@
            }),
            final(self)@.well_formed(),
    {
        self.urls.push(String::new());
        assert(self@.urls =~= old(self)@.urls.push(Seq::empty()));
    }

    /// Takes away the link at `at`. The last link is emptied instead.
    pub fn remove_url(&mut self, at: usize)
        requires
            at < old(self)@.urls.len(),
        ensures
            final(self)@ == old(self)@.without_url(at as int),
            final(self)@.well_formed(),
    {
        if self.urls.len() > 1 {
            self.urls.remove(at);
            assert(self@.urls =~= old(self)@.urls.remove(at as int));
        } else {
            self.urls.set(0, String::new());
            assert(self@.urls =~= seq![Seq::<char>::empty()]);
        }
    }

    /// Takes away blank links. An empty one is left where there was no other.
    pub fn drop_blank_urls(&mut self)
        ensures
            final(self)@ == old(self)@.without_blank_urls(),
            final(self)@.well_formed(),
    {
        let ghost all = self@.urls;
        let mut kept: Vec<String> = Vec::new();
        let mut i: usize = 0;
        while i < self.urls.len()
            invariant
                i <= self.urls.len(),
                *self == *old(self),
                all == self@.urls,
                texts(kept@) =~= not_blank(all.take(i as int)),
            decreases self.urls.len() - i,
        {
            let ghost seen = all.take(i + 1);
            assert(seen.drop_last() =~= all.take(i as int));
            assert(seen.last() == self.urls@[i as int]@);
            if !trim(self.urls[i].as_str()).is_empty() {
                kept.push(self.urls[i].clone());
            }
            i = i + 1;
        }
        assert(all.take(all.len() as int) =~= all);
        if kept.len() == 0 {
            kept.push(String::new());
            assert(texts(kept@) =~= seq![Seq::<char>::empty()]);
        }
        self.urls = kept;
    }

    /// Whether a component is missing.
    fn lacks_component(&self) -> (r: bool)
        ensures
            r == has_missing(self@.component_states),
    {
        let mut i: usize = 0;
        while i < self.component_states.len()
            invariant
                i <= self.component_states.len(),
                forall|j: int|
                    0 <= j < i ==> (#[trigger] self@.component_states[j]).status
                        != ComponentStatus::Missing,
            decreases self.component_states.len() - i,
        {
            assert(self@.component_states[i as int] == self.component_states@[i as int]@);
            if self.component_states[i].status == ComponentStatus::Missing {
                return true;
            }
            i = i + 1;
        }
        false
    }

    /// The button that starts the download, where yt-dlp is there or not.
    pub fn download_button(&self, downloader_ready: bool) -> (r: DownloadButton)
        ensures
            r.label@ == if self@.is_working {
                "СКАЧИВАЕТСЯ"@
            } else if self@.urls.len() > 1 && self@.urls[1].len() > 0 {
                "СКАЧАТЬ ВСЕ"@
            } else {
                "СКАЧАТЬ"@
            },
            r.enabled == self@.can_download(downloader_ready),
            match r.hint {
                Some(hint) => !self@.is_working && !downloader_ready
                    && self@.component_states.len() > 0 && hint@
                    == "Установите yt-dlp в разделе «О программе»."@,
                None => self@.is_working || downloader_ready || self@.component_states.len() == 0,
            },
    {
        if self.is_working {
            return DownloadButton { label: "СКАЧИВАЕТСЯ", enabled: false, hint: None };
        }
        let is_checking = self.is_checking();
        let label = if self.urls.len() > 1 && !self.urls[1].as_str().is_empty() {
            "СКАЧАТЬ ВСЕ"
        } else {
            "СКАЧАТЬ"
        };
        let hint = if !downloader_ready && !is_checking {
            Some("Установите yt-dlp в разделе «О программе».")
        } else {
            None
        };
        DownloadButton {
            label,
            enabled: downloader_ready && !self.lacks_component() && !is_checking,
            hint,
        }
    }

    /// Starts the download of the links, where the preparations allow it.
    pub fn start_download(&mut self, preparation: Preparation) -> (r: Option<DownloadRun>)
        ensures
            final(self)@ == old(self)@.started(preparation),
            match r {
                Some(run) => old(self)@.can_start(preparation) && run@ == old(self)@.new_run(),
                None => !old(self)@.can_start(preparation),
            },
    {
        match preparation {
            Preparation::FolderFailed(err) => {
                let detail = cat3(self.config.output_path.as_str(), ": ", err.as_str());
                self.set_local_error("Не удалось создать папку загрузок", detail.as_str());
                return None;
            },
            Preparation::SaveFailed(err) => {
                let detail = cat3(self.config_path.as_str(), ": ", err.as_str());
                self.set_local_error("Не удалось сохранить конфиг", detail.as_str());
                return None;
            },
            Preparation::Prepared { has_yt_dlp } => {
                if !has_yt_dlp {
                    self.set_local_error(
                        "yt-dlp.exe не найден",
                        "Сначала установите его через Обновить",
                    );
                    return None;
                }
            },
        }
        let urls = trim_parts(&self.urls);
        assert(texts(urls@).len() == urls@.len());
        if urls.len() == 0 {
            self.set_local_error("Список ссылок пуст", "Добавьте хотя бы одну ссылку");
            return None;
        }
        self.is_working = true;
        let count: usize = urls.len();
        let total = decimal_text(count as u128);
        self.logs = cat3(">>> Старт: ", total.as_str(), " файл(ов)\n");
        let detail = cat3("В очереди: ", total.as_str(), " файл(ов)");
        self.status = StatusMessage::new(
            StatusTone::Running,
            "Подготовка загрузки",
            detail.as_str(),
            Some((0, count)),
        );
        let profile = self.config.active_profile();
        let archive_path = join_path(self.app_dir.as_str(), DOWNLOAD_ARCHIVE_FILE);
        let run = DownloadRun {
            urls,
            config_args: profile.to_yt_dlp_args(archive_path.as_str()),
            output_template: profile.output_template(self.config.output_path.as_str()),
            done: 0,
            last_error: None,
        };
        assert(run@ =~= old(self)@.new_run());
        Some(run)
    }
}

/// A download that is started has a link to download, shows that it is under way, and gives
/// yt-dlp the arguments of the active profile.
pub proof fn law_started_download_has_work(app: AppModel, preparation: Preparation)
    ensures
        app.can_start(preparation) ==> {
            &&& app.new_run().has_next()
            &&& app.started(preparation).is_working
            &&& app.new_run().config_args == app.config.active().yt_dlp_args(
                joined_path(app.app_dir, DOWNLOAD_ARCHIVE_FILE@),
            )
        },
        !app.can_start(preparation) ==> {
            &&& app.started(preparation).is_working == app.is_working
            &&& app.started(preparation).status.tone == StatusTone::Error
        },
        app.started(preparation).urls == app.urls,
        app.started(preparation).config == app.config,
{
}

/// Taking away blank links takes away nothing that would be downloaded.
pub proof fn law_blank_links_are_not_downloaded(app: AppModel)
    ensures
        app.without_blank_urls().valid_urls() == app.valid_urls(),
{
    lemma_not_blank(app.urls);
    if not_blank(app.urls).len() == 0 {
        let one = seq![Seq::<char>::empty()];
        assert(one.drop_last() =~= Seq::<Seq<char>>::empty());
        reveal_with_fuel(trimmed_parts, 2);
    }
}

proof fn lemma_not_blank(list: Seq<Seq<char>>)
    ensures
        trimmed_parts(not_blank(list)) == trimmed_parts(list),
        not_blank(list).len() == 0 ==> trimmed_parts(list).len() == 0,
    decreases list.len(),
{
    if list.len() > 0 {
        let front = list.drop_last();
        lemma_not_blank(front);
        if trimmed(list.last()).len() > 0 {
            let kept = not_blank(front).push(list.last());
            assert(kept.drop_last() =~= not_blank(front));
            assert(kept.last() == list.last());
        }
    }
}

/// A download that starts puts its files into the download folder of the settings, whatever that
/// folder is and wherever the program itself is: the output template is that folder without the
/// separators at its end, a slash, and how the active profile names files.
pub proof fn law_download_goes_to_the_chosen_folder(
    app: &mut YtDlpApp,
    preparation: Preparation,
    run: DownloadRun,
    active: DownloadProfile,
    cut: int,
)
    requires
        call_ensures(YtDlpApp::start_download, (app, preparation), Some(run)),
        call_ensures(AppConfig::active_profile, (&old(app).config,), active),
        ({
            let folder = old(app).config.output_path@;
            &&& 0 <= cut <= folder.len()
            &&& cut > 0 ==> folder[cut - 1] != '/' && folder[cut - 1] != '\\'
            &&& forall|i: int|
                cut <= i < folder.len() ==> #[trigger] folder[i] == '/' || folder[i] == '\\'
        }),
    ensures
        run.output_template@ == old(app).config.output_path@.take(cut) + "/"@ + file_pattern(
            active.kind,
            active.file_name_template,
        ),
        "/"@ + file_pattern(active.kind, active.file_name_template) == seq!['/', '%', '('] + (("/"@
            + file_pattern(active.kind, active.file_name_template)).skip(3)),
{
    let model = old(app)@;
    assert(run@.output_template == run.output_template@);
    assert(active@.kind == active.kind && active@.file_name_template == active.file_name_template);
    lemma_template(active@, old(app).config.output_path@, cut);
    reveal_strlit("/");
    reveal_strlit("%(title)s.%(ext)s");
    reveal_strlit("%(artist,uploader|Unknown Artist)s - %(track,title)s.%(ext)s");
    let tail = "/"@ + file_pattern(active.kind, active.file_name_template);
    assert(tail =~= seq!['/', '%', '('] + tail.skip(3));
}

/// Two windows that differ in the download folder and in nothing else that matters to it start runs
/// whose templates differ in that folder alone: what follows it is the same.
pub proof fn law_folders_differ_in_templates(
    app: &mut YtDlpApp,
    other: &mut YtDlpApp,
    preparation: Preparation,
    run: DownloadRun,
    other_run: DownloadRun,
)
    requires
        call_ensures(YtDlpApp::start_download, (app, preparation), Some(run)),
        call_ensures(YtDlpApp::start_download, (other, preparation), Some(other_run)),
        old(app)@.config.active() == old(other)@.config.active(),
        old(app).config.output_path@.len() > 0,
        !is_separator_at_end(old(app).config.output_path@),
        old(other).config.output_path@.len() > 0,
        !is_separator_at_end(old(other).config.output_path@),
    ensures
        exists|tail: Seq<char>|
            run.output_template@ == #[trigger] (old(app).config.output_path@ + tail)
                && other_run.output_template@ == old(other).config.output_path@ + tail,
{
    let a = old(app).config.output_path@;
    let b = old(other).config.output_path@;
    let active = old(app)@.config.active();
    lemma_template(active, a, a.len() as int);
    lemma_template(active, b, b.len() as int);
    assert(a.take(a.len() as int) =~= a);
    assert(b.take(b.len() as int) =~= b);
    assert(run@.output_template == run.output_template@);
    assert(other_run@.output_template == other_run.output_template@);
    let tail = "/"@ + file_pattern(active.kind, active.file_name_template);
    assert(a + "/"@ + file_pattern(active.kind, active.file_name_template) =~= a + tail);
    assert(b + "/"@ + file_pattern(active.kind, active.file_name_template) =~= b + tail);
}

/// Whether the text ends with a path separator.
pub open spec fn is_separator_at_end(s: Seq<char>) -> bool {
    s.len() > 0 && (s.last() == '/' || s.last() == '\\')
}

/// A download that starts is about the links of the list, in order, without the white space round
/// them and without blank ones, from the first on. Yt-dlp is given the arguments of the active
/// profile, and the list of what was downloaded already stands beside the program.
pub proof fn law_download_takes_the_links(
    app: &mut YtDlpApp,
    preparation: Preparation,
    run: DownloadRun,
    links: Vec<String>,
    active: DownloadProfile,
    folder: &str,
    archive: String,
    archive_path: &str,
    args: Vec<String>,
)
    requires
        call_ensures(YtDlpApp::start_download, (app, preparation), Some(run)),
        call_ensures(trim_parts, (&old(app).urls,), links),
        call_ensures(AppConfig::active_profile, (&old(app).config,), active),
        folder@ == old(app).app_dir@,
        call_ensures(join_path, (folder, "download-archive.txt"), archive),
        archive_path@ == archive@,
        call_ensures(DownloadProfile::to_yt_dlp_args, (&active, archive_path), args),
    ensures
        texts(run.urls@) == texts(links@),
        texts(run.config_args@) == texts(args@),
        run.done == 0,
        run.last_error is None,
        links@.len() > 0,
{
    assert(run@.urls == texts(run.urls@));
    assert(run@.config_args == texts(run.config_args@));
    assert(texts(links@).len() == links@.len());
}

/// A download starts exactly where the folder could be made, the settings could be written, yt-dlp is
/// there and a link is more than white space. Then the window shows that it is under way; otherwise
/// it shows an error, and nothing is under way that was not before.
pub proof fn law_download_starts_when_ready(
    app: &mut YtDlpApp,
    preparation: Preparation,
    r: Option<DownloadRun>,
)
    requires
        call_ensures(YtDlpApp::start_download, (app, preparation), r),
    ensures
        r is Some <==> preparation == (Preparation::Prepared { has_yt_dlp: true }) && exists|i: int|
            0 <= i < old(app).urls@.len() && !all_white((#[trigger] old(app).urls@[i])@),
        r is Some ==> final(app)@.is_working && final(app)@.status.tone == StatusTone::Running,
        r is None ==> final(app)@.is_working == old(app)@.is_working
            && final(app)@.status.tone == StatusTone::Error,
        final(app)@.urls == old(app)@.urls,
        final(app)@.config == old(app)@.config,
        final(app)@.component_states == old(app)@.component_states,
        final(app)@.profile_dialog == old(app)@.profile_dialog,
        preparation matches Preparation::FolderFailed(err) ==> final(app)@.status.detail
            == old(app)@.config.output_path + ": "@ + err@,
        preparation matches Preparation::SaveFailed(err) ==> final(app)@.status.detail
            == old(app)@.config_path + ": "@ + err@,
{
    let list = old(app)@.urls;
    lemma_some_link(list);
    assert forall|i: int| 0 <= i < list.len() implies #[trigger] list[i] == old(app).urls@[i]@ by {}
    if exists|i: int| 0 <= i < old(app).urls@.len() && !all_white((#[trigger] old(app).urls@[i])@) {
        let i = choose|i: int|
            0 <= i < old(app).urls@.len() && !all_white((#[trigger] old(app).urls@[i])@);
        assert(list[i] == old(app).urls@[i]@);
    }
    if exists|i: int| 0 <= i < list.len() && !all_white(#[trigger] list[i]) {
        let i = choose|i: int| 0 <= i < list.len() && !all_white(#[trigger] list[i]);
        assert(old(app).urls@[i]@ == list[i]);
    }
}

/// Something is left of a list exactly where one of its texts is more than white space.
proof fn lemma_some_link(list: Seq<Seq<char>>)
    ensures
        trimmed_parts(list).len() > 0 <==> exists|i: int|
            0 <= i < list.len() && !all_white(#[trigger] list[i]),
    decreases list.len(),
{
    if list.len() > 0 {
        let front = list.drop_last();
        let last = list.len() - 1;
        lemma_some_link(front);
        lemma_blank_iff_white(list[last]);
        if exists|i: int| 0 <= i < front.len() && !all_white(#[trigger] front[i]) {
            let i = choose|i: int| 0 <= i < front.len() && !all_white(#[trigger] front[i]);
            assert(list[i] == front[i]);
        }
        if exists|i: int| 0 <= i < list.len() && !all_white(#[trigger] list[i]) {
            let i = choose|i: int| 0 <= i < list.len() && !all_white(#[trigger] list[i]);
            if i < last {
                assert(front[i] == list[i]);
            }
        }
        assert(trimmed(list[last]).len() > 0 ==> !all_white(list[last]));
    }
}

/// Each change of the list of links changes that list alone: a link is put in its place, added at the
/// end or taken away, the others stay in their order, and there is always one left, if only an empty
/// one.
pub proof fn law_links_are_edited(app: &mut YtDlpApp, at: usize, text: &str)
    requires
        at < old(app)@.urls.len(),
    ensures
        call_ensures(YtDlpApp::set_url, (app, at, text), ()) ==> {
            &&& final(app)@.urls.len() == old(app)@.urls.len()
            &&& final(app)@.urls[at as int] == text@
            &&& forall|i: int|
                0 <= i < old(app)@.urls.len() && i != at ==> #[trigger] final(app)@.urls[i]
                    == old(app)@.urls[i]
            &&& final(app)@ == (AppModel { urls: final(app)@.urls, ..old(app)@ })
        },
        call_ensures(YtDlpApp::add_url, (app,), ()) ==> {
            &&& final(app)@.urls == old(app)@.urls.push(Seq::empty())
            &&& final(app)@ == (AppModel { urls: final(app)@.urls, ..old(app)@ })
        },
        call_ensures(YtDlpApp::remove_url, (app, at), ()) ==> {
            &&& final(app)@ == (AppModel { urls: final(app)@.urls, ..old(app)@ })
            &&& old(app)@.urls.len() > 1 ==> final(app)@.urls == old(app)@.urls.take(at as int)
                + old(app)@.urls.skip(at + 1)
            &&& old(app)@.urls.len() == 1 ==> final(app)@.urls == seq![Seq::<char>::empty()]
        },
{
    let urls = old(app)@.urls;
    assert(urls.remove(at as int) =~= urls.take(at as int) + urls.skip(at + 1));
}

/// Taking away blank links takes away those alone: a link that is more than white space stays, as it
/// is and in its place among the others.
pub proof fn law_only_blank_links_are_dropped(
    before: Seq<Seq<char>>,
    link: Seq<char>,
    after: Seq<Seq<char>>,
    app: &mut YtDlpApp,
)
    requires
        old(app)@.urls == before + seq![link] + after,
        call_ensures(YtDlpApp::drop_blank_urls, (app,), ()),
    ensures
        final(app)@ == (AppModel { urls: final(app)@.urls, ..old(app)@ }),
        !all_white(link) ==> final(app)@.urls == not_blank(before) + seq![link] + not_blank(after),
        all_white(link) && not_blank(before + after).len() > 0 ==> final(app)@.urls == not_blank(
            before,
        ) + not_blank(after),
        final(app)@.urls.len() > 0,
{
    let one = seq![link];
    assert(one.drop_last() =~= Seq::<Seq<char>>::empty());
    assert(one.last() == link);
    reveal_with_fuel(not_blank, 2);
    lemma_blank_iff_white(link);
    lemma_not_blank_append(before + one, after);
    lemma_not_blank_append(before, one);
    lemma_not_blank_append(before, after);
    if !all_white(link) {
        assert(not_blank(one) =~= one);
    } else {
        assert(not_blank(before) + not_blank(one) =~= not_blank(before));
    }
}

/// The links that are not blank of two lists, one after the other.
proof fn lemma_not_blank_append(a: Seq<Seq<char>>, b: Seq<Seq<char>>)
    ensures
        not_blank(a + b) == not_blank(a) + not_blank(b),
    decreases b.len(),
{
    if b.len() > 0 {
        assert((a + b).drop_last() =~= a + b.drop_last());
        assert((a + b).last() == b.last());
        lemma_not_blank_append(a, b.drop_last());
        assert(not_blank(a + b) =~= not_blank(a) + not_blank(b));
    } else {
        assert(a + b =~= a);
        assert(not_blank(a + b) =~= not_blank(a) + not_blank(b));
    }
}

/// The download can be started exactly while nothing is under way, yt-dlp is there, and the check for
/// updates is over and found no component missing.
pub proof fn law_download_button(app: YtDlpApp, downloader_ready: bool, r: DownloadButton)
    requires
        call_ensures(YtDlpApp::download_button, (&app, downloader_ready), r),
    ensures
        r.enabled <==> !app.is_working && downloader_ready && app.component_states@.len() > 0
            && forall|i: int|
            0 <= i < app.component_states@.len() ==> (#[trigger] app.component_states@[i]).status
                != ComponentStatus::Missing,
{
    let list = app@.component_states;
    assert(list.len() == app.component_states@.len());
    assert forall|i: int| 0 <= i < list.len() implies (#[trigger] list[i]).status
        == app.component_states@[i].status by {
        assert(list[i] == app.component_states@[i]@);
    }
    if has_missing(list) {
        let i = choose|i: int|
            0 <= i < list.len() && (#[trigger] list[i]).status == ComponentStatus::Missing;
        assert(app.component_states@[i].status == ComponentStatus::Missing);
    }
    if exists|i: int|
        0 <= i < app.component_states@.len() && (#[trigger] app.component_states@[i]).status
            == ComponentStatus::Missing {
        let i = choose|i: int|
            0 <= i < app.component_states@.len() && (#[trigger] app.component_states@[i]).status
                == ComponentStatus::Missing;
        assert(list[i].status == ComponentStatus::Missing);
    }
}

/// What the button that starts the download says: that a download is under way, or that all links are
/// downloaded where there is a second one that is not empty, or else that the link is. It hints at the
/// installation of yt-dlp exactly where that is known to be missing and nothing is under way.
pub proof fn law_download_button_tells_its_purpose(
    app: YtDlpApp,
    downloader_ready: bool,
    r: DownloadButton,
)
    requires
        call_ensures(YtDlpApp::download_button, (&app, downloader_ready), r),
    ensures
        app.is_working ==> r.label@ == "СКАЧИВАЕТСЯ"@,
        !app.is_working && app.urls@.len() > 1 && app.urls@[1]@.len() > 0 ==> r.label@
            == "СКАЧАТЬ ВСЕ"@,
        !app.is_working && (app.urls@.len() <= 1 || app.urls@[1]@.len() == 0) ==> r.label@
            == "СКАЧАТЬ"@,
        r.hint is Some <==> !app.is_working && !downloader_ready && app.component_states@.len() > 0,
        r.hint matches Some(hint) ==> hint@ == "Установите yt-dlp в разделе «О программе»."@,
{
    assert(app@.urls.len() == app.urls@.len());
    assert(app@.component_states.len() == app.component_states@.len());
    if app.urls@.len() > 1 {
        assert(app@.urls[1] == app.urls@[1]@);
    }
}

/// A download that starts is shown with the number of its links, and its log begins anew with it; one
/// that does not start is shown as an error that names what is missing.
pub proof fn law_start_is_shown(app: &mut YtDlpApp, preparation: Preparation, r: Option<DownloadRun>)
    requires
        call_ensures(YtDlpApp::start_download, (app, preparation), r),
    ensures
        r matches Some(run) ==> final(app)@ == (AppModel {
            is_working: true,
            logs: ">>> Старт: "@ + decimal(run.urls@.len()) + " файл(ов)\n"@,
            status: StatusModel {
                tone: StatusTone::Running,
                title: "Подготовка загрузки"@,
                detail: "В очереди: "@ + decimal(run.urls@.len()) + " файл(ов)"@,
                progress: Some((0usize, run.urls@.len() as usize)),
            },
            ..old(app)@
        }),
        preparation matches Preparation::FolderFailed(err) ==> final(app)@ == shows_error(
            old(app)@,
            "Не удалось создать папку загрузок"@,
            old(app).config.output_path@ + ": "@ + err@,
        ),
        preparation matches Preparation::SaveFailed(err) ==> final(app)@ == shows_error(
            old(app)@,
            "Не удалось сохранить конфиг"@,
            old(app).config_path@ + ": "@ + err@,
        ),
        preparation == (Preparation::Prepared { has_yt_dlp: false }) ==> final(app)@ == shows_error(
            old(app)@,
            "yt-dlp.exe не найден"@,
            "Сначала установите его через Обновить"@,
        ),
        preparation == (Preparation::Prepared { has_yt_dlp: true }) && r is None ==> final(app)@
            == shows_error(old(app)@, "Список ссылок пуст"@, "Добавьте хотя бы одну ссылку"@),
{
    if let Some(run) = r {
        assert(texts(run.urls@).len() == run.urls@.len());
        assert(run@.urls == texts(run.urls@));
    }
}

/// The list of links is opened and closed without touching the links; its labels tell how many there are,
/// and the place of each from one on, with two digits at least.
pub proof fn law_list_of_links_is_labelled(
    opened: &mut YtDlpApp,
    closed: &mut YtDlpApp,
    app: YtDlpApp,
    at: usize,
    button: String,
    count: String,
    place: String,
)
    requires
        call_ensures(YtDlpApp::open_url_editor, (opened,), ()),
        call_ensures(YtDlpApp::close_url_editor, (closed,), ()),
        call_ensures(YtDlpApp::open_list_label, (&app,), button),
        call_ensures(YtDlpApp::url_count_label, (&app,), count),
        call_ensures(YtDlpApp::place_label, (at,), place),
    ensures
        final(opened)@ == (AppModel { show_url_editor: true, ..old(opened)@ }),
        final(closed)@ == (AppModel { show_url_editor: false, ..old(closed)@ }),
        button@ == "Открыть список ("@ + decimal(app.urls@.len()) + ")"@,
        count@ == decimal(app.urls@.len()) + " ссылок"@,
        at < 9 ==> place@ == "0"@ + decimal((at + 1) as nat) + "."@,
        at >= 9 ==> place@ == decimal((at + 1) as nat) + "."@,
{
    assert(app@.urls.len() == app.urls@.len());
}

} // verus!
