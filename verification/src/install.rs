//! Installing a component: what is done, one action after another, and how it ends.
use crate::archive::{
    install_ffmpeg_from_zip, zip_plan, FfmpegTool, Unpack, UnpackModel, UnpackPlan,
};
use crate::checksum::{
    can_parse_checksum, checksum_of, fallback_name, github_hash, is_readable, name_or_empty,
    sha256_verdict, verdict, verify_checksum_if_present, verify_github_digest, wanted_name,
};
use crate::paths::{
    extended_path, file_name_of, join_path, joined_path, lemma_joined_end, staged_app_path,
    staged_path, with_extension, NO_PROGRAM_NAME,
};
use crate::replace::{FileReply, ReplaceStep, Replacement};
use crate::text::{cat4, lines, opt_slice, opt_text, push_text, texts};
use crate::updater::{copy_text, ComponentInfo, ComponentKind, InstallResult, InstalledProgram};
use vstd::prelude::*;

verus! {

/// How an installation ended well: whether the program has to be started anew, and what is said.
#[verifier::ext_equal]
pub struct InstallModel {
    pub restart: bool,
    pub message: Seq<char>,
}

impl View for InstallResult {
    type V = InstallModel;

    open spec fn view(&self) -> InstallModel {
        match self {
            InstallResult::Installed(message) => InstallModel { restart: false, message: message@ },
            InstallResult::RestartRequired(message) => InstallModel {
                restart: true,
                message: message@,
            },
        }
    }
}

/// How an installation ended.
pub open spec fn install_outcome(r: Result<InstallResult, String>) -> Result<
    InstallModel,
    Seq<char>,
> {
    match r {
        Ok(result) => Ok(result@),
        Err(message) => Err(message@),
    }
}

/// What is installed, and where it is kept on the way.
pub enum InstallTarget {
    /// This program; its release states its digest.
    App { target: String, staged: String, digest: String },
    /// Yt-dlp.
    YtDlp { target: String, staged: String, checksum_url: Option<String>, asset: String },
    /// One or both of the ffmpeg programs, from an archive.
    Ffmpeg {
        kind: ComponentKind,
        app_dir: String,
        zip_path: String,
        checksum_url: Option<String>,
        asset_name: Option<String>,
    },
}

/// The script that replaces this program after it has ended, and what it is given.
pub struct ScriptJob {
    pub script: String,
    pub target: String,
    pub staged: String,
}

/// The programs that are left to be unpacked, the first of which is next, and how it ends after
/// the last.
pub struct Unpacking {
    pub kind: ComponentKind,
    pub app_dir: String,
    pub zip_path: String,
    pub unpacks: Vec<Unpack>,
    pub outcome: Result<(), String>,
}

/// What follows a replacement that ended well.
pub enum AfterReplace {
    /// Yt-dlp is installed.
    YtDlp,
    /// The rest of the archive is unpacked.
    Ffmpeg(Unpacking),
}

/// What is to be done next in an installation.
pub enum InstallAction {
    /// Download from the address to the path of the target's staged file.
    Download { url: String, target: InstallTarget },
    /// Read the staged file, and fetch the checksum list, where there is one.
    Inspect { target: InstallTarget },
    /// Write the script.
    WriteScript(ScriptJob),
    /// Start the script.
    StartScript(ScriptJob),
    /// Do what the replacement asks for.
    Replace { replacement: Replacement, rest: AfterReplace },
    /// Create the file that the next program is unpacked to.
    Create(Unpacking),
    /// Write the next program to its file.
    Write(Unpacking),
    /// Remove the files, whether or not that can be done, and report the result.
    Finish { remove: Vec<String>, result: Result<InstallResult, String> },
}

/// How a download ended.
pub enum DownloadReply {
    /// It was saved.
    Saved,
    /// There was no answer, or it could not be saved, for this reason.
    Failed(String),
    /// The answer had a status other than success.
    Refused(String),
}

/// Whether the action ends the installation with the given removals and result.
pub open spec fn finishes(
    action: InstallAction,
    remove: Seq<Seq<char>>,
    result: Result<InstallModel, Seq<char>>,
) -> bool {
    action matches InstallAction::Finish { remove: list, result: given } && texts(list@) == remove
        && install_outcome(given) == result
}

impl InstallTarget {
    /// Where the download is kept.
    pub open spec fn staged_text(self) -> Seq<char> {
        match self {
            InstallTarget::App { staged, .. } => staged@,
            InstallTarget::YtDlp { staged, .. } => staged@,
            InstallTarget::Ffmpeg { zip_path, .. } => zip_path@,
        }
    }

    /// Where the checksum list is, where there is one.
    pub open spec fn checksum_text(self) -> Option<Seq<char>> {
        match self {
            InstallTarget::App { .. } => None,
            InstallTarget::YtDlp { checksum_url, .. } => opt_text(checksum_url),
            InstallTarget::Ffmpeg { checksum_url, .. } => opt_text(checksum_url),
        }
    }

    /// The file that the checksum list is asked for.
    pub open spec fn listed_asset(self) -> Option<Seq<char>> {
        match self {
            InstallTarget::App { .. } => None,
            InstallTarget::YtDlp { asset, .. } => Some(asset@),
            InstallTarget::Ffmpeg { asset_name, .. } => opt_text(asset_name),
        }
    }

    /// What is removed where the installation fails before anything was verified.
    pub open spec fn early_removals(self) -> Seq<Seq<char>> {
        match self {
            InstallTarget::Ffmpeg { zip_path, .. } => seq![zip_path@],
            _ => Seq::empty(),
        }
    }

    /// What is removed where the download does not pass.
    pub open spec fn late_removals(self) -> Seq<Seq<char>> {
        match self {
            InstallTarget::App { staged, .. } => seq![staged@],
            InstallTarget::YtDlp { .. } => Seq::empty(),
            InstallTarget::Ffmpeg { zip_path, .. } => seq![zip_path@],
        }
    }

    /// Where the download is kept.
    pub fn staged_path(&self) -> (r: &str)
        ensures
            r@ == self.staged_text(),
    {
        match self {
            InstallTarget::App { staged, .. } => staged.as_str(),
            InstallTarget::YtDlp { staged, .. } => staged.as_str(),
            InstallTarget::Ffmpeg { zip_path, .. } => zip_path.as_str(),
        }
    }

    /// Where the checksum list is, where there is one.
    pub fn checksum_url(&self) -> (r: Option<&str>)
        ensures
            opt_slice(r) == self.checksum_text(),
    {
        let url = match self {
            InstallTarget::App { .. } => &None,
            InstallTarget::YtDlp { checksum_url, .. } => checksum_url,
            InstallTarget::Ffmpeg { checksum_url, .. } => checksum_url,
        };
        match url {
            Some(url) => Some(url.as_str()),
            None => None,
        }
    }

    /// The file that the checksum list is asked for.
    fn listed_name(&self) -> (r: Option<&str>)
        ensures
            opt_slice(r) == self.listed_asset(),
    {
        match self {
            InstallTarget::App { .. } => None,
            InstallTarget::YtDlp { asset, .. } => Some(asset.as_str()),
            InstallTarget::Ffmpeg { asset_name, .. } => match asset_name {
                Some(name) => Some(name.as_str()),
                None => None,
            },
        }
    }

    /// Whether the checksum list, where there is one, can be read up to the wanted line.
    pub open spec fn is_readable_list(self, manifest: Option<Result<String, String>>) -> bool {
        manifest matches Some(Ok(text)) ==> is_readable(
            lines(text@),
            wanted_name(self.listed_asset(), name_or_empty(self.staged_text())),
        )
    }

    /// Whether the checksum list, where there is one, can be read up to the wanted line.
    pub fn can_read_list(&self, manifest: &Option<Result<String, String>>) -> (r: bool)
        ensures
            r == self.is_readable_list(*manifest),
    {
        match manifest {
            Some(Ok(text)) => can_parse_checksum(
                text.as_str(),
                self.listed_name(),
                fallback_name(self.staged_path()),
            ),
            _ => true,
        }
    }

    /// Whether the download passes, or why not.
    pub open spec fn verdict_on(
        self,
        manifest: Option<Result<String, String>>,
        content: Result<Vec<u8>, String>,
    ) -> Result<(), Seq<char>> {
        match self {
            InstallTarget::App { digest, .. } => match github_hash(digest@) {
                Some(hash) => match content {
                    Ok(bytes) => sha256_verdict(bytes@, hash),
                    Err(err) => Err(err@),
                },
                None => Err("Неподдерживаемый GitHub digest: "@ + digest@),
            },
            _ => match manifest {
                None => Ok(()),
                Some(Err(err)) => Err(err@),
                Some(Ok(text)) => match checksum_of(
                    text@,
                    self.listed_asset(),
                    name_or_empty(self.staged_text()),
                ) {
                    None => Err("Не удалось извлечь checksum"@),
                    Some(expected) => match content {
                        Ok(bytes) => sha256_verdict(bytes@, expected),
                        Err(err) => Err(err@),
                    },
                },
            },
        }
    }

    /// Tells whether the download passes, or why not.
    fn verify(
        &self,
        manifest: &Option<Result<String, String>>,
        content: &Result<Vec<u8>, String>,
    ) -> (r: Result<(), String>)
        requires
            self.is_readable_list(*manifest),
        ensures
            verdict(r) == self.verdict_on(*manifest, *content),
    {
        match self {
            InstallTarget::App { digest, .. } => verify_github_digest(content, digest.as_str()),
            _ => verify_checksum_if_present(
                manifest,
                self.staged_path(),
                content,
                self.listed_name(),
            ),
        }
    }
}

/// Ends an installation badly.
fn fail(remove: Vec<String>, err: String) -> (r: InstallAction)
    ensures
        finishes(r, texts(remove@), Err(err@)),
{
    InstallAction::Finish { remove, result: Err(err) }
}

/// Ends an installation badly, with nothing to remove.
fn fail_at_once(err: String) -> (r: InstallAction)
    ensures
        finishes(r, Seq::empty(), Err(err@)),
{
    let remove: Vec<String> = Vec::new();
    assert(texts(remove@) =~= Seq::<Seq<char>>::empty());
    fail(remove, err)
}

/// The path as a list.
fn one_path(path: &str) -> (r: Vec<String>)
    ensures
        texts(r@) == seq![path@],
{
    let mut list: Vec<String> = Vec::new();
    push_text(&mut list, path);
    assert(texts(list@) =~= seq![path@]);
    list
}

/// What an installation begins with.
pub open spec fn begins(
    action: InstallAction,
    client: Result<(), String>,
    app_dir: Seq<char>,
    component: ComponentInfo,
    current_exe: Result<String, String>,
) -> bool {
    let nothing = Seq::<Seq<char>>::empty();
    match (client, component.download_url) {
        (Err(err), _) => finishes(action, nothing, Err(err@)),
        (_, None) => finishes(action, nothing, Err("ссылка на загрузку не найдена"@)),
        (Ok(_), Some(address)) => match component.kind {
            ComponentKind::YtDlpGui => match current_exe {
                Err(err) => finishes(action, nothing, Err(err@)),
                Ok(exe) => match (staged_path(exe@), component.digest) {
                    (None, _) => finishes(
                        action,
                        nothing,
                        Err(NO_PROGRAM_NAME@),
                    ),
                    (_, None) => finishes(
                        action,
                        nothing,
                        Err("SHA-256 digest не найден в GitHub Release"@),
                    ),
                    (Some(path), Some(stated)) => {
                        &&& action matches InstallAction::Download {
                            url,
                            target: InstallTarget::App { target, staged, digest },
                        }
                        &&& url == address
                        &&& target == exe
                        &&& staged@ == path
                        &&& digest == stated
                    },
                },
            },
            ComponentKind::YtDlp => {
                &&& action matches InstallAction::Download {
                    url,
                    target: InstallTarget::YtDlp { target, staged, checksum_url, asset },
                }
                &&& url == address
                &&& target@ == joined_path(app_dir, "yt-dlp.exe"@)
                &&& staged@ == joined_path(app_dir, "yt-dlp.exe.tmp"@)
                &&& checksum_url == component.checksum_url
                &&& asset@ == match component.asset_name {
                    Some(name) => name@,
                    None => "yt-dlp.exe"@,
                }
            },
            _ => {
                &&& action matches InstallAction::Download {
                    url,
                    target: InstallTarget::Ffmpeg {
                        kind,
                        app_dir: dir,
                        zip_path,
                        checksum_url,
                        asset_name,
                    },
                }
                &&& url == address
                &&& kind == component.kind
                &&& dir@ == app_dir
                &&& zip_path@ == joined_path(app_dir, "ffmpeg-release-essentials.zip.tmp"@)
                &&& checksum_url == component.checksum_url
                &&& asset_name == component.asset_name
            },
        },
    }
}

/// Begins to install a component into the folder `app_dir`. The HTTP client could be made or not;
/// the path of the running program, which matters where this program itself is installed, is known
/// or not.
pub fn install_component(
    client: Result<(), String>,
    app_dir: &str,
    component: &ComponentInfo,
    current_exe: Result<String, String>,
) -> (r: InstallAction)
    ensures
        begins(r, client, app_dir@, *component, current_exe),
{
    if let Err(err) = client {
        return fail_at_once(err);
    }
    let url = match &component.download_url {
        Some(url) => url.clone(),
        None => {
            return fail_at_once("ссылка на загрузку не найдена".to_owned());
        },
    };
    match component.kind {
        ComponentKind::YtDlpGui => {
            let target = match current_exe {
                Ok(exe) => exe,
                Err(err) => {
                    return fail_at_once(err);
                },
            };
            let staged = match staged_app_path(target.as_str()) {
                Ok(staged) => staged,
                Err(err) => {
                    return fail_at_once(err);
                },
            };
            match &component.digest {
                Some(digest) => InstallAction::Download {
                    url,
                    target: InstallTarget::App { target, staged, digest: digest.clone() },
                },
                None => fail_at_once("SHA-256 digest не найден в GitHub Release".to_owned()),
            }
        },
        ComponentKind::YtDlp => InstallAction::Download {
            url,
            target: InstallTarget::YtDlp {
                target: join_path(app_dir, "yt-dlp.exe"),
                staged: join_path(app_dir, "yt-dlp.exe.tmp"),
                checksum_url: copy_text(&component.checksum_url),
                asset: match &component.asset_name {
                    Some(name) => name.clone(),
                    None => "yt-dlp.exe".to_owned(),
                },
            },
        },
        _ => InstallAction::Download {
            url,
            target: InstallTarget::Ffmpeg {
                kind: component.kind,
                app_dir: app_dir.to_owned(),
                zip_path: join_path(app_dir, "ffmpeg-release-essentials.zip.tmp"),
                checksum_url: copy_text(&component.checksum_url),
                asset_name: copy_text(&component.asset_name),
            },
        },
    }
}

/// What follows a download.
pub open spec fn follows_download(
    action: InstallAction,
    url: Seq<char>,
    target: InstallTarget,
    reply: DownloadReply,
) -> bool {
    match reply {
        DownloadReply::Saved => action == (InstallAction::Inspect { target }),
        DownloadReply::Failed(err) => finishes(action, target.early_removals(), Err(err@)),
        DownloadReply::Refused(status) => finishes(
            action,
            target.early_removals(),
            Err("Ошибка загрузки "@ + url + ": HTTP "@ + status@),
        ),
    }
}

/// Goes on after a download.
pub fn after_download(url: &str, target: InstallTarget, reply: DownloadReply) -> (r: InstallAction)
    ensures
        follows_download(r, url@, target, reply),
{
    let err = match reply {
        DownloadReply::Saved => {
            return InstallAction::Inspect { target };
        },
        DownloadReply::Failed(err) => err,
        DownloadReply::Refused(status) => cat4("Ошибка загрузки ", url, ": HTTP ", status.as_str()),
    };
    match &target {
        InstallTarget::Ffmpeg { zip_path, .. } => fail(one_path(zip_path.as_str()), err),
        _ => fail_at_once(err),
    }
}

/// What the unpacking is.
pub open spec fn unpack_models(unpacks: Seq<Unpack>) -> Seq<UnpackModel> {
    unpacks.map_values(|unpack: Unpack| unpack@)
}

/// What is said of ffmpeg programs that were installed.
pub open spec fn ffmpeg_message(kind: ComponentKind) -> Seq<char> {
    match kind {
        ComponentKind::Ffmpeg => "ffmpeg обновлён"@,
        ComponentKind::Ffprobe => "ffprobe обновлён"@,
        _ => "ffmpeg/ffprobe обновлены"@,
    }
}

/// What comes next in an unpacking, with nothing of the first program done yet.
pub open spec fn goes_on(action: InstallAction, unpacking: Unpacking) -> bool {
    if unpacking.unpacks@.len() > 0 {
        action == InstallAction::Create(unpacking)
    } else {
        finishes(
            action,
            seq![unpacking.zip_path@],
            match unpacking.outcome {
                Ok(_) => Ok(
                    InstallModel { restart: false, message: ffmpeg_message(unpacking.kind) },
                ),
                Err(err) => Err(err@),
            },
        )
    }
}

/// Goes on with an unpacking, with nothing of the first program done yet.
pub fn go_on(unpacking: Unpacking) -> (r: InstallAction)
    ensures
        goes_on(r, unpacking),
{
    if unpacking.unpacks.len() > 0 {
        return InstallAction::Create(unpacking);
    }
    let remove = one_path(unpacking.zip_path.as_str());
    match unpacking.outcome {
        Ok(_) => {
            let message = match unpacking.kind {
                ComponentKind::Ffmpeg => "ffmpeg обновлён",
                ComponentKind::Ffprobe => "ffprobe обновлён",
                _ => "ffmpeg/ffprobe обновлены",
            };
            InstallAction::Finish {
                remove,
                result: Ok(InstallResult::Installed(message.to_owned())),
            }
        },
        Err(err) => fail(remove, err),
    }
}

/// What follows the inspection of a download. Nothing is installed unless it passes.
pub open spec fn follows_inspection(
    action: InstallAction,
    target: InstallTarget,
    manifest: Option<Result<String, String>>,
    content: Result<Vec<u8>, String>,
) -> bool {
    match target.verdict_on(manifest, content) {
        Err(err) => finishes(action, target.late_removals(), Err(err)),
        Ok(_) => match target {
            InstallTarget::App { target: exe, staged: download, .. } => {
                &&& action matches InstallAction::WriteScript(ScriptJob { script, target, staged })
                &&& script@ == extended_path(exe@, "update.cmd"@)
                &&& target == exe
                &&& staged == download
            },
            InstallTarget::YtDlp { target: exe, staged: download, .. } => {
                &&& action matches InstallAction::Replace { replacement, rest: AfterReplace::YtDlp }
                &&& replacement.staged@ == download@
                &&& replacement.target@ == exe@
                &&& replacement.backup@ == extended_path(exe@, "bak"@)
                &&& replacement.step == ReplaceStep::CheckTarget
            },
            InstallTarget::Ffmpeg { kind, app_dir, zip_path, .. } => match content {
                Err(err) => finishes(action, seq![zip_path@], Err(err@)),
                Ok(bytes) => exists|unpacking: Unpacking|
                    {
                        &&& #[trigger] goes_on(action, unpacking)
                        &&& unpacking.kind == kind
                        &&& unpacking.app_dir == app_dir
                        &&& unpacking.zip_path == zip_path
                        &&& unpack_models(unpacking.unpacks@) == zip_plan(bytes@, kind).unpacks
                        &&& verdict(unpacking.outcome) == zip_plan(bytes@, kind).outcome
                    },
            },
        },
    }
}

/// Goes on after the inspection of a download: its content was read or not, and the checksum list
/// was fetched or not, where there is one.
pub fn after_inspection(
    target: InstallTarget,
    manifest: &Option<Result<String, String>>,
    content: Result<Vec<u8>, String>,
) -> (r: InstallAction)
    requires
        target.is_readable_list(*manifest),
    ensures
        follows_inspection(r, target, *manifest, content),
{
    let checked = target.verify(manifest, &content);
    match target {
        InstallTarget::App { target, staged, .. } => match checked {
            Ok(_) => InstallAction::WriteScript(
                ScriptJob { script: with_extension(target.as_str(), "update.cmd"), target, staged },
            ),
            Err(err) => fail(one_path(staged.as_str()), err),
        },
        InstallTarget::YtDlp { target, staged, .. } => match checked {
            Ok(_) => InstallAction::Replace {
                replacement: Replacement::atomic_replace(staged.as_str(), target.as_str()),
                rest: AfterReplace::YtDlp,
            },
            Err(err) => fail_at_once(err),
        },
        InstallTarget::Ffmpeg { kind, app_dir, zip_path, .. } => {
            if let Err(err) = checked {
                return fail(one_path(zip_path.as_str()), err);
            }
            match content {
                Ok(bytes) => {
                    let plan = install_ffmpeg_from_zip(&bytes, kind);
                    assert(unpack_models(plan.unpacks@) == zip_plan(bytes@, kind).unpacks);
                    go_on(
                        Unpacking {
                            kind,
                            app_dir,
                            zip_path,
                            unpacks: plan.unpacks,
                            outcome: plan.outcome,
                        },
                    )
                },
                Err(err) => fail(one_path(zip_path.as_str()), err),
            }
        },
    }
}

/// The script that waits until this program has ended, puts the new one in its place and starts
/// it.
pub const SELF_UPDATE_SCRIPT: &'static str =
    "@echo off\r\nsetlocal\r\nset \"TARGET=%~1\"\r\nset \"STAGED=%~2\"\r\nset \"PID=%~3\"\r\n:wait\r\ntasklist /FI \"PID eq %PID%\" 2>NUL | find \"%PID%\" >NUL\r\nif not errorlevel 1 (\r\n  timeout /T 1 /NOBREAK >NUL\r\n  goto wait\r\n)\r\nset /A ATTEMPTS=0\r\n:replace\r\nmove /Y \"%STAGED%\" \"%TARGET%\" >NUL 2>&1\r\nif not errorlevel 1 goto launch\r\nset /A ATTEMPTS+=1\r\nif %ATTEMPTS% GEQ 30 goto failed\r\ntimeout /T 1 /NOBREAK >NUL\r\ngoto replace\r\n:failed\r\nstart \"\" \"%TARGET%\"\r\nexit /B 1\r\n:launch\r\nif /I \"%~4\"==\"--no-launch\" goto cleanup\r\nstart \"\" \"%TARGET%\"\r\n:cleanup\r\n(goto) 2>NUL & del \"%~f0\"\r\n";

/// The script that waits until this program has ended, puts the new one in its place and starts
/// it.
pub fn self_update_script() -> (r: &'static str)
    ensures
        r@ == SELF_UPDATE_SCRIPT@,
{
    SELF_UPDATE_SCRIPT
}

impl ScriptJob {
    /// What the script is given: the program, the new program, and the process to wait for.
    pub fn arguments(&self, process_id: u32) -> (r: Vec<String>)
        ensures
            texts(r@) == seq![
                self.target@,
                self.staged@,
                crate::text::decimal(process_id as nat),
            ],
    {
        let mut list: Vec<String> = Vec::new();
        push_text(&mut list, self.target.as_str());
        push_text(&mut list, self.staged.as_str());
        let id = crate::text::decimal_text(process_id as u128);
        push_text(&mut list, id.as_str());
        assert(texts(list@) =~= seq![
            self.target@,
            self.staged@,
            crate::text::decimal(process_id as nat),
        ]);
        list
    }
}

/// What follows the writing of the script. Where it failed, the download is removed.
pub open spec fn follows_script(action: InstallAction, job: ScriptJob, reply: FileReply) -> bool {
    match reply {
        FileReply::Done(_) => action == InstallAction::StartScript(job),
        FileReply::Failed(err) => finishes(action, seq![job.staged@], Err(err@)),
    }
}

/// Goes on after the writing of the script.
pub fn after_script(job: ScriptJob, reply: FileReply) -> (r: InstallAction)
    ensures
        follows_script(r, job, reply),
{
    match reply {
        FileReply::Done(_) => InstallAction::StartScript(job),
        FileReply::Failed(err) => fail(one_path(job.staged.as_str()), err),
    }
}

/// What follows the start of the script. Where it failed, the script and the download are removed.
pub open spec fn follows_start(action: InstallAction, job: ScriptJob, reply: FileReply) -> bool {
    match reply {
        FileReply::Done(_) => finishes(
            action,
            Seq::empty(),
            Ok(
                InstallModel {
                    restart: true,
                    message: "yt-dlp GUI обновлён, приложение будет перезапущено"@,
                },
            ),
        ),
        FileReply::Failed(err) => finishes(action, seq![job.script@, job.staged@], Err(err@)),
    }
}

/// Goes on after the start of the script.
pub fn after_start(job: ScriptJob, reply: FileReply) -> (r: InstallAction)
    ensures
        follows_start(r, job, reply),
{
    match reply {
        FileReply::Done(_) => {
            let remove: Vec<String> = Vec::new();
            assert(texts(remove@) =~= Seq::<Seq<char>>::empty());
            InstallAction::Finish {
                remove,
                result: Ok(
                    InstallResult::RestartRequired(
                        "yt-dlp GUI обновлён, приложение будет перезапущено".to_owned(),
                    ),
                ),
            }
        },
        FileReply::Failed(err) => {
            let mut remove = one_path(job.script.as_str());
            push_text(&mut remove, job.staged.as_str());
            assert(texts(remove@) =~= seq![job.script@, job.staged@]);
            fail(remove, err)
        },
    }
}

impl Unpacking {
    /// The program that is next.
    pub open spec fn tool_model(self) -> FfmpegTool {
        self.unpacks@[0].tool
    }

    /// Where the next program is unpacked to.
    pub open spec fn staged_text(self) -> Seq<char> {
        joined_path(self.app_dir@, self.tool_model().staged_text())
    }

    /// Where the next program is installed.
    pub open spec fn target_text(self) -> Seq<char> {
        joined_path(self.app_dir@, self.tool_model().file_text())
    }

    /// The rest, after the next program.
    pub open spec fn is_rest_of(self, whole: Unpacking) -> bool {
        &&& self.kind == whole.kind
        &&& self.app_dir == whole.app_dir
        &&& self.zip_path == whole.zip_path
        &&& self.unpacks@ == whole.unpacks@.drop_first()
        &&& self.outcome == whole.outcome
    }

    /// Where the next program is unpacked to.
    pub fn staged_path(&self) -> (r: String)
        requires
            self.unpacks@.len() > 0,
        ensures
            r@ == self.staged_text(),
    {
        join_path(self.app_dir.as_str(), self.unpacks[0].tool.staged())
    }

    /// What the next program holds; nothing where it could not be read.
    pub fn content(&self) -> (r: Option<&Vec<u8>>)
        requires
            self.unpacks@.len() > 0,
        ensures
            match self.unpacks@[0].content {
                Ok(content) => r == Some(&content),
                Err(_) => r is None,
            },
    {
        match &self.unpacks[0].content {
            Ok(content) => Some(content),
            Err(_) => None,
        }
    }
}

/// What follows the creation of the file for the next program.
pub open spec fn follows_creation(
    action: InstallAction,
    unpacking: Unpacking,
    reply: FileReply,
) -> bool {
    match (reply, unpacking.unpacks@[0].content) {
        (FileReply::Failed(err), _) => finishes(action, seq![unpacking.zip_path@], Err(err@)),
        (_, Err(err)) => finishes(action, seq![unpacking.zip_path@], Err(err@)),
        _ => action == InstallAction::Write(unpacking),
    }
}

/// Goes on after the creation of the file for the next program.
pub fn after_creation(unpacking: Unpacking, reply: FileReply) -> (r: InstallAction)
    requires
        unpacking.unpacks@.len() > 0,
    ensures
        follows_creation(r, unpacking, reply),
{
    let failure = match (reply, &unpacking.unpacks[0].content) {
        (FileReply::Failed(err), _) => Some(err),
        (FileReply::Done(_), Err(err)) => Some(err.clone()),
        (FileReply::Done(_), Ok(_)) => None,
    };
    match failure {
        Some(err) => fail(one_path(unpacking.zip_path.as_str()), err),
        None => InstallAction::Write(unpacking),
    }
}

/// What follows the writing of the next program: it replaces the installed one.
pub open spec fn follows_writing(
    action: InstallAction,
    unpacking: Unpacking,
    reply: FileReply,
) -> bool {
    match reply {
        FileReply::Failed(err) => finishes(action, seq![unpacking.zip_path@], Err(err@)),
        FileReply::Done(_) => {
            &&& action matches InstallAction::Replace {
                replacement,
                rest: AfterReplace::Ffmpeg(rest),
            }
            &&& replacement.staged@ == unpacking.staged_text()
            &&& replacement.target@ == unpacking.target_text()
            &&& replacement.backup@ == extended_path(unpacking.target_text(), "bak"@)
            &&& replacement.step == ReplaceStep::CheckTarget
            &&& rest.is_rest_of(unpacking)
        },
    }
}

/// Goes on after the writing of the next program.
pub fn after_writing(unpacking: Unpacking, reply: FileReply) -> (r: InstallAction)
    requires
        unpacking.unpacks@.len() > 0,
    ensures
        follows_writing(r, unpacking, reply),
{
    match reply {
        FileReply::Failed(err) => fail(one_path(unpacking.zip_path.as_str()), err),
        FileReply::Done(_) => {
            let staged = unpacking.staged_path();
            let target = join_path(unpacking.app_dir.as_str(), unpacking.unpacks[0].tool.file());
            let mut unpacks = unpacking.unpacks;
            unpacks.remove(0);
            assert(unpacks@ =~= unpacking.unpacks@.drop_first());
            InstallAction::Replace {
                replacement: Replacement::atomic_replace(staged.as_str(), target.as_str()),
                rest: AfterReplace::Ffmpeg(
                    Unpacking {
                        kind: unpacking.kind,
                        app_dir: unpacking.app_dir,
                        zip_path: unpacking.zip_path,
                        unpacks,
                        outcome: unpacking.outcome,
                    },
                ),
            }
        },
    }
}

/// What follows an action of a replacement.
pub open spec fn follows_replacing(
    action: InstallAction,
    replacement: Replacement,
    rest: AfterReplace,
    reply: FileReply,
) -> bool {
    let next = replacement.after(reply);
    match (next.step, rest) {
        (ReplaceStep::Over(Ok(_)), AfterReplace::YtDlp) => finishes(
            action,
            Seq::empty(),
            Ok(InstallModel { restart: false, message: "yt-dlp обновлён"@ }),
        ),
        (ReplaceStep::Over(Err(err)), AfterReplace::YtDlp) => finishes(
            action,
            Seq::empty(),
            Err(err@),
        ),
        (ReplaceStep::Over(Ok(_)), AfterReplace::Ffmpeg(unpacking)) => goes_on(action, unpacking),
        (ReplaceStep::Over(Err(err)), AfterReplace::Ffmpeg(unpacking)) => finishes(
            action,
            seq![unpacking.zip_path@],
            Err(err@),
        ),
        _ => action == (InstallAction::Replace { replacement: next, rest }),
    }
}

/// Goes on after an action of a replacement.
pub fn after_replacing(
    replacement: Replacement,
    rest: AfterReplace,
    reply: FileReply,
) -> (r: InstallAction)
    ensures
        follows_replacing(r, replacement, rest, reply),
{
    let next = replacement.reply(reply);
    match next.step {
        ReplaceStep::Over(result) => match (result, rest) {
            (Ok(_), AfterReplace::YtDlp) => {
                let remove: Vec<String> = Vec::new();
                assert(texts(remove@) =~= Seq::<Seq<char>>::empty());
                InstallAction::Finish {
                    remove,
                    result: Ok(InstallResult::Installed("yt-dlp обновлён".to_owned())),
                }
            },
            (Err(err), AfterReplace::YtDlp) => fail_at_once(err),
            (Ok(_), AfterReplace::Ffmpeg(unpacking)) => go_on(unpacking),
            (Err(err), AfterReplace::Ffmpeg(unpacking)) => fail(
                one_path(unpacking.zip_path.as_str()),
                err,
            ),
        },
        _ => InstallAction::Replace { replacement: next, rest },
    }
}

/// The archive that is to be removed in the end, or that is removed.
pub open spec fn owed_archive(action: InstallAction) -> Option<Seq<char>> {
    match action {
        InstallAction::Download { target: InstallTarget::Ffmpeg { zip_path, .. }, .. } => Some(
            zip_path@,
        ),
        InstallAction::Inspect { target: InstallTarget::Ffmpeg { zip_path, .. } } => Some(
            zip_path@,
        ),
        InstallAction::Create(unpacking) => Some(unpacking.zip_path@),
        InstallAction::Write(unpacking) => Some(unpacking.zip_path@),
        InstallAction::Replace { rest: AfterReplace::Ffmpeg(unpacking), .. } => Some(
            unpacking.zip_path@,
        ),
        InstallAction::Finish { remove, .. } => if texts(remove@).len() == 1 {
            Some(texts(remove@)[0])
        } else {
            None
        },
        _ => None,
    }
}

/// A download that does not have the digest that its release states is never installed: the only
/// thing that follows is the end of the installation, and the download is removed.
pub proof fn law_app_needs_its_digest(
    action: InstallAction,
    target: InstallTarget,
    manifest: Option<Result<String, String>>,
    content: Result<Vec<u8>, String>,
)
    requires
        target is App,
        follows_inspection(action, target, manifest, content),
    ensures
        action is Finish || content is Ok && github_hash(target->App_digest@) is Some
            && sha256_verdict(
            content->Ok_0@,
            github_hash(target->App_digest@)->0,
        ) is Ok,
        action matches InstallAction::Finish { remove, result } ==> result is Err && texts(remove@)
            == seq![target->App_staged@],
{
}

/// A download with a checksum list that does not state its digest is never installed.
pub proof fn law_listed_download_needs_its_digest(
    action: InstallAction,
    target: InstallTarget,
    manifest: Option<Result<String, String>>,
    content: Result<Vec<u8>, String>,
)
    requires
        target !is App,
        manifest is Some,
        follows_inspection(action, target, manifest, content),
    ensures
        action matches InstallAction::Finish { result, .. } && result is Err || manifest->0 is Ok
            && content is Ok && ({
            let stated = checksum_of(
                manifest->0->Ok_0@,
                target.listed_asset(),
                name_or_empty(target.staged_text()),
            );
            stated is Some && sha256_verdict(content->Ok_0@, stated->0) is Ok
        }),
{
}

/// However the installation of ffmpeg programs goes on and ends, the archive is removed in the end.
pub proof fn law_archive_is_removed(
    before: InstallAction,
    action: InstallAction,
    download: DownloadReply,
    manifest: Option<Result<String, String>>,
    content: Result<Vec<u8>, String>,
    reply: FileReply,
)
    requires
        owed_archive(before) is Some,
        match before {
            InstallAction::Download { url, target } => follows_download(
                action,
                url@,
                target,
                download,
            ),
            InstallAction::Inspect { target } => follows_inspection(
                action,
                target,
                manifest,
                content,
            ),
            InstallAction::Create(unpacking) => follows_creation(action, unpacking, reply),
            InstallAction::Write(unpacking) => follows_writing(action, unpacking, reply),
            InstallAction::Replace { replacement, rest } => follows_replacing(
                action,
                replacement,
                rest,
                reply,
            ),
            _ => false,
        },
    ensures
        owed_archive(action) == owed_archive(before),
{
}

/// Only the installation of this program itself asks for it to be started anew, and only once the
/// script that replaces it was started.
pub proof fn law_only_the_program_restarts(
    before: InstallAction,
    action: InstallAction,
    download: DownloadReply,
    manifest: Option<Result<String, String>>,
    content: Result<Vec<u8>, String>,
    reply: FileReply,
)
    requires
        match before {
            InstallAction::Download { url, target } => follows_download(
                action,
                url@,
                target,
                download,
            ),
            InstallAction::Inspect { target } => follows_inspection(
                action,
                target,
                manifest,
                content,
            ),
            InstallAction::WriteScript(job) => follows_script(action, job, reply),
            InstallAction::StartScript(job) => follows_start(action, job, reply),
            InstallAction::Replace { replacement, rest } => follows_replacing(
                action,
                replacement,
                rest,
                reply,
            ),
            InstallAction::Create(unpacking) => follows_creation(action, unpacking, reply),
            InstallAction::Write(unpacking) => follows_writing(action, unpacking, reply),
            InstallAction::Finish { .. } => false,
        },
    ensures
        action matches InstallAction::Finish { result, .. } && install_outcome(result) is Ok
            && install_outcome(result)->Ok_0.restart ==> before is StartScript,
        action is StartScript ==> before is WriteScript,
        action is WriteScript ==> before is Inspect && before->Inspect_target is App
            && before->Inspect_target.verdict_on(manifest, content) is Ok,
{
}

/// The unpacking of an archive comes to an end: each program that is written leaves fewer.
pub proof fn law_unpacking_ends(unpacking: Unpacking, rest: Unpacking)
    requires
        unpacking.unpacks@.len() > 0,
        rest.is_rest_of(unpacking),
    ensures
        rest.unpacks@.len() < unpacking.unpacks@.len(),
{
}

/// A program, what is unpacked or downloaded to replace it, and its backup never share a path, in
/// whatever folder the program is a file.
pub proof fn law_replaced_programs_have_distinct_paths(
    app_dir: Seq<char>,
    replacement: Replacement,
    tool: FfmpegTool,
)
    requires
        replacement.backup@ == extended_path(replacement.target@, "bak"@),
        ({
            ||| replacement.staged@ == joined_path(app_dir, "yt-dlp.exe.tmp"@)
                && replacement.target@ == joined_path(app_dir, "yt-dlp.exe"@)
            ||| replacement.staged@ == joined_path(app_dir, tool.staged_text())
                && replacement.target@ == joined_path(app_dir, tool.file_text())
        }),
        file_name_of(replacement.target@) is Some,
    ensures
        replacement.has_distinct_paths(),
{
    reveal_strlit("yt-dlp.exe.tmp");
    reveal_strlit("yt-dlp.exe");
    reveal_strlit("ffmpeg.exe.tmp");
    reveal_strlit("ffmpeg.exe");
    reveal_strlit("ffprobe.exe.tmp");
    reveal_strlit("ffprobe.exe");
    reveal_strlit("bak");
    lemma_joined_end(app_dir, "yt-dlp.exe.tmp"@);
    lemma_joined_end(app_dir, "yt-dlp.exe"@);
    lemma_joined_end(app_dir, tool.staged_text());
    lemma_joined_end(app_dir, tool.file_text());
    assert(replacement.staged@.last() == 'p');
    assert(replacement.target@.last() == 'e');
    assert(replacement.backup@.last() == 'k');
}

/// A program that was written from an archive replaces the installed program of its own name, and no
/// other: ffmpeg the file `ffmpeg.exe` of the folder, and ffprobe the file `ffprobe.exe`. What takes
/// its place is the very file that it was written to. After it come the programs that are left, in
/// order.
pub proof fn law_written_program_replaces_its_own(
    unpacking: Unpacking,
    done: bool,
    folder: &str,
    paths: (String, String, String, String),
    written: String,
    action: InstallAction,
)
    requires
        unpacking.unpacks@.len() > 0,
        folder@ == unpacking.app_dir@,
        call_ensures(join_path, (folder, "ffmpeg.exe"), paths.0),
        call_ensures(join_path, (folder, "ffmpeg.exe.tmp"), paths.1),
        call_ensures(join_path, (folder, "ffprobe.exe"), paths.2),
        call_ensures(join_path, (folder, "ffprobe.exe.tmp"), paths.3),
        call_ensures(Unpacking::staged_path, (&unpacking,), written),
        call_ensures(after_writing, (unpacking, FileReply::Done(done)), action),
    ensures
        action matches InstallAction::Replace { replacement, rest: AfterReplace::Ffmpeg(rest) } && {
            &&& unpacking.unpacks@[0].tool == FfmpegTool::Ffmpeg ==> replacement.target@ == paths.0@
                && replacement.staged@ == paths.1@
            &&& unpacking.unpacks@[0].tool == FfmpegTool::Ffprobe ==> replacement.target@ == paths.2@
                && replacement.staged@ == paths.3@
            &&& replacement.staged@ == written@
            &&& replacement.step == ReplaceStep::CheckTarget
            &&& rest.unpacks@ == unpacking.unpacks@.skip(1)
            &&& rest.app_dir@ == unpacking.app_dir@
            &&& rest.kind == unpacking.kind
            &&& rest.zip_path@ == unpacking.zip_path@
            &&& rest.outcome == unpacking.outcome
        },
{
    assert(unpacking.unpacks@.skip(1) =~= unpacking.unpacks@.drop_first());
}

/// The program that is installed is the one that a check for updates asks for its version: yt-dlp,
/// ffmpeg and ffprobe each replace the program at their own path.
pub proof fn law_checked_program_is_the_installed_one(
    folder: &str,
    program: InstalledProgram,
    path: String,
    component: ComponentInfo,
    exe: Result<String, String>,
    begun: InstallAction,
    unpacking: Unpacking,
    done: bool,
    written: InstallAction,
)
    requires
        call_ensures(InstalledProgram::path, (program, folder), path),
        call_ensures(install_component, (Ok(()), folder, &component, exe), begun),
        unpacking.unpacks@.len() > 0,
        unpacking.app_dir@ == folder@,
        call_ensures(after_writing, (unpacking, FileReply::Done(done)), written),
    ensures
        program == InstalledProgram::YtDlp && component.kind == ComponentKind::YtDlp
            && component.download_url is Some ==> (begun matches InstallAction::Download {
            target: InstallTarget::YtDlp { target, .. },
            ..
        } && target@ == path@),
        program == InstalledProgram::Ffmpeg && unpacking.unpacks@[0].tool == FfmpegTool::Ffmpeg
            ==> (written matches InstallAction::Replace { replacement, .. } && replacement.target@
            == path@),
        program == InstalledProgram::Ffprobe && unpacking.unpacks@[0].tool == FfmpegTool::Ffprobe
            ==> (written matches InstallAction::Replace { replacement, .. } && replacement.target@
            == path@),
{
}

/// An installation begins with a download exactly where there is an HTTP client and an address and,
/// for this program itself, its own path, a name and a digest are known. It downloads from the
/// address of the component. Otherwise it ends at once with an error, and there is nothing to remove.
pub proof fn law_installation_begins_with_the_download(
    client: Result<(), String>,
    folder: &str,
    component: ComponentInfo,
    exe: Result<String, String>,
    exe_text: &str,
    staged: Result<String, String>,
    action: InstallAction,
)
    requires
        exe is Ok ==> exe_text@ == exe->Ok_0@ && call_ensures(
            staged_app_path,
            (exe_text,),
            staged,
        ),
        call_ensures(install_component, (client, folder, &component, exe), action),
    ensures
        action is Download <==> client is Ok && component.download_url is Some && (component.kind
            == ComponentKind::YtDlpGui ==> exe is Ok && staged is Ok && component.digest is Some),
        action matches InstallAction::Download { url, target } ==> {
            &&& url@ == component.download_url->0@
            &&& target is App <==> component.kind == ComponentKind::YtDlpGui
            &&& target is YtDlp <==> component.kind == ComponentKind::YtDlp
            &&& target matches InstallTarget::App { target, staged: path, digest } ==> {
                &&& target@ == exe->Ok_0@
                &&& path@ == staged->Ok_0@
                &&& digest@ == component.digest->0@
            }
        },
        !(action is Download) ==> (action matches InstallAction::Finish { remove, result }
            && remove@.len() == 0 && result is Err),
        client matches Err(err) ==> (action matches InstallAction::Finish { result, .. }
            && result->Err_0@ == err@),
{
    if let InstallAction::Finish { remove, result } = action {
        assert(texts(remove@).len() == remove@.len());
    }
}

/// Yt-dlp is downloaded to a file beside it, and ffmpeg and ffprobe as an archive into the folder that
/// they are installed in. Each is held against the checksum list of its component, and yt-dlp by its
/// own name where the name of the download is not known.
pub proof fn law_downloads_have_their_place(
    folder: &str,
    component: ComponentInfo,
    exe: Result<String, String>,
    paths: (String, String, String),
    action: InstallAction,
)
    requires
        component.kind != ComponentKind::YtDlpGui,
        component.download_url is Some,
        call_ensures(join_path, (folder, "yt-dlp.exe"), paths.0),
        call_ensures(join_path, (folder, "yt-dlp.exe.tmp"), paths.1),
        call_ensures(join_path, (folder, "ffmpeg-release-essentials.zip.tmp"), paths.2),
        call_ensures(install_component, (Ok(()), folder, &component, exe), action),
    ensures
        component.kind == ComponentKind::YtDlp ==> (action matches InstallAction::Download {
            target: InstallTarget::YtDlp { target, staged, checksum_url, asset },
            ..
        } && {
            &&& target@ == paths.0@
            &&& staged@ == paths.1@
            &&& checksum_url == component.checksum_url
            &&& component.asset_name is Some ==> asset@ == component.asset_name->0@
            &&& component.asset_name is None ==> asset@ == "yt-dlp.exe"@
        }),
        component.kind != ComponentKind::YtDlp ==> (action matches InstallAction::Download {
            target: InstallTarget::Ffmpeg { kind, app_dir, zip_path, checksum_url, asset_name },
            ..
        } && {
            &&& kind == component.kind
            &&& app_dir@ == folder@
            &&& zip_path@ == paths.2@
            &&& checksum_url == component.checksum_url
            &&& asset_name == component.asset_name
        }),
{
}

/// A download that was saved is inspected; one that was not ends the installation with the reason.
pub proof fn law_saved_download_is_inspected(
    url: &str,
    target: InstallTarget,
    reply: DownloadReply,
    action: InstallAction,
)
    requires
        call_ensures(after_download, (url, target, reply), action),
    ensures
        reply is Saved ==> action == (InstallAction::Inspect { target }),
        reply matches DownloadReply::Failed(err) ==> (action matches InstallAction::Finish {
            result,
            ..
        } && result is Err && result->Err_0@ == err@),
        reply matches DownloadReply::Refused(status) ==> (action matches InstallAction::Finish {
            result,
            ..
        } && result is Err && result->Err_0@ == "Ошибка загрузки "@ + url@ + ": HTTP "@ + status@),
{
}

/// This program is replaced by a script exactly where the download has the digest that its release
/// states: the script puts the download in the place of the running program. Otherwise the download
/// is removed, and the reason is reported.
pub proof fn law_program_with_its_digest_is_installed(
    exe: String,
    staged: String,
    digest: String,
    digest_text: &str,
    manifest: Option<Result<String, String>>,
    content: Result<Vec<u8>, String>,
    checked: Result<(), String>,
    action: InstallAction,
)
    requires
        digest_text@ == digest@,
        call_ensures(verify_github_digest, (&content, digest_text), checked),
        call_ensures(
            after_inspection,
            ((InstallTarget::App { target: exe, staged, digest }), &manifest, content),
            action,
        ),
    ensures
        checked is Ok ==> (action matches InstallAction::WriteScript(job) && job.target@ == exe@
            && job.staged@ == staged@),
        checked matches Err(err) ==> (action matches InstallAction::Finish { remove, result }
            && result is Err && result->Err_0@ == err@ && texts(remove@) == seq![staged@]),
{
}

/// Yt-dlp is replaced exactly where the download passes the checksum list, or there is none: the
/// download takes the place of the installed program. Otherwise the reason is reported.
pub proof fn law_passed_download_is_installed(
    exe: String,
    staged: String,
    staged_text: &str,
    checksum_url: Option<String>,
    asset: String,
    asset_text: &str,
    manifest: Option<Result<String, String>>,
    content: Result<Vec<u8>, String>,
    checked: Result<(), String>,
    action: InstallAction,
)
    requires
        staged_text@ == staged@,
        asset_text@ == asset@,
        call_ensures(
            verify_checksum_if_present,
            (&manifest, staged_text, &content, Some(asset_text)),
            checked,
        ),
        call_ensures(
            after_inspection,
            ((InstallTarget::YtDlp { target: exe, staged, checksum_url, asset }), &manifest, content),
            action,
        ),
    ensures
        checked is Ok ==> (action matches InstallAction::Replace {
            replacement,
            rest: AfterReplace::YtDlp,
        } && replacement.staged@ == staged@ && replacement.target@ == exe@ && replacement.step
            == ReplaceStep::CheckTarget),
        checked matches Err(err) ==> (action matches InstallAction::Finish { result, .. }
            && result is Err && result->Err_0@ == err@),
{
}

/// The ffmpeg programs are unpacked exactly where the archive passes the checksum list, or there is
/// none, and can be read: what is unpacked is what the archive holds of what was asked for. Otherwise
/// the archive is removed, and the reason is reported.
pub proof fn law_passed_archive_is_unpacked(
    kind: ComponentKind,
    app_dir: String,
    zip_path: String,
    zip_text: &str,
    checksum_url: Option<String>,
    asset_name: Option<String>,
    asset_text: Option<&str>,
    manifest: Option<Result<String, String>>,
    content: Result<Vec<u8>, String>,
    checked: Result<(), String>,
    plan: UnpackPlan,
    action: InstallAction,
)
    requires
        zip_text@ == zip_path@,
        opt_slice(asset_text) == opt_text(asset_name),
        call_ensures(
            verify_checksum_if_present,
            (&manifest, zip_text, &content, asset_text),
            checked,
        ),
        content is Ok ==> call_ensures(install_ffmpeg_from_zip, (&content->Ok_0, kind), plan),
        call_ensures(
            after_inspection,
            (
                (InstallTarget::Ffmpeg { kind, app_dir, zip_path, checksum_url, asset_name }),
                &manifest,
                content,
            ),
            action,
        ),
    ensures
        checked is Ok && content is Ok ==> {
            &&& plan@.unpacks.len() > 0 ==> (action matches InstallAction::Create(unpacking)
                && unpack_models(unpacking.unpacks@) == plan@.unpacks && unpacking.app_dir@
                == app_dir@ && unpacking.zip_path@ == zip_path@ && unpacking.kind == kind
                && verdict(unpacking.outcome) == plan@.outcome)
            &&& plan@.unpacks.len() == 0 ==> (action matches InstallAction::Finish { remove, result }
                && texts(remove@) == seq![zip_path@] && (result is Ok <==> plan@.outcome is Ok))
        },
        checked matches Err(err) ==> (action matches InstallAction::Finish { remove, result }
            && result is Err && result->Err_0@ == err@ && texts(remove@) == seq![zip_path@]),
        checked is Ok && content is Err ==> (action matches InstallAction::Finish { remove, result }
            && result is Err && result->Err_0@ == content->Err_0@ && texts(remove@)
            == seq![zip_path@]),
{
    let target = InstallTarget::Ffmpeg { kind, app_dir, zip_path, checksum_url, asset_name };
    assert(target.verdict_on(manifest, content) == verdict(checked));
    if checked is Ok && content is Ok {
        let bytes = content->Ok_0;
        let unpacking = choose|unpacking: Unpacking|
            {
                &&& #[trigger] goes_on(action, unpacking)
                &&& unpacking.kind == kind
                &&& unpacking.app_dir == app_dir
                &&& unpacking.zip_path == zip_path
                &&& unpack_models(unpacking.unpacks@) == zip_plan(bytes@, kind).unpacks
                &&& verdict(unpacking.outcome) == zip_plan(bytes@, kind).outcome
            };
        assert(unpack_models(unpacking.unpacks@).len() == unpacking.unpacks@.len());
    }
}

/// The script is given the running program, its new version and the process to wait for, in this
/// order, and it moves the second in the place of the first.
pub proof fn law_script_is_given_both_programs(job: ScriptJob, process_id: u32, r: Vec<String>)
    requires
        call_ensures(ScriptJob::arguments, (&job, process_id), r),
    ensures
        r@.len() == 3,
        r@[0]@ == job.target@,
        r@[1]@ == job.staged@,
        r@[2]@ == crate::text::decimal(process_id as nat),
{
    assert(texts(r@).len() == r@.len());
    assert(texts(r@)[0] == r@[0]@);
    assert(texts(r@)[1] == r@[1]@);
    assert(texts(r@)[2] == r@[2]@);
}

/// A script that was written is started, and one that was started ends the installation well, with
/// this program to be started anew. A script that could not be written or started ends it with the
/// reason, and the download is removed, with the script if that was written.
pub proof fn law_script_is_started(
    job: ScriptJob,
    reply: FileReply,
    written: InstallAction,
    started: InstallAction,
)
    requires
        call_ensures(after_script, (job, reply), written),
        call_ensures(after_start, (job, reply), started),
    ensures
        reply is Done ==> written == InstallAction::StartScript(job),
        reply is Done ==> (started matches InstallAction::Finish { remove, result } && remove@.len()
            == 0 && result matches Ok(InstallResult::RestartRequired(_))),
        reply matches FileReply::Failed(err) ==> (written matches InstallAction::Finish {
            remove,
            result,
        } && result is Err && result->Err_0@ == err@ && texts(remove@) == seq![job.staged@]),
        reply matches FileReply::Failed(err) ==> (started matches InstallAction::Finish {
            remove,
            result,
        } && result is Err && result->Err_0@ == err@ && texts(remove@) == seq![
            job.script@,
            job.staged@,
        ]),
{
    if let InstallAction::Finish { remove, result } = started {
        assert(texts(remove@).len() == remove@.len());
    }
}

/// A program for which a file could be created and whose content was read is written; otherwise the
/// installation ends with the reason, and the archive is removed.
pub proof fn law_created_file_is_written(
    unpacking: Unpacking,
    reply: FileReply,
    action: InstallAction,
)
    requires
        unpacking.unpacks@.len() > 0,
        call_ensures(after_creation, (unpacking, reply), action),
    ensures
        reply is Done && unpacking.unpacks@[0].content is Ok ==> action == InstallAction::Write(
            unpacking,
        ),
        reply matches FileReply::Failed(err) ==> (action matches InstallAction::Finish { result, .. }
            && result is Err && result->Err_0@ == err@),
        reply is Done && unpacking.unpacks@[0].content is Err ==> (action matches
            InstallAction::Finish { result, .. } && result is Err && result->Err_0@
            == unpacking.unpacks@[0].content->Err_0@),
{
}

/// After a replacement that is over, the installation of yt-dlp ends as the replacement did; that of
/// the ffmpeg programs goes on with what is left, or ends where the replacement failed.
pub proof fn law_installation_goes_on_after_a_replacement(
    replacement: Replacement,
    rest: AfterReplace,
    reply: FileReply,
    next: Replacement,
    action: InstallAction,
)
    requires
        call_ensures(Replacement::reply, (replacement, reply), next),
        call_ensures(after_replacing, (replacement, rest, reply), action),
    ensures
        !(next.step is Over) ==> action == (InstallAction::Replace { replacement: next, rest }),
        next.step matches ReplaceStep::Over(Err(err)) ==> (action matches InstallAction::Finish {
            result,
            ..
        } && result is Err && result->Err_0@ == err@),
        next.step matches ReplaceStep::Over(Ok(_)) ==> {
            &&& rest is YtDlp ==> (action matches InstallAction::Finish { result, .. } && result is Ok)
            &&& rest matches AfterReplace::Ffmpeg(unpacking) ==> {
                &&& unpacking.unpacks@.len() > 0 ==> action == InstallAction::Create(unpacking)
                &&& unpacking.unpacks@.len() == 0 ==> (action matches InstallAction::Finish {
                    result,
                    ..
                } && (result is Ok <==> unpacking.outcome is Ok))
            }
        },
{
}

/// How an installation ends is told by what was installed, and only the program's own installation asks
/// for a restart. What is left over is removed: the archive of the ffmpeg programs, and nothing of
/// yt-dlp, whose download has become the program or stays for another attempt.
pub proof fn law_end_of_installation_is_told(
    replacement: Replacement,
    rest: AfterReplace,
    reply: FileReply,
    next: Replacement,
    action: InstallAction,
)
    requires
        call_ensures(Replacement::reply, (replacement, reply), next),
        call_ensures(after_replacing, (replacement, rest, reply), action),
    ensures
        action matches InstallAction::Finish { remove, result } ==> {
            &&& rest is YtDlp ==> remove@.len() == 0
            &&& rest is YtDlp && result is Ok ==> (result matches Ok(InstallResult::Installed(text))
                && text@ == "yt-dlp обновлён"@)
            &&& rest matches AfterReplace::Ffmpeg(unpacking) ==> {
                &&& texts(remove@) == seq![unpacking.zip_path@]
                &&& result is Ok ==> (result matches Ok(InstallResult::Installed(text)) && text@
                    == match unpacking.kind {
                    ComponentKind::Ffmpeg => "ffmpeg обновлён"@,
                    ComponentKind::Ffprobe => "ffprobe обновлён"@,
                    _ => "ffmpeg/ffprobe обновлены"@,
                })
                &&& next.step matches ReplaceStep::Over(Ok(_)) ==> (unpacking.outcome matches Err(
                    err,
                ) ==> result is Err && result->Err_0@ == err@)
            }
        },
{
    if let InstallAction::Finish { remove, result } = action {
        assert(texts(remove@).len() == remove@.len());
    }
}

/// The script takes its three arguments, waits until the process has ended, moves the new version over
/// the program, thirty times at most, starts the program as it was where that failed and the new
/// version where it did not, and removes itself.
pub proof fn law_script_replaces_the_program(r: &'static str)
    requires
        call_ensures(self_update_script, (), r),
    ensures
        r@ == "@echo off\r\nsetlocal\r\nset \"TARGET=%~1\"\r\nset \"STAGED=%~2\"\r\nset \"PID=%~3\"\r\n"@
            + ":wait\r\ntasklist /FI \"PID eq %PID%\" 2>NUL | find \"%PID%\" >NUL\r\nif not errorlevel 1 (\r\n  timeout /T 1 /NOBREAK >NUL\r\n  goto wait\r\n)\r\n"@
            + "set /A ATTEMPTS=0\r\n:replace\r\nmove /Y \"%STAGED%\" \"%TARGET%\" >NUL 2>&1\r\nif not errorlevel 1 goto launch\r\nset /A ATTEMPTS+=1\r\nif %ATTEMPTS% GEQ 30 goto failed\r\ntimeout /T 1 /NOBREAK >NUL\r\ngoto replace\r\n"@
            + ":failed\r\nstart \"\" \"%TARGET%\"\r\nexit /B 1\r\n"@
            + ":launch\r\nif /I \"%~4\"==\"--no-launch\" goto cleanup\r\nstart \"\" \"%TARGET%\"\r\n"@
            + ":cleanup\r\n(goto) 2>NUL & del \"%~f0\"\r\n"@,
{
    let text = SELF_UPDATE_SCRIPT@;
    reveal_strlit("@echo off\r\nsetlocal\r\nset \"TARGET=%~1\"\r\nset \"STAGED=%~2\"\r\nset \"PID=%~3\"\r\n:wait\r\ntasklist /FI \"PID eq %PID%\" 2>NUL | find \"%PID%\" >NUL\r\nif not errorlevel 1 (\r\n  timeout /T 1 /NOBREAK >NUL\r\n  goto wait\r\n)\r\nset /A ATTEMPTS=0\r\n:replace\r\nmove /Y \"%STAGED%\" \"%TARGET%\" >NUL 2>&1\r\nif not errorlevel 1 goto launch\r\nset /A ATTEMPTS+=1\r\nif %ATTEMPTS% GEQ 30 goto failed\r\ntimeout /T 1 /NOBREAK >NUL\r\ngoto replace\r\n:failed\r\nstart \"\" \"%TARGET%\"\r\nexit /B 1\r\n:launch\r\nif /I \"%~4\"==\"--no-launch\" goto cleanup\r\nstart \"\" \"%TARGET%\"\r\n:cleanup\r\n(goto) 2>NUL & del \"%~f0\"\r\n");
    reveal_strlit("@echo off\r\nsetlocal\r\nset \"TARGET=%~1\"\r\nset \"STAGED=%~2\"\r\nset \"PID=%~3\"\r\n");
    reveal_strlit(":wait\r\ntasklist /FI \"PID eq %PID%\" 2>NUL | find \"%PID%\" >NUL\r\nif not errorlevel 1 (\r\n  timeout /T 1 /NOBREAK >NUL\r\n  goto wait\r\n)\r\n");
    reveal_strlit("set /A ATTEMPTS=0\r\n:replace\r\nmove /Y \"%STAGED%\" \"%TARGET%\" >NUL 2>&1\r\nif not errorlevel 1 goto launch\r\nset /A ATTEMPTS+=1\r\nif %ATTEMPTS% GEQ 30 goto failed\r\ntimeout /T 1 /NOBREAK >NUL\r\ngoto replace\r\n");
    reveal_strlit(":failed\r\nstart \"\" \"%TARGET%\"\r\nexit /B 1\r\n");
    reveal_strlit(":launch\r\nif /I \"%~4\"==\"--no-launch\" goto cleanup\r\nstart \"\" \"%TARGET%\"\r\n");
    reveal_strlit(":cleanup\r\n(goto) 2>NUL & del \"%~f0\"\r\n");
    assert(text =~= "@echo off\r\nsetlocal\r\nset \"TARGET=%~1\"\r\nset \"STAGED=%~2\"\r\nset \"PID=%~3\"\r\n"@
        + ":wait\r\ntasklist /FI \"PID eq %PID%\" 2>NUL | find \"%PID%\" >NUL\r\nif not errorlevel 1 (\r\n  timeout /T 1 /NOBREAK >NUL\r\n  goto wait\r\n)\r\n"@
        + "set /A ATTEMPTS=0\r\n:replace\r\nmove /Y \"%STAGED%\" \"%TARGET%\" >NUL 2>&1\r\nif not errorlevel 1 goto launch\r\nset /A ATTEMPTS+=1\r\nif %ATTEMPTS% GEQ 30 goto failed\r\ntimeout /T 1 /NOBREAK >NUL\r\ngoto replace\r\n"@
        + ":failed\r\nstart \"\" \"%TARGET%\"\r\nexit /B 1\r\n"@
        + ":launch\r\nif /I \"%~4\"==\"--no-launch\" goto cleanup\r\nstart \"\" \"%TARGET%\"\r\n"@
        + ":cleanup\r\n(goto) 2>NUL & del \"%~f0\"\r\n"@);
}

/// What is removed where a download fails or does not pass: the archive of the ffmpeg programs in either
/// case, the new version of this program only where it does not pass, and nothing of yt-dlp.
pub proof fn law_failed_download_is_removed(
    url: &str,
    target: InstallTarget,
    reply: DownloadReply,
    manifest: Option<Result<String, String>>,
    content: Result<Vec<u8>, String>,
    failed: InstallAction,
    inspected: InstallAction,
)
    requires
        !(reply is Saved),
        call_ensures(after_download, (url, target, reply), failed),
        call_ensures(after_inspection, (target, &manifest, content), inspected),
        inspected matches InstallAction::Finish { result, .. } && result is Err,
    ensures
        failed is Finish,
        target is App ==> failed->remove@.len() == 0 && texts(inspected->remove@) == seq![
            target->App_staged@,
        ],
        target is YtDlp ==> failed->remove@.len() == 0 && inspected->remove@.len() == 0,
        target is Ffmpeg ==> texts(failed->remove@) == seq![target->zip_path@] && texts(
            inspected->remove@,
        ) == seq![target->zip_path@],
{
    assert(texts(failed->remove@).len() == failed->remove@.len());
    assert(texts(inspected->remove@).len() == inspected->remove@.len());
    if target is Ffmpeg && target.verdict_on(manifest, content) is Ok && content is Ok {
        let plan = zip_plan(content->Ok_0@, target->kind);
        let unpacking = choose|unpacking: Unpacking|
            {
                &&& #[trigger] goes_on(inspected, unpacking)
                &&& unpacking.kind == target->kind
                &&& unpacking.app_dir == target->app_dir
                &&& unpacking.zip_path == target->zip_path
                &&& unpack_models(unpacking.unpacks@) == plan.unpacks
                &&& verdict(unpacking.outcome) == plan.outcome
            };
        assert(goes_on(inspected, unpacking));
    }
}

} // verus!
