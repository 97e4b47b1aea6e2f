//! Components: what is installed, what the latest releases are, and what is to be updated.
use crate::paths::{join_path, joined_path};
use crate::release::{
    fetch_release, fetched_release, find_asset, opt_asset, opt_release, release_asset, AssetModel,
    AssetQuery, HttpReply, ReleaseAsset, ReleaseInfo, ReleaseModel,
};
use crate::text::{
    all_white, cat, decimal, is_digit, opt_text, push_text, same, texts,
};
use crate::version::{
    all_v, compare_versions, compared, lemma_three_numbers, lossy_text, normal_version,
    normalize_version, output_version, read_version_from_binary, to_semver, ProgramOutput,
    ReleaseVersion,
};
use std::cmp::Ordering;
use vstd::prelude::*;

verus! {

/// Where the latest release of yt-dlp is described.
pub const YT_DLP_RELEASES_API: &'static str =
    "https://api.github.com/repos/yt-dlp/yt-dlp/releases/latest";

/// Where the latest release of ffmpeg is described.
pub const FFMPEG_RELEASES_API: &'static str =
    "https://api.github.com/repos/GyanD/codexffmpeg/releases/latest";

/// Where the latest release of this program is described.
pub const APP_RELEASES_API: &'static str =
    "https://api.github.com/repos/amd64fox/ytdlp-ui/releases/latest";

/// The file of a release that is this program.
pub const APP_RELEASE_ASSET: &'static str = "ytdlp-ui-x64.exe";

/// The version of this program.
pub const APP_VERSION: &'static str = "0.1.0";

/// The home of this program.
pub const APP_REPOSITORY_URL: &'static str = "https://github.com/amd64fox/ytdlp-ui";

/// How this program introduces itself to the release service.
pub fn user_agent() -> (r: String)
    ensures
        r@ == "ytdlp-ui/"@ + APP_VERSION@,
{
    cat("ytdlp-ui/", APP_VERSION)
}

/// A program that this one installs and runs.
#[derive(Clone, Copy, Debug, PartialEq, Eq, Structural)]
pub enum InstalledProgram {
    YtDlp,
    Ffmpeg,
    Ffprobe,
}

impl InstalledProgram {
    /// The file of the program.
    pub open spec fn file_text(self) -> Seq<char> {
        match self {
            InstalledProgram::YtDlp => "yt-dlp.exe"@,
            InstalledProgram::Ffmpeg => "ffmpeg.exe"@,
            InstalledProgram::Ffprobe => "ffprobe.exe"@,
        }
    }

    /// Where the program is, beside this one in the folder `app_dir`.
    pub fn path(self, app_dir: &str) -> (r: String)
        ensures
            r@ == joined_path(app_dir@, self.file_text()),
    {
        match self {
            InstalledProgram::YtDlp => join_path(app_dir, "yt-dlp.exe"),
            InstalledProgram::Ffmpeg => join_path(app_dir, "ffmpeg.exe"),
            InstalledProgram::Ffprobe => join_path(app_dir, "ffprobe.exe"),
        }
    }

    /// What has the program print its version.
    pub fn version_argument(self) -> (r: &'static str)
        ensures
            r@ == if self == InstalledProgram::YtDlp {
                "--version"@
            } else {
                "-version"@
            },
    {
        match self {
            InstalledProgram::YtDlp => "--version",
            InstalledProgram::Ffmpeg | InstalledProgram::Ffprobe => "-version",
        }
    }
}

/// What can be updated.
#[derive(Clone, Copy, Debug, PartialEq, Eq, Structural)]
pub enum ComponentKind {
    YtDlpGui,
    YtDlp,
    Ffmpeg,
    Ffprobe,
    /// Ffmpeg and ffprobe together.
    FfmpegBundle,
}

/// How an installed component stands to its latest release.
#[derive(Clone, Copy, Debug, PartialEq, Eq, Structural)]
pub enum ComponentStatus {
    UpToDate,
    Missing,
    UpdateAvailable,
    Unknown,
}

/// A component, and where its latest release is found.
#[derive(Debug)]
pub struct ComponentInfo {
    pub kind: ComponentKind,
    pub title: String,
    pub local_version: Option<String>,
    pub latest_version: Option<String>,
    pub status: ComponentStatus,
    pub asset_name: Option<String>,
    pub download_url: Option<String>,
    pub checksum_url: Option<String>,
    pub digest: Option<String>,
}

/// What a component is.
#[verifier::ext_equal]
pub struct ComponentModel {
    pub kind: ComponentKind,
    pub title: Seq<char>,
    pub local_version: Option<Seq<char>>,
    pub latest_version: Option<Seq<char>>,
    pub status: ComponentStatus,
    pub asset_name: Option<Seq<char>>,
    pub download_url: Option<Seq<char>>,
    pub checksum_url: Option<Seq<char>>,
    pub digest: Option<Seq<char>>,
}

impl View for ComponentInfo {
    type V = ComponentModel;

    open spec fn view(&self) -> ComponentModel {
        ComponentModel {
            kind: self.kind,
            title: self.title@,
            local_version: opt_text(self.local_version),
            latest_version: opt_text(self.latest_version),
            status: self.status,
            asset_name: opt_text(self.asset_name),
            download_url: opt_text(self.download_url),
            checksum_url: opt_text(self.checksum_url),
            digest: opt_text(self.digest),
        }
    }
}

/// A copy of an optional text.
pub fn copy_text(text: &Option<String>) -> (r: Option<String>)
    ensures
        r == *text,
{
    match text {
        Some(text) => Some(text.clone()),
        None => None,
    }
}

impl Clone for ComponentInfo {
    fn clone(&self) -> (r: Self)
        ensures
            r == *self,
    {
        ComponentInfo {
            kind: self.kind,
            title: self.title.clone(),
            local_version: copy_text(&self.local_version),
            latest_version: copy_text(&self.latest_version),
            status: self.status,
            asset_name: copy_text(&self.asset_name),
            download_url: copy_text(&self.download_url),
            checksum_url: copy_text(&self.checksum_url),
            digest: copy_text(&self.digest),
        }
    }
}

/// What the components of `list` are.
pub open spec fn components(list: Seq<ComponentInfo>) -> Seq<ComponentModel> {
    list.map_values(|component: ComponentInfo| component@)
}

/// What a check for updates found.
pub struct UpdateReport {
    pub components: Vec<ComponentInfo>,
    pub warnings: Vec<String>,
}

/// How the installation of a component ended.
#[derive(Debug)]
pub enum InstallResult {
    Installed(String),
    RestartRequired(String),
}

/// How an installed version stands to the latest one. Texts that are no versions are up to date
/// only where they are the same.
pub open spec fn component_status(
    local: Option<Seq<char>>,
    latest: Option<Seq<char>>,
) -> ComponentStatus {
    match (local, latest) {
        (None, Some(_)) => ComponentStatus::Missing,
        (_, None) => ComponentStatus::Unknown,
        (Some(local), Some(latest)) => match compared(local, latest) {
            Some(Ordering::Less) => ComponentStatus::UpdateAvailable,
            Some(_) => ComponentStatus::UpToDate,
            None => if normal_version(local) == normal_version(latest) {
                ComponentStatus::UpToDate
            } else {
                ComponentStatus::UpdateAvailable
            },
        },
    }
}

/// How an installed version stands to the latest one.
fn status_of(local: &Option<String>, latest: &Option<String>) -> (r: ComponentStatus)
    ensures
        r == component_status(opt_text(*local), opt_text(*latest)),
{
    match (local, latest) {
        (None, Some(_)) => ComponentStatus::Missing,
        (_, None) => ComponentStatus::Unknown,
        (Some(local), Some(latest)) => match compare_versions(local.as_str(), latest.as_str()) {
            Some(Ordering::Less) => ComponentStatus::UpdateAvailable,
            Some(_) => ComponentStatus::UpToDate,
            None => {
                let a = normalize_version(local.as_str());
                let b = normalize_version(latest.as_str());
                if same(a.as_str(), b.as_str()) {
                    ComponentStatus::UpToDate
                } else {
                    ComponentStatus::UpdateAvailable
                }
            },
        },
    }
}

/// The component with the given versions and addresses; its status follows from the versions.
pub fn build_component(
    kind: ComponentKind,
    title: &str,
    local_version: Option<String>,
    latest_version: Option<String>,
    asset_name: Option<String>,
    download_url: Option<String>,
    checksum_url: Option<String>,
    digest: Option<String>,
) -> (r: ComponentInfo)
    ensures
        r@ == (ComponentModel {
            kind,
            title: title@,
            local_version: opt_text(local_version),
            latest_version: opt_text(latest_version),
            status: component_status(opt_text(local_version), opt_text(latest_version)),
            asset_name: opt_text(asset_name),
            download_url: opt_text(download_url),
            checksum_url: opt_text(checksum_url),
            digest: opt_text(digest),
        }),
{
    let status = status_of(&local_version, &latest_version);
    ComponentInfo {
        kind,
        title: title.to_owned(),
        local_version,
        latest_version,
        status,
        asset_name,
        download_url,
        checksum_url,
        digest,
    }
}

/// What the release service answered about each component.
pub struct ReleaseReplies {
    pub app: HttpReply,
    pub yt_dlp: HttpReply,
    pub ffmpeg: HttpReply,
}

/// What a check for updates is made of: the answers of the release service, or why it could not be
/// asked, and what the installed programs print when asked for their version.
pub struct UpdateSources {
    pub replies: Result<ReleaseReplies, String>,
    pub yt_dlp: Option<ProgramOutput>,
    pub ffmpeg: Option<ProgramOutput>,
    pub ffprobe: Option<ProgramOutput>,
}

/// The release that was answered with, where there is one.
pub open spec fn answered_release(reply: Option<HttpReply>) -> Option<ReleaseModel> {
    match reply {
        Some(reply) => match fetched_release(reply) {
            Ok(release) => Some(release),
            Err(_) => None,
        },
        None => None,
    }
}

/// What is said of an answer that gave no release.
pub open spec fn release_warnings(reply: Option<HttpReply>, intro: Seq<char>) -> Seq<Seq<char>> {
    match reply {
        Some(reply) => match fetched_release(reply) {
            Ok(_) => Seq::empty(),
            Err(err) => seq![intro + err],
        },
        None => Seq::empty(),
    }
}

/// The version that an installed program tells.
pub open spec fn installed_version(output: Option<ProgramOutput>) -> Option<Seq<char>> {
    match output {
        Some(output) => if output.success {
            Some(output_version(lossy_text(output.stdout@)))
        } else {
            None
        },
        None => None,
    }
}

/// The tag of a release.
pub open spec fn release_tag(release: Option<ReleaseModel>) -> Option<Seq<char>> {
    match release {
        Some(release) => Some(release.tag),
        None => None,
    }
}

/// The name of a file of a release.
pub open spec fn asset_name(asset: Option<AssetModel>) -> Option<Seq<char>> {
    match asset {
        Some(asset) => Some(asset.name),
        None => None,
    }
}

/// The address of a file of a release.
pub open spec fn asset_url(asset: Option<AssetModel>) -> Option<Seq<char>> {
    match asset {
        Some(asset) => Some(asset.url),
        None => None,
    }
}

/// The digest of a file of a release.
pub open spec fn asset_digest(asset: Option<AssetModel>) -> Option<Seq<char>> {
    match asset {
        Some(asset) => asset.digest,
        None => None,
    }
}

/// The component of which `release` is the latest release.
pub open spec fn released_component(
    kind: ComponentKind,
    title: Seq<char>,
    local_version: Option<Seq<char>>,
    release: Option<ReleaseModel>,
    asset: Option<AssetModel>,
    checksum: Option<AssetModel>,
    digest: Option<Seq<char>>,
) -> ComponentModel {
    ComponentModel {
        kind,
        title,
        local_version,
        latest_version: release_tag(release),
        status: component_status(local_version, release_tag(release)),
        asset_name: asset_name(asset),
        download_url: asset_url(asset),
        checksum_url: asset_url(checksum),
        digest,
    }
}

impl UpdateSources {
    /// The answer about this program.
    pub open spec fn app_reply(self) -> Option<HttpReply> {
        match self.replies {
            Ok(replies) => Some(replies.app),
            Err(_) => None,
        }
    }

    /// The answer about yt-dlp.
    pub open spec fn yt_dlp_reply(self) -> Option<HttpReply> {
        match self.replies {
            Ok(replies) => Some(replies.yt_dlp),
            Err(_) => None,
        }
    }

    /// The answer about ffmpeg.
    pub open spec fn ffmpeg_reply(self) -> Option<HttpReply> {
        match self.replies {
            Ok(replies) => Some(replies.ffmpeg),
            Err(_) => None,
        }
    }

    /// This program as a component. A release states its digest.
    pub open spec fn app_component(self) -> ComponentModel {
        let release = answered_release(self.app_reply());
        let asset = release_asset(release, AssetQuery::Named(APP_RELEASE_ASSET));
        released_component(
            ComponentKind::YtDlpGui,
            "yt-dlp GUI"@,
            Some(APP_VERSION@),
            release,
            asset,
            None,
            asset_digest(asset),
        )
    }

    /// Yt-dlp as a component. A checksum list states its digest.
    pub open spec fn yt_dlp_component(self) -> ComponentModel {
        let release = answered_release(self.yt_dlp_reply());
        released_component(
            ComponentKind::YtDlp,
            "yt-dlp"@,
            installed_version(self.yt_dlp),
            release,
            release_asset(release, AssetQuery::Named("yt-dlp.exe")),
            release_asset(release, AssetQuery::Holding("SHA2-256SUMS")),
            None,
        )
    }

    /// One of the two ffmpeg programs as a component. A checksum list states its digest.
    pub open spec fn ffmpeg_component(
        self,
        kind: ComponentKind,
        title: Seq<char>,
        output: Option<ProgramOutput>,
    ) -> ComponentModel {
        let release = answered_release(self.ffmpeg_reply());
        released_component(
            kind,
            title,
            installed_version(output),
            release,
            release_asset(release, AssetQuery::FfmpegZip),
            release_asset(release, AssetQuery::FfmpegChecksum),
            None,
        )
    }

    /// What a check for updates reports of the components.
    pub open spec fn reported_components(self) -> Seq<ComponentModel> {
        seq![
            self.app_component(),
            self.yt_dlp_component(),
            self.ffmpeg_component(ComponentKind::Ffmpeg, "ffmpeg"@, self.ffmpeg),
            self.ffmpeg_component(ComponentKind::Ffprobe, "ffprobe"@, self.ffprobe),
        ]
    }

    /// What a check for updates warns of.
    pub open spec fn reported_warnings(self) -> Seq<Seq<char>> {
        match self.replies {
            Err(err) => seq![
                ">>> Не удалось создать HTTP-клиент для проверки обновлений: "@ + err@,
            ],
            Ok(replies) => release_warnings(
                Some(replies.app),
                ">>> Не удалось получить релиз yt-dlp GUI: "@,
            ) + release_warnings(Some(replies.yt_dlp), ">>> Не удалось получить релиз yt-dlp: "@)
                + release_warnings(Some(replies.ffmpeg), ">>> Не удалось получить релиз ffmpeg: "@),
        }
    }
}

/// The release in an answer; where there is none, a warning is added.
fn take_release(reply: Option<&HttpReply>, intro: &str, warnings: &mut Vec<String>) -> (r: Option<
    ReleaseInfo,
>)
    ensures
        ({
            let given = match reply {
                Some(reply) => Some(*reply),
                None => None,
            };
            &&& opt_release(r) == answered_release(given)
            &&& texts(final(warnings)@) == texts(old(warnings)@) + release_warnings(given, intro@)
        }),
{
    match reply {
        Some(reply) => match fetch_release(reply) {
            Ok(release) => {
                assert(texts(warnings@) =~= texts(warnings@) + Seq::<Seq<char>>::empty());
                Some(release)
            },
            Err(err) => {
                let text = cat(intro, err.as_str());
                push_text(warnings, text.as_str());
                assert(texts(old(warnings)@).push(text@) =~= texts(old(warnings)@) + seq![text@]);
                None
            },
        },
        None => {
            assert(texts(warnings@) =~= texts(warnings@) + Seq::<Seq<char>>::empty());
            None
        },
    }
}

/// The component of which `release` is the latest release.
fn component_of(
    kind: ComponentKind,
    title: &str,
    local_version: Option<String>,
    release: &Option<ReleaseInfo>,
    asset: Option<ReleaseAsset>,
    checksum: Option<ReleaseAsset>,
    with_digest: bool,
) -> (r: ComponentInfo)
    ensures
        r@ == released_component(
            kind,
            title@,
            opt_text(local_version),
            opt_release(*release),
            opt_asset(asset),
            opt_asset(checksum),
            if with_digest {
                asset_digest(opt_asset(asset))
            } else {
                None
            },
        ),
{
    let latest_version = match release {
        Some(release) => Some(release.tag.clone()),
        None => None,
    };
    let checksum_url = match checksum {
        Some(checksum) => Some(checksum.url),
        None => None,
    };
    let (asset_name, download_url, digest) = match asset {
        Some(asset) => (
            Some(asset.name),
            Some(asset.url),
            if with_digest {
                asset.digest
            } else {
                None
            },
        ),
        None => (None, None, None),
    };
    build_component(
        kind,
        title,
        local_version,
        latest_version,
        asset_name,
        download_url,
        checksum_url,
        digest,
    )
}

/// Compares what is installed with the latest releases: this program, yt-dlp, ffmpeg and ffprobe,
/// in this order. What could not be learned of the releases is warned of.
pub fn check_for_updates(sources: UpdateSources) -> (r: UpdateReport)
    ensures
        components(r.components@) == sources.reported_components(),
        texts(r.warnings@) == sources.reported_warnings(),
{
    let mut warnings: Vec<String> = Vec::new();
    assert(texts(warnings@) =~= Seq::<Seq<char>>::empty());
    let replies = match &sources.replies {
        Ok(replies) => Some(replies),
        Err(err) => {
            let text = cat(
                ">>> Не удалось создать HTTP-клиент для проверки обновлений: ",
                err.as_str(),
            );
            push_text(&mut warnings, text.as_str());
            None
        },
    };
    let (app_reply, yt_dlp_reply, ffmpeg_reply) = match replies {
        Some(replies) => (Some(&replies.app), Some(&replies.yt_dlp), Some(&replies.ffmpeg)),
        None => (None, None, None),
    };

    let app_release = take_release(
        app_reply,
        ">>> Не удалось получить релиз yt-dlp GUI: ",
        &mut warnings,
    );
    let app_asset = find_asset(&app_release, AssetQuery::Named(APP_RELEASE_ASSET));
    let app = component_of(
        ComponentKind::YtDlpGui,
        "yt-dlp GUI",
        Some(APP_VERSION.to_owned()),
        &app_release,
        app_asset,
        None,
        true,
    );
    assert(app@ == sources.app_component());

    let yt_dlp_local = read_version_from_binary(sources.yt_dlp);
    let yt_dlp_release = take_release(
        yt_dlp_reply,
        ">>> Не удалось получить релиз yt-dlp: ",
        &mut warnings,
    );
    let yt_dlp_asset = find_asset(&yt_dlp_release, AssetQuery::Named("yt-dlp.exe"));
    let yt_dlp_checksum = find_asset(&yt_dlp_release, AssetQuery::Holding("SHA2-256SUMS"));
    let yt_dlp = component_of(
        ComponentKind::YtDlp,
        "yt-dlp",
        yt_dlp_local,
        &yt_dlp_release,
        yt_dlp_asset,
        yt_dlp_checksum,
        false,
    );
    assert(yt_dlp@ == sources.yt_dlp_component());

    let ffmpeg_local = read_version_from_binary(sources.ffmpeg);
    let ffprobe_local = read_version_from_binary(sources.ffprobe);
    let ffmpeg_release = take_release(
        ffmpeg_reply,
        ">>> Не удалось получить релиз ffmpeg: ",
        &mut warnings,
    );
    let ffmpeg = component_of(
        ComponentKind::Ffmpeg,
        "ffmpeg",
        ffmpeg_local,
        &ffmpeg_release,
        find_asset(&ffmpeg_release, AssetQuery::FfmpegZip),
        find_asset(&ffmpeg_release, AssetQuery::FfmpegChecksum),
        false,
    );
    let ffprobe = component_of(
        ComponentKind::Ffprobe,
        "ffprobe",
        ffprobe_local,
        &ffmpeg_release,
        find_asset(&ffmpeg_release, AssetQuery::FfmpegZip),
        find_asset(&ffmpeg_release, AssetQuery::FfmpegChecksum),
        false,
    );
    let list = vec![app, yt_dlp, ffmpeg, ffprobe];
    assert(components(list@) =~= sources.reported_components());
    assert(texts(warnings@) =~= sources.reported_warnings());
    UpdateReport { components: list, warnings }
}

/// The first component of `list` of the given kind.
pub open spec fn first_of_kind(list: Seq<ComponentModel>, kind: ComponentKind) -> Option<
    ComponentModel,
>
    decreases list.len(),
{
    if list.len() == 0 {
        None
    } else if list[0].kind == kind {
        Some(list[0])
    } else {
        first_of_kind(list.drop_first(), kind)
    }
}

/// Whether a component is one of the two ffmpeg programs.
pub open spec fn is_ffmpeg_kind(kind: ComponentKind) -> bool {
    kind == ComponentKind::Ffmpeg || kind == ComponentKind::Ffprobe
}

/// The first component of `list` that is one of the ffmpeg programs and, where asked for, has an
/// address to download from.
pub open spec fn first_ffmpeg(list: Seq<ComponentModel>, with_url: bool) -> Option<ComponentModel>
    decreases list.len(),
{
    if list.len() == 0 {
        None
    } else if is_ffmpeg_kind(list[0].kind) && (with_url ==> list[0].download_url is Some) {
        Some(list[0])
    } else {
        first_ffmpeg(list.drop_first(), with_url)
    }
}

/// The component as a list.
pub open spec fn listed(component: Option<ComponentModel>) -> Seq<ComponentModel> {
    match component {
        Some(component) => seq![component],
        None => Seq::empty(),
    }
}

/// The component of the given kind, where it is selected.
pub open spec fn picked(
    candidates: Seq<ComponentModel>,
    selected: Seq<ComponentKind>,
    kind: ComponentKind,
) -> Seq<ComponentModel> {
    if selected.contains(kind) {
        listed(first_of_kind(candidates, kind))
    } else {
        Seq::empty()
    }
}

/// The ffmpeg programs that are selected, as one component.
pub open spec fn picked_ffmpeg(
    candidates: Seq<ComponentModel>,
    selected: Seq<ComponentKind>,
) -> Seq<ComponentModel> {
    let ffmpeg = selected.contains(ComponentKind::Ffmpeg);
    let ffprobe = selected.contains(ComponentKind::Ffprobe);
    let template = if first_ffmpeg(candidates, true) is Some {
        first_ffmpeg(candidates, true)
    } else {
        first_ffmpeg(candidates, false)
    };
    match template {
        Some(template) => if ffmpeg && ffprobe {
            seq![
                ComponentModel {
                    kind: ComponentKind::FfmpegBundle,
                    title: "ffmpeg/ffprobe"@,
                    ..template
                },
            ]
        } else if ffmpeg {
            seq![ComponentModel { kind: ComponentKind::Ffmpeg, title: "ffmpeg"@, ..template }]
        } else if ffprobe {
            seq![ComponentModel { kind: ComponentKind::Ffprobe, title: "ffprobe"@, ..template }]
        } else {
            Seq::empty()
        },
        None => Seq::empty(),
    }
}

/// What is installed, in this order, when the `selected` kinds are to be updated: yt-dlp, the
/// ffmpeg programs as one, and this program last.
pub open spec fn update_targets(
    candidates: Seq<ComponentModel>,
    selected: Seq<ComponentKind>,
) -> Seq<ComponentModel> {
    picked(candidates, selected, ComponentKind::YtDlp) + picked_ffmpeg(candidates, selected)
        + picked(candidates, selected, ComponentKind::YtDlpGui)
}

/// Whether `list` holds `kind`.
pub fn holds_kind(list: &[ComponentKind], kind: ComponentKind) -> (r: bool)
    ensures
        r == list@.contains(kind),
{
    let mut i: usize = 0;
    while i < list.len()
        invariant
            i <= list.len(),
            forall|j: int| 0 <= j < i ==> list@[j] != kind,
        decreases list.len() - i,
    {
        if list[i] == kind {
            return true;
        }
        i = i + 1;
    }
    false
}

/// The first component of `list` of the given kind.
fn find_kind(list: &[ComponentInfo], kind: ComponentKind) -> (r: Option<ComponentInfo>)
    ensures
        match r {
            Some(component) => first_of_kind(components(list@), kind) == Some(component@),
            None => first_of_kind(components(list@), kind) is None,
        },
{
    let ghost all = components(list@);
    assert(all.skip(0) =~= all);
    let mut i: usize = 0;
    while i < list.len()
        invariant
            i <= list.len(),
            all == components(list@),
            first_of_kind(all, kind) == first_of_kind(all.skip(i as int), kind),
        decreases list.len() - i,
    {
        assert(all.skip(i as int)[0] == list@[i as int]@);
        if list[i].kind == kind {
            return Some(list[i].clone());
        }
        assert(all.skip(i as int).drop_first() =~= all.skip(i + 1));
        i = i + 1;
    }
    None
}

/// The first component of `list` that is one of the ffmpeg programs and, where asked for, has an
/// address to download from.
fn find_ffmpeg(list: &[ComponentInfo], with_url: bool) -> (r: Option<ComponentInfo>)
    ensures
        match r {
            Some(component) => first_ffmpeg(components(list@), with_url) == Some(component@),
            None => first_ffmpeg(components(list@), with_url) is None,
        },
{
    let ghost all = components(list@);
    assert(all.skip(0) =~= all);
    let mut i: usize = 0;
    while i < list.len()
        invariant
            i <= list.len(),
            all == components(list@),
            first_ffmpeg(all, with_url) == first_ffmpeg(all.skip(i as int), with_url),
        decreases list.len() - i,
    {
        assert(all.skip(i as int)[0] == list@[i as int]@);
        let kind = list[i].kind;
        if (kind == ComponentKind::Ffmpeg || kind == ComponentKind::Ffprobe) && (!with_url
            || list[i].download_url.is_some()) {
            return Some(list[i].clone());
        }
        assert(all.skip(i as int).drop_first() =~= all.skip(i + 1));
        i = i + 1;
    }
    None
}

/// Adds the component of the given kind, where it is selected.
fn push_picked(
    list: &mut Vec<ComponentInfo>,
    candidates: &[ComponentInfo],
    selected: &[ComponentKind],
    kind: ComponentKind,
)
    ensures
        components(final(list)@) == components(old(list)@) + picked(
            components(candidates@),
            selected@,
            kind,
        ),
{
    if holds_kind(selected, kind) {
        if let Some(component) = find_kind(candidates, kind) {
            list.push(component);
        }
    }
    assert(components(list@) =~= components(old(list)@) + picked(
        components(candidates@),
        selected@,
        kind,
    ));
}

/// What is installed, in this order, when the `selected` kinds are to be updated: yt-dlp, the
/// ffmpeg programs as one, and this program last.
pub fn selected_update_targets(
    candidates: &[ComponentInfo],
    selected: &[ComponentKind],
) -> (r: Vec<ComponentInfo>)
    ensures
        components(r@) == update_targets(components(candidates@), selected@),
{
    let mut result: Vec<ComponentInfo> = Vec::new();
    push_picked(&mut result, candidates, selected, ComponentKind::YtDlp);
    let ghost first = components(result@);
    assert(first =~= picked(components(candidates@), selected@, ComponentKind::YtDlp));

    let ffmpeg = holds_kind(selected, ComponentKind::Ffmpeg);
    let ffprobe = holds_kind(selected, ComponentKind::Ffprobe);
    if ffmpeg || ffprobe {
        let template = match find_ffmpeg(candidates, true) {
            Some(template) => Some(template),
            None => find_ffmpeg(candidates, false),
        };
        if let Some(template) = template {
            let mut bundled = template;
            if ffmpeg && ffprobe {
                bundled.kind = ComponentKind::FfmpegBundle;
                bundled.title = "ffmpeg/ffprobe".to_owned();
            } else if ffmpeg {
                bundled.kind = ComponentKind::Ffmpeg;
                bundled.title = "ffmpeg".to_owned();
            } else {
                bundled.kind = ComponentKind::Ffprobe;
                bundled.title = "ffprobe".to_owned();
            }
            assert(seq![bundled@] =~= picked_ffmpeg(components(candidates@), selected@));
            result.push(bundled);
        }
    }
    assert(components(result@) =~= first + picked_ffmpeg(components(candidates@), selected@));

    push_picked(&mut result, candidates, selected, ComponentKind::YtDlpGui);
    result
}

/// A component of the wanted kind is found exactly where the list has one.
pub proof fn lemma_first_of_kind(list: Seq<ComponentModel>, kind: ComponentKind)
    ensures
        first_of_kind(list, kind) is Some <==> exists|i: int|
            0 <= i < list.len() && (#[trigger] list[i]).kind == kind,
        first_of_kind(list, kind) is Some ==> first_of_kind(list, kind)->0.kind == kind
            && list.contains(first_of_kind(list, kind)->0),
    decreases list.len(),
{
    if list.len() > 0 {
        let rest = list.drop_first();
        lemma_first_of_kind(rest, kind);
        if list[0].kind != kind {
            if exists|i: int| 0 <= i < list.len() && (#[trigger] list[i]).kind == kind {
                let i = choose|i: int| 0 <= i < list.len() && (#[trigger] list[i]).kind == kind;
                assert(rest[i - 1].kind == kind);
            }
            if first_of_kind(rest, kind) is Some {
                let k = rest.index_of(first_of_kind(rest, kind)->0);
                assert(list[k + 1] == rest[k]);
            }
        } else {
            assert(list.contains(list[0]));
        }
    }
}

/// An update installs each thing at most once, this program last, and ffmpeg and ffprobe from one
/// download. Nothing is installed that was not selected.
pub proof fn law_update_order(candidates: Seq<ComponentModel>, selected: Seq<ComponentKind>)
    ensures
        ({
            let targets = update_targets(candidates, selected);
            &&& targets.len() <= 3
            &&& forall|i: int, j: int|
                0 <= i < j < targets.len() ==> (#[trigger] targets[i]).kind != (
                #[trigger] targets[j]).kind
            &&& forall|i: int|
                0 <= i < targets.len() && (#[trigger] targets[i]).kind == ComponentKind::YtDlpGui
                    ==> i == targets.len() - 1
            &&& forall|i: int|
                0 <= i < targets.len() ==> selected.contains((#[trigger] targets[i]).kind)
                    || targets[i].kind == ComponentKind::FfmpegBundle && selected.contains(
                    ComponentKind::Ffmpeg,
                ) && selected.contains(ComponentKind::Ffprobe)
        }),
{
    let first = picked(candidates, selected, ComponentKind::YtDlp);
    let second = picked_ffmpeg(candidates, selected);
    let third = picked(candidates, selected, ComponentKind::YtDlpGui);
    lemma_first_of_kind(candidates, ComponentKind::YtDlp);
    lemma_first_of_kind(candidates, ComponentKind::YtDlpGui);
    let targets = update_targets(candidates, selected);
    assert(first.len() <= 1 && second.len() <= 1 && third.len() <= 1);
    assert forall|i: int| 0 <= i < targets.len() implies (#[trigger] targets[i]) == if i
        < first.len() {
        first[0]
    } else if i < first.len() + second.len() {
        second[0]
    } else {
        third[0]
    } by {}
}

/// Where nothing is selected there is nothing to install.
pub proof fn law_nothing_selected(candidates: Seq<ComponentModel>)
    ensures
        update_targets(candidates, Seq::<ComponentKind>::empty()).len() == 0,
{
}

/// A selected component that can be updated is installed.
pub proof fn law_selected_is_installed(
    candidates: Seq<ComponentModel>,
    selected: Seq<ComponentKind>,
    kind: ComponentKind,
)
    requires
        selected.contains(kind),
        kind != ComponentKind::FfmpegBundle,
        exists|i: int| 0 <= i < candidates.len() && (#[trigger] candidates[i]).kind == kind,
    ensures
        exists|i: int|
            0 <= i < update_targets(candidates, selected).len() && ((
            #[trigger] update_targets(candidates, selected)[i]).kind == kind || is_ffmpeg_kind(kind)
                && update_targets(candidates, selected)[i].kind == ComponentKind::FfmpegBundle),
{
    let first = picked(candidates, selected, ComponentKind::YtDlp);
    let second = picked_ffmpeg(candidates, selected);
    let third = picked(candidates, selected, ComponentKind::YtDlpGui);
    let targets = update_targets(candidates, selected);
    lemma_first_of_kind(candidates, kind);
    if kind == ComponentKind::YtDlp {
        assert(targets[0] == first[0]);
    } else if kind == ComponentKind::YtDlpGui {
        assert(targets[(first.len() + second.len()) as int] == third[0]);
    } else {
        lemma_first_ffmpeg(candidates, kind);
        assert(targets[first.len() as int] == second[0]);
    }
}

proof fn lemma_first_ffmpeg(list: Seq<ComponentModel>, kind: ComponentKind)
    requires
        is_ffmpeg_kind(kind),
        first_of_kind(list, kind) is Some,
    ensures
        first_ffmpeg(list, false) is Some,
    decreases list.len(),
{
    if list.len() > 0 && !is_ffmpeg_kind(list[0].kind) {
        lemma_first_ffmpeg(list.drop_first(), kind);
    }
}

/// A component whose installed version and latest version are the same text is up to date.
pub proof fn law_same_version_is_up_to_date(version: Seq<char>)
    ensures
        component_status(Some(version), Some(version)) == ComponentStatus::UpToDate,
{
}

/// A component is missing exactly where a release is known and no version is installed; without a
/// known release its state is unknown.
pub proof fn law_missing_iff_not_installed(
    local: Option<Seq<char>>,
    latest: Option<Seq<char>>,
)
    ensures
        component_status(local, latest) == ComponentStatus::Missing <==> local is None
            && latest is Some,
        component_status(local, latest) == ComponentStatus::Unknown <==> latest is None,
{
}

/// Whether one version comes before another: its major number is lower, or that is the same and its
/// minor number is lower, or both are the same and its patch number is lower.
pub open spec fn comes_before(a: ReleaseVersion, b: ReleaseVersion) -> bool {
    ||| a.major < b.major
    ||| a.major == b.major && a.minor < b.minor
    ||| a.major == b.major && a.minor == b.minor && a.patch < b.patch
}

/// A component is outdated exactly where both texts begin with a version and the installed one comes
/// before the latest one; otherwise it is up to date. Nothing else that is known of it matters.
pub proof fn law_older_version_is_outdated(
    kind: ComponentKind,
    title: &str,
    local: String,
    latest: String,
    asset_name: Option<String>,
    download_url: Option<String>,
    checksum_url: Option<String>,
    digest: Option<String>,
    local_text: &str,
    latest_text: &str,
    a: ReleaseVersion,
    b: ReleaseVersion,
    r: ComponentInfo,
)
    requires
        local_text@ == local@,
        latest_text@ == latest@,
        call_ensures(to_semver, (local_text,), Some(a)),
        call_ensures(to_semver, (latest_text,), Some(b)),
        call_ensures(
            build_component,
            (
                kind,
                title,
                Some(local),
                Some(latest),
                asset_name,
                download_url,
                checksum_url,
                digest,
            ),
            r,
        ),
    ensures
        r.status == if comes_before(a, b) {
            ComponentStatus::UpdateAvailable
        } else {
            ComponentStatus::UpToDate
        },
{
    assert(r@.status == r.status);
}

/// Versions of three numbers, with white space and letters `v` before them and with anything after
/// them that is not another digit, are compared by these numbers: any release with a higher number
/// is offered, whichever of the three it is, and none with the same or lower ones.
pub proof fn law_higher_number_is_offered(
    lead: Seq<char>,
    vs: Seq<char>,
    a: ReleaseVersion,
    rest: Seq<char>,
    other_lead: Seq<char>,
    other_vs: Seq<char>,
    b: ReleaseVersion,
    other_rest: Seq<char>,
)
    requires
        all_white(lead),
        all_v(vs),
        rest.len() > 0 ==> !is_digit(rest[0]),
        all_white(other_lead),
        all_v(other_vs),
        other_rest.len() > 0 ==> !is_digit(other_rest[0]),
    ensures
        component_status(
            Some(lead + vs + version_text(a) + rest),
            Some(other_lead + other_vs + version_text(b) + other_rest),
        ) == if comes_before(a, b) {
            ComponentStatus::UpdateAvailable
        } else {
            ComponentStatus::UpToDate
        },
{
    lemma_three_numbers(lead, vs, a.major, a.minor, a.patch, rest);
    lemma_three_numbers(other_lead, other_vs, b.major, b.minor, b.patch, other_rest);
}

/// The three numbers of a version with dots between them.
pub open spec fn version_text(v: ReleaseVersion) -> Seq<char> {
    decimal(v.major as nat) + seq!['.'] + (decimal(v.minor as nat) + seq!['.'] + decimal(
        v.patch as nat,
    ))
}

/// Where one of the two texts does not begin with a version, the component is up to date exactly
/// where both are the same once they are normal.
pub proof fn law_other_texts_are_compared_as_texts(
    kind: ComponentKind,
    title: &str,
    local: String,
    latest: String,
    local_text: &str,
    latest_text: &str,
    a: Option<ReleaseVersion>,
    b: Option<ReleaseVersion>,
    x: String,
    y: String,
    r: ComponentInfo,
)
    requires
        local_text@ == local@,
        latest_text@ == latest@,
        call_ensures(to_semver, (local_text,), a),
        call_ensures(to_semver, (latest_text,), b),
        a is None || b is None,
        call_ensures(normalize_version, (local_text,), x),
        call_ensures(normalize_version, (latest_text,), y),
        call_ensures(
            build_component,
            (kind, title, Some(local), Some(latest), None, None, None, None),
            r,
        ),
    ensures
        r.status == if x@ == y@ {
            ComponentStatus::UpToDate
        } else {
            ComponentStatus::UpdateAvailable
        },
{
    assert(r@.status == r.status);
}

/// A component is what it is made of, and without a known release or an installed version its
/// status tells so.
pub proof fn law_component_keeps_what_is_known(
    kind: ComponentKind,
    title: &str,
    local: Option<String>,
    latest: Option<String>,
    asset_name: Option<String>,
    download_url: Option<String>,
    checksum_url: Option<String>,
    digest: Option<String>,
    r: ComponentInfo,
)
    requires
        call_ensures(
            build_component,
            (kind, title, local, latest, asset_name, download_url, checksum_url, digest),
            r,
        ),
    ensures
        r.kind == kind,
        r.title@ == title@,
        opt_text(r.local_version) == opt_text(local),
        opt_text(r.latest_version) == opt_text(latest),
        opt_text(r.asset_name) == opt_text(asset_name),
        opt_text(r.download_url) == opt_text(download_url),
        opt_text(r.checksum_url) == opt_text(checksum_url),
        opt_text(r.digest) == opt_text(digest),
        latest is None ==> r.status == ComponentStatus::Unknown,
        latest is Some && local is None ==> r.status == ComponentStatus::Missing,
        latest is Some && local is Some ==> r.status == ComponentStatus::UpToDate || r.status
            == ComponentStatus::UpdateAvailable,
{
    let m = r@;
    assert(m.kind == r.kind);
    assert(m.title == r.title@);
    assert(m.status == r.status);
    assert(m.local_version == opt_text(r.local_version));
    assert(m.latest_version == opt_text(r.latest_version));
    assert(m.asset_name == opt_text(r.asset_name));
    assert(m.download_url == opt_text(r.download_url));
    assert(m.checksum_url == opt_text(r.checksum_url));
    assert(m.digest == opt_text(r.digest));
}

/// A check for updates reports this program, yt-dlp, ffmpeg and ffprobe. The installed version of
/// each is what that program itself printed, and of this program its own version.
pub proof fn law_report_tells_installed_versions(
    sources: UpdateSources,
    yt_dlp: Option<String>,
    ffmpeg: Option<String>,
    ffprobe: Option<String>,
    r: UpdateReport,
)
    requires
        call_ensures(check_for_updates, (sources,), r),
        call_ensures(read_version_from_binary, (sources.yt_dlp,), yt_dlp),
        call_ensures(read_version_from_binary, (sources.ffmpeg,), ffmpeg),
        call_ensures(read_version_from_binary, (sources.ffprobe,), ffprobe),
    ensures
        r.components@.len() == 4,
        r.components@[0].kind == ComponentKind::YtDlpGui,
        r.components@[1].kind == ComponentKind::YtDlp,
        r.components@[2].kind == ComponentKind::Ffmpeg,
        r.components@[3].kind == ComponentKind::Ffprobe,
        opt_text(r.components@[0].local_version) == Some(APP_VERSION@),
        opt_text(r.components@[1].local_version) == opt_text(yt_dlp),
        opt_text(r.components@[2].local_version) == opt_text(ffmpeg),
        opt_text(r.components@[3].local_version) == opt_text(ffprobe),
{
    let list = components(r.components@);
    assert(list.len() == r.components@.len());
    assert(list[0] == r.components@[0]@);
    assert(list[1] == r.components@[1]@);
    assert(list[2] == r.components@[2]@);
    assert(list[3] == r.components@[3]@);
}

/// The latest version of each component is the tag of its own latest release, which for ffmpeg and
/// ffprobe is the same one; its status follows from that and from what is installed. Where there
/// is no release, the latest version is not known.
pub proof fn law_report_tells_latest_versions(
    sources: UpdateSources,
    replies: ReleaseReplies,
    app: Result<ReleaseInfo, String>,
    yt_dlp: Result<ReleaseInfo, String>,
    ffmpeg: Result<ReleaseInfo, String>,
    r: UpdateReport,
)
    requires
        sources.replies == Ok::<ReleaseReplies, String>(replies),
        call_ensures(check_for_updates, (sources,), r),
        call_ensures(fetch_release, (&replies.app,), app),
        call_ensures(fetch_release, (&replies.yt_dlp,), yt_dlp),
        call_ensures(fetch_release, (&replies.ffmpeg,), ffmpeg),
    ensures
        r.components@.len() == 4,
        opt_text(r.components@[0].latest_version) == tag_of(app),
        opt_text(r.components@[1].latest_version) == tag_of(yt_dlp),
        opt_text(r.components@[2].latest_version) == tag_of(ffmpeg),
        opt_text(r.components@[3].latest_version) == tag_of(ffmpeg),
        forall|i: int|
            0 <= i < 4 ==> (#[trigger] r.components@[i]).status == component_status(
                opt_text(r.components@[i].local_version),
                opt_text(r.components@[i].latest_version),
            ),
        texts(r.warnings@) == warning_of(app, ">>> Не удалось получить релиз yt-dlp GUI: "@)
            + warning_of(yt_dlp, ">>> Не удалось получить релиз yt-dlp: "@) + warning_of(
            ffmpeg,
            ">>> Не удалось получить релиз ffmpeg: "@,
        ),
{
    let list = components(r.components@);
    assert(list.len() == r.components@.len());
    assert(list[0] == r.components@[0]@);
    assert(list[1] == r.components@[1]@);
    assert(list[2] == r.components@[2]@);
    assert(list[3] == r.components@[3]@);
}

/// The tag of a release that was fetched.
pub open spec fn tag_of(release: Result<ReleaseInfo, String>) -> Option<Seq<char>> {
    match release {
        Ok(release) => Some(release.tag@),
        Err(_) => None,
    }
}

/// What is said of a release that was not fetched: the introduction, and why.
pub open spec fn warning_of(release: Result<ReleaseInfo, String>, intro: Seq<char>) -> Seq<
    Seq<char>,
> {
    match release {
        Ok(_) => Seq::empty(),
        Err(err) => seq![intro + err@],
    }
}

/// Where the release service could not be asked at all, nothing is known of any release, and that is
/// the only warning.
pub proof fn law_report_without_releases(sources: UpdateSources, err: String, r: UpdateReport)
    requires
        sources.replies == Err::<ReleaseReplies, String>(err),
        call_ensures(check_for_updates, (sources,), r),
    ensures
        r.components@.len() == 4,
        forall|i: int|
            0 <= i < 4 ==> (#[trigger] r.components@[i]).status == ComponentStatus::Unknown
                && r.components@[i].download_url is None,
        texts(r.warnings@) == seq![
            ">>> Не удалось создать HTTP-клиент для проверки обновлений: "@ + err@,
        ],
{
    let list = components(r.components@);
    assert(list.len() == r.components@.len());
    assert(list[0] == r.components@[0]@);
    assert(list[1] == r.components@[1]@);
    assert(list[2] == r.components@[2]@);
    assert(list[3] == r.components@[3]@);
}

/// Each component is downloaded from the file of its own release that it is: this program from the
/// file with its name, yt-dlp from `yt-dlp.exe`, and ffmpeg and ffprobe from the archive of the
/// smaller build. The digest of this program is the one that its file states; the others are held
/// against the checksum list of their release.
pub proof fn law_report_tells_where_to_download(
    sources: UpdateSources,
    replies: ReleaseReplies,
    app: Option<ReleaseInfo>,
    yt_dlp: Option<ReleaseInfo>,
    ffmpeg: Option<ReleaseInfo>,
    files: (
        Option<ReleaseAsset>,
        Option<ReleaseAsset>,
        Option<ReleaseAsset>,
        Option<ReleaseAsset>,
        Option<ReleaseAsset>,
    ),
    r: UpdateReport,
)
    requires
        sources.replies == Ok::<ReleaseReplies, String>(replies),
        call_ensures(check_for_updates, (sources,), r),
        app is Some ==> call_ensures(fetch_release, (&replies.app,), Ok(app->0)),
        yt_dlp is Some ==> call_ensures(fetch_release, (&replies.yt_dlp,), Ok(yt_dlp->0)),
        ffmpeg is Some ==> call_ensures(fetch_release, (&replies.ffmpeg,), Ok(ffmpeg->0)),
        call_ensures(find_asset, (&app, AssetQuery::Named("ytdlp-ui-x64.exe")), files.0),
        call_ensures(find_asset, (&yt_dlp, AssetQuery::Named("yt-dlp.exe")), files.1),
        call_ensures(find_asset, (&yt_dlp, AssetQuery::Holding("SHA2-256SUMS")), files.2),
        call_ensures(find_asset, (&ffmpeg, AssetQuery::FfmpegZip), files.3),
        call_ensures(find_asset, (&ffmpeg, AssetQuery::FfmpegChecksum), files.4),
    ensures
        r.components@.len() == 4,
        app is Some ==> is_downloaded_from(r.components@[0]@, opt_asset(files.0), None)
            && r.components@[0]@.digest == asset_digest(opt_asset(files.0)),
        yt_dlp is Some ==> is_downloaded_from(
            r.components@[1]@,
            opt_asset(files.1),
            opt_asset(files.2),
        ),
        ffmpeg is Some ==> is_downloaded_from(
            r.components@[2]@,
            opt_asset(files.3),
            opt_asset(files.4),
        ) && is_downloaded_from(r.components@[3]@, opt_asset(files.3), opt_asset(files.4)),
{
    let list = components(r.components@);
    assert(list.len() == r.components@.len());
    assert(list[0] == r.components@[0]@);
    assert(list[1] == r.components@[1]@);
    assert(list[2] == r.components@[2]@);
    assert(list[3] == r.components@[3]@);
}

/// Whether a component is downloaded from the file, and held against the checksum list.
pub open spec fn is_downloaded_from(
    component: ComponentModel,
    file: Option<AssetModel>,
    checksum: Option<AssetModel>,
) -> bool {
    &&& component.asset_name is Some <==> file is Some
    &&& component.download_url is Some <==> file is Some
    &&& component.checksum_url is Some <==> checksum is Some
    &&& file is Some ==> component.asset_name->0 == file->0.name && component.download_url->0
        == file->0.url
    &&& checksum is Some ==> component.checksum_url->0 == checksum->0.url
}

/// What is found among the ffmpeg programs of a list.
proof fn lemma_first_ffmpeg_is(list: Seq<ComponentModel>, with_url: bool)
    ensures
        match first_ffmpeg(list, with_url) {
            Some(found) => exists|i: int|
                0 <= i < list.len() && #[trigger] list[i] == found && is_ffmpeg_kind(found.kind)
                    && (with_url ==> found.download_url is Some),
            None => forall|i: int|
                0 <= i < list.len() && is_ffmpeg_kind((#[trigger] list[i]).kind) ==> with_url
                    && list[i].download_url is None,
        },
    decreases list.len(),
{
    if list.len() > 0 && !(is_ffmpeg_kind(list[0].kind) && (with_url
        ==> list[0].download_url is Some)) {
        let rest = list.drop_first();
        lemma_first_ffmpeg_is(rest, with_url);
        match first_ffmpeg(rest, with_url) {
            Some(found) => {
                let i = choose|i: int|
                    0 <= i < rest.len() && #[trigger] rest[i] == found && is_ffmpeg_kind(found.kind)
                        && (with_url ==> found.download_url is Some);
                assert(list[i + 1] == found);
            },
            None => {
                assert forall|i: int|
                    0 <= i < list.len() && is_ffmpeg_kind((#[trigger] list[i]).kind) implies with_url
                    && list[i].download_url is None by {
                    if i > 0 {
                        assert(rest[i - 1] == list[i]);
                    }
                }
            },
        }
    }
}

/// What is installed comes from the candidates as it is: yt-dlp and this program are the first
/// candidate of their kind. The ffmpeg programs are installed from where one of the candidates of
/// theirs is, and from one that can be downloaded where any can; they go by the name of what was
/// selected of them.
pub proof fn law_targets_are_the_candidates(
    candidates: &[ComponentInfo],
    selected: &[ComponentKind],
    r: Vec<ComponentInfo>,
    i: int,
)
    requires
        call_ensures(selected_update_targets, (candidates, selected), r),
        0 <= i < r@.len(),
    ensures
        r@[i].kind == ComponentKind::YtDlp || r@[i].kind == ComponentKind::YtDlpGui ==> exists|j: int|
            0 <= j < candidates@.len() && (#[trigger] candidates@[j])@ == r@[i]@,
        r@[i].kind != ComponentKind::YtDlp && r@[i].kind != ComponentKind::YtDlpGui ==> {
            &&& exists|j: int|
                0 <= j < candidates@.len() && is_ffmpeg_kind((#[trigger] candidates@[j]).kind)
                    && r@[i]@ == (ComponentModel {
                    kind: r@[i].kind,
                    title: r@[i].title@,
                    ..candidates@[j]@
                })
            &&& r@[i].download_url is None ==> forall|j: int|
                0 <= j < candidates@.len() && is_ffmpeg_kind((#[trigger] candidates@[j]).kind)
                    ==> candidates@[j].download_url is None
            &&& r@[i].kind == ComponentKind::FfmpegBundle <==> selected@.contains(
                ComponentKind::Ffmpeg,
            ) && selected@.contains(ComponentKind::Ffprobe)
            &&& r@[i].title@ == match r@[i].kind {
                ComponentKind::Ffmpeg => "ffmpeg"@,
                ComponentKind::Ffprobe => "ffprobe"@,
                _ => "ffmpeg/ffprobe"@,
            }
        },
{
    let list = components(candidates@);
    let targets = components(r@);
    let first = picked(list, selected@, ComponentKind::YtDlp);
    let second = picked_ffmpeg(list, selected@);
    let third = picked(list, selected@, ComponentKind::YtDlpGui);
    assert(targets == first + second + third);
    assert(targets[i] == r@[i]@);
    lemma_first_of_kind(list, ComponentKind::YtDlp);
    lemma_first_of_kind(list, ComponentKind::YtDlpGui);
    lemma_first_ffmpeg_is(list, true);
    lemma_first_ffmpeg_is(list, false);
    assert forall|j: int| 0 <= j < list.len() implies #[trigger] list[j] == candidates@[j]@ by {}
    if i < first.len() {
        assert(targets[i] == first[i]);
        let j = list.index_of(first[i]);
        assert(candidates@[j]@ == list[j]);
    } else if i < first.len() + second.len() {
        let template = if first_ffmpeg(list, true) is Some {
            first_ffmpeg(list, true)->0
        } else {
            first_ffmpeg(list, false)->0
        };
        assert(targets[i] == second[i - first.len()]);
        let j = choose|j: int|
            0 <= j < list.len() && #[trigger] list[j] == template && is_ffmpeg_kind(template.kind);
        assert(candidates@[j]@ == list[j]);
        assert(candidates@[j].kind == list[j].kind);
        assert(r@[i]@.download_url == opt_text(r@[i].download_url));
        assert(r@[i]@.kind == r@[i].kind);
        assert(r@[i]@.title == r@[i].title@);
        assert(r@[i]@ =~= (ComponentModel {
            kind: r@[i].kind,
            title: r@[i].title@,
            ..candidates@[j]@
        }));
        if r@[i].download_url is None {
            assert(first_ffmpeg(list, true) is None);
            assert forall|k: int|
                0 <= k < candidates@.len() && is_ffmpeg_kind(
                    (#[trigger] candidates@[k]).kind,
                ) implies candidates@[k].download_url is None by {
                assert(list[k] == candidates@[k]@);
                assert(list[k].download_url is None);
            }
        }
    } else {
        assert(targets[i] == third[i - first.len() - second.len()]);
        let j = list.index_of(third[i - first.len() - second.len()]);
        assert(candidates@[j]@ == list[j]);
    }
}

/// A program is asked for its version the way that it understands.
pub proof fn law_version_argument(program: InstalledProgram, r: &'static str)
    requires
        call_ensures(InstalledProgram::version_argument, (program,), r),
    ensures
        program == InstalledProgram::YtDlp ==> r@ == "--version"@,
        program == InstalledProgram::Ffmpeg ==> r@ == "-version"@,
        program == InstalledProgram::Ffprobe ==> r@ == "-version"@,
{
}

/// Each program that this one installs is the file of its name in the program's folder.
pub proof fn law_programs_have_their_files(
    app_dir: &str,
    yt_dlp: String,
    ffmpeg: String,
    ffprobe: String,
    beside: String,
    beside_ffmpeg: String,
    beside_ffprobe: String,
)
    requires
        call_ensures(InstalledProgram::path, (InstalledProgram::YtDlp, app_dir), yt_dlp),
        call_ensures(InstalledProgram::path, (InstalledProgram::Ffmpeg, app_dir), ffmpeg),
        call_ensures(InstalledProgram::path, (InstalledProgram::Ffprobe, app_dir), ffprobe),
        call_ensures(join_path, (app_dir, "yt-dlp.exe"), beside),
        call_ensures(join_path, (app_dir, "ffmpeg.exe"), beside_ffmpeg),
        call_ensures(join_path, (app_dir, "ffprobe.exe"), beside_ffprobe),
    ensures
        yt_dlp@ == beside@,
        ffmpeg@ == beside_ffmpeg@,
        ffprobe@ == beside_ffprobe@,
{
}

/// The release service is asked about the projects that the programs come from, by a program that names
/// itself and its version.
pub proof fn law_releases_have_their_addresses(agent: String)
    requires
        call_ensures(user_agent, (), agent),
    ensures
        YT_DLP_RELEASES_API@ == "https://api.github.com/repos/yt-dlp/yt-dlp/releases/latest"@,
        FFMPEG_RELEASES_API@ == "https://api.github.com/repos/GyanD/codexffmpeg/releases/latest"@,
        APP_RELEASES_API@ == "https://api.github.com/repos/amd64fox/ytdlp-ui/releases/latest"@,
        APP_REPOSITORY_URL@ == "https://github.com/amd64fox/ytdlp-ui"@,
        agent@ == "ytdlp-ui/"@ + APP_VERSION@,
{
}

} // verus!
