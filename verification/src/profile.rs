//! Download profiles and the yt-dlp command line that each of them stands for.
use crate::text::{
    all_white, copy_texts, decimal, drop_class, join, joined, law_trimmed_parts_in_order,
    lemma_blank_iff_white, lemma_clean_lines_stay, lemma_drop_is_start, lemma_first_line,
    lemma_lines_of_joined, lemma_trimmed_dropped, lemma_trimmed_lines_are_clean, lines, opt_slice,
    push_text, same, skip_class, slices, split_lines, texts, trim, trim_end_of, trim_parts, trimmed,
    trimmed_parts, without_return, CharClass,
};
use vstd::prelude::*;

verus! {

/// The built-in profile that leaves everything to yt-dlp.
pub const RAW_PROFILE_ID: &'static str = "builtin.raw";

/// The built-in profile for MP4 up to 1080p.
pub const MP4_1080_PROFILE_ID: &'static str = "builtin.mp4_1080";

/// The built-in profile for MP4 up to 720p.
pub const MP4_720_PROFILE_ID: &'static str = "builtin.mp4_720";

/// The built-in profile that cuts sponsor segments out.
pub const NO_SPONSORS_PROFILE_ID: &'static str = "builtin.no_sponsors";

/// The built-in profile for MP3 audio.
pub const AUDIO_MP3_PROFILE_ID: &'static str = "builtin.audio_mp3";

/// The built-in profile for M4A audio.
pub const AUDIO_M4A_PROFILE_ID: &'static str = "builtin.audio_m4a";

/// The name of the raw profile.
pub const RAW_PROFILE_NAME: &'static str = "Обычное видео";

/// What a profile downloads.
#[derive(Clone, Copy, Debug, PartialEq, Eq, Structural)]
pub enum DownloadKind {
    Video,
    AudioOnly,
}

/// The largest picture that is wanted.
#[derive(Clone, Copy, Debug, PartialEq, Eq, Structural)]
pub enum VideoResolution {
    Best,
    P2160,
    P1440,
    P1080,
    P720,
    P480,
    P360,
}

/// The container that video is merged into.
#[derive(Clone, Copy, Debug, PartialEq, Eq, Structural)]
pub enum ContainerFormat {
    Auto,
    Mp4,
    Mkv,
    Webm,
}

/// The format that audio is converted to.
#[derive(Clone, Copy, Debug, PartialEq, Eq, Structural)]
pub enum AudioFormat {
    Best,
    Mp3,
    M4a,
    Opus,
    Flac,
    Wav,
}

/// How the downloaded file is named.
#[derive(Clone, Copy, Debug, PartialEq, Eq, Structural)]
pub enum FileNameTemplate {
    Title,
    ArtistTrack,
}

/// What is done with the segments that SponsorBlock knows.
#[derive(Clone, Copy, Debug, PartialEq, Eq, Structural)]
pub enum SponsorBlockMode {
    Off,
    Mark,
    Remove,
}

/// Which subtitles are written.
#[derive(Clone, Copy, Debug, PartialEq, Eq, Structural)]
pub enum SubtitleMode {
    Off,
    Manual,
    Auto,
}

/// Whether a link into a playlist stands for the video or for the playlist.
#[derive(Clone, Copy, Debug, PartialEq, Eq, Structural)]
pub enum PlaylistMode {
    Auto,
    SingleVideo,
    Playlist,
}

impl Default for DownloadKind {
    fn default() -> (r: Self)
        ensures
            r == DownloadKind::Video,
    {
        DownloadKind::Video
    }
}

impl Default for VideoResolution {
    fn default() -> (r: Self)
        ensures
            r == VideoResolution::Best,
    {
        VideoResolution::Best
    }
}

impl Default for ContainerFormat {
    fn default() -> (r: Self)
        ensures
            r == ContainerFormat::Auto,
    {
        ContainerFormat::Auto
    }
}

impl Default for AudioFormat {
    fn default() -> (r: Self)
        ensures
            r == AudioFormat::Best,
    {
        AudioFormat::Best
    }
}

impl Default for FileNameTemplate {
    fn default() -> (r: Self)
        ensures
            r == FileNameTemplate::Title,
    {
        FileNameTemplate::Title
    }
}

impl Default for SponsorBlockMode {
    fn default() -> (r: Self)
        ensures
            r == SponsorBlockMode::Off,
    {
        SponsorBlockMode::Off
    }
}

impl Default for SubtitleMode {
    fn default() -> (r: Self)
        ensures
            r == SubtitleMode::Off,
    {
        SubtitleMode::Off
    }
}

impl Default for PlaylistMode {
    fn default() -> (r: Self)
        ensures
            r == PlaylistMode::Auto,
    {
        PlaylistMode::Auto
    }
}

impl DownloadKind {
    /// The kinds in menu order, each with its label.
    pub open spec fn option_list() -> Seq<(DownloadKind, &'static str)> {
        seq![(DownloadKind::Video, "Видео"), (DownloadKind::AudioOnly, "Только аудио")]
    }

    /// The kinds in menu order, each with its label.
    pub fn options() -> (r: Vec<(DownloadKind, &'static str)>)
        ensures
            r@ == Self::option_list(),
    {
        vec![(DownloadKind::Video, "Видео"), (DownloadKind::AudioOnly, "Только аудио")]
    }
}

impl VideoResolution {
    /// The resolutions in menu order, each with its label.
    pub open spec fn option_list() -> Seq<(VideoResolution, &'static str)> {
        seq![
            (VideoResolution::Best, "Лучшее"),
            (VideoResolution::P2160, "2160p"),
            (VideoResolution::P1440, "1440p"),
            (VideoResolution::P1080, "1080p"),
            (VideoResolution::P720, "720p"),
            (VideoResolution::P480, "480p"),
            (VideoResolution::P360, "360p"),
        ]
    }

    /// The resolutions in menu order, each with its label.
    pub fn options() -> (r: Vec<(VideoResolution, &'static str)>)
        ensures
            r@ == Self::option_list(),
    {
        vec![
            (VideoResolution::Best, "Лучшее"),
            (VideoResolution::P2160, "2160p"),
            (VideoResolution::P1440, "1440p"),
            (VideoResolution::P1080, "1080p"),
            (VideoResolution::P720, "720p"),
            (VideoResolution::P480, "480p"),
            (VideoResolution::P360, "360p"),
        ]
    }

    /// The yt-dlp sort field for the resolution.
    pub open spec fn sort_text(self) -> Option<Seq<char>> {
        match self {
            VideoResolution::Best => None,
            VideoResolution::P2160 => Some("res:2160"@),
            VideoResolution::P1440 => Some("res:1440"@),
            VideoResolution::P1080 => Some("res:1080"@),
            VideoResolution::P720 => Some("res:720"@),
            VideoResolution::P480 => Some("res:480"@),
            VideoResolution::P360 => Some("res:360"@),
        }
    }

    /// The yt-dlp sort field for the resolution.
    pub fn sort_value(self) -> (r: Option<&'static str>)
        ensures
            opt_slice(r) == self.sort_text(),
    {
        match self {
            VideoResolution::Best => None,
            VideoResolution::P2160 => Some("res:2160"),
            VideoResolution::P1440 => Some("res:1440"),
            VideoResolution::P1080 => Some("res:1080"),
            VideoResolution::P720 => Some("res:720"),
            VideoResolution::P480 => Some("res:480"),
            VideoResolution::P360 => Some("res:360"),
        }
    }
}

impl ContainerFormat {
    /// The containers in menu order, each with its label.
    pub open spec fn option_list() -> Seq<(ContainerFormat, &'static str)> {
        seq![
            (ContainerFormat::Auto, "Авто"),
            (ContainerFormat::Mp4, "MP4"),
            (ContainerFormat::Mkv, "MKV"),
            (ContainerFormat::Webm, "WebM"),
        ]
    }

    /// The containers in menu order, each with its label.
    pub fn options() -> (r: Vec<(ContainerFormat, &'static str)>)
        ensures
            r@ == Self::option_list(),
    {
        vec![
            (ContainerFormat::Auto, "Авто"),
            (ContainerFormat::Mp4, "MP4"),
            (ContainerFormat::Mkv, "MKV"),
            (ContainerFormat::Webm, "WebM"),
        ]
    }

    /// The yt-dlp name of the container.
    pub open spec fn arg_text(self) -> Option<Seq<char>> {
        match self {
            ContainerFormat::Auto => None,
            ContainerFormat::Mp4 => Some("mp4"@),
            ContainerFormat::Mkv => Some("mkv"@),
            ContainerFormat::Webm => Some("webm"@),
        }
    }

    /// The yt-dlp name of the container.
    pub fn arg_value(self) -> (r: Option<&'static str>)
        ensures
            opt_slice(r) == self.arg_text(),
    {
        match self {
            ContainerFormat::Auto => None,
            ContainerFormat::Mp4 => Some("mp4"),
            ContainerFormat::Mkv => Some("mkv"),
            ContainerFormat::Webm => Some("webm"),
        }
    }
}

impl AudioFormat {
    /// The formats in menu order, each with its label.
    pub open spec fn option_list() -> Seq<(AudioFormat, &'static str)> {
        seq![
            (AudioFormat::Best, "Лучшее"),
            (AudioFormat::Mp3, "MP3"),
            (AudioFormat::M4a, "M4A"),
            (AudioFormat::Opus, "Opus"),
            (AudioFormat::Flac, "FLAC"),
            (AudioFormat::Wav, "WAV"),
        ]
    }

    /// The formats in menu order, each with its label.
    pub fn options() -> (r: Vec<(AudioFormat, &'static str)>)
        ensures
            r@ == Self::option_list(),
    {
        vec![
            (AudioFormat::Best, "Лучшее"),
            (AudioFormat::Mp3, "MP3"),
            (AudioFormat::M4a, "M4A"),
            (AudioFormat::Opus, "Opus"),
            (AudioFormat::Flac, "FLAC"),
            (AudioFormat::Wav, "WAV"),
        ]
    }

    /// The yt-dlp name of the format.
    pub open spec fn arg_text(self) -> Option<Seq<char>> {
        match self {
            AudioFormat::Best => None,
            AudioFormat::Mp3 => Some("mp3"@),
            AudioFormat::M4a => Some("m4a"@),
            AudioFormat::Opus => Some("opus"@),
            AudioFormat::Flac => Some("flac"@),
            AudioFormat::Wav => Some("wav"@),
        }
    }

    /// The yt-dlp name of the format.
    pub fn arg_value(self) -> (r: Option<&'static str>)
        ensures
            opt_slice(r) == self.arg_text(),
    {
        match self {
            AudioFormat::Best => None,
            AudioFormat::Mp3 => Some("mp3"),
            AudioFormat::M4a => Some("m4a"),
            AudioFormat::Opus => Some("opus"),
            AudioFormat::Flac => Some("flac"),
            AudioFormat::Wav => Some("wav"),
        }
    }
}

impl FileNameTemplate {
    /// The templates in menu order, each with its label.
    pub open spec fn option_list() -> Seq<(FileNameTemplate, &'static str)> {
        seq![
            (FileNameTemplate::Title, "Название"),
            (FileNameTemplate::ArtistTrack, "Исполнитель - трек"),
        ]
    }

    /// The templates in menu order, each with its label.
    pub fn options() -> (r: Vec<(FileNameTemplate, &'static str)>)
        ensures
            r@ == Self::option_list(),
    {
        vec![
            (FileNameTemplate::Title, "Название"),
            (FileNameTemplate::ArtistTrack, "Исполнитель - трек"),
        ]
    }
}

impl SponsorBlockMode {
    /// The modes in menu order, each with its label.
    pub open spec fn option_list() -> Seq<(SponsorBlockMode, &'static str)> {
        seq![
            (SponsorBlockMode::Off, "Выкл"),
            (SponsorBlockMode::Mark, "Отметить"),
            (SponsorBlockMode::Remove, "Вырезать"),
        ]
    }

    /// The modes in menu order, each with its label.
    pub fn options() -> (r: Vec<(SponsorBlockMode, &'static str)>)
        ensures
            r@ == Self::option_list(),
    {
        vec![
            (SponsorBlockMode::Off, "Выкл"),
            (SponsorBlockMode::Mark, "Отметить"),
            (SponsorBlockMode::Remove, "Вырезать"),
        ]
    }

    /// The yt-dlp flag of the mode.
    pub open spec fn flag_text(self) -> Option<Seq<char>> {
        match self {
            SponsorBlockMode::Off => None,
            SponsorBlockMode::Mark => Some("--sponsorblock-mark"@),
            SponsorBlockMode::Remove => Some("--sponsorblock-remove"@),
        }
    }

    /// The yt-dlp flag of the mode.
    pub fn flag(self) -> (r: Option<&'static str>)
        ensures
            opt_slice(r) == self.flag_text(),
    {
        match self {
            SponsorBlockMode::Off => None,
            SponsorBlockMode::Mark => Some("--sponsorblock-mark"),
            SponsorBlockMode::Remove => Some("--sponsorblock-remove"),
        }
    }
}

impl SubtitleMode {
    /// The modes in menu order, each with its label.
    pub open spec fn option_list() -> Seq<(SubtitleMode, &'static str)> {
        seq![
            (SubtitleMode::Off, "Выкл"),
            (SubtitleMode::Manual, "Обычные"),
            (SubtitleMode::Auto, "Авто"),
        ]
    }

    /// The modes in menu order, each with its label.
    pub fn options() -> (r: Vec<(SubtitleMode, &'static str)>)
        ensures
            r@ == Self::option_list(),
    {
        vec![
            (SubtitleMode::Off, "Выкл"),
            (SubtitleMode::Manual, "Обычные"),
            (SubtitleMode::Auto, "Авто"),
        ]
    }
}

impl PlaylistMode {
    /// The modes in menu order, each with its label.
    pub open spec fn option_list() -> Seq<(PlaylistMode, &'static str)> {
        seq![
            (PlaylistMode::Auto, "Авто"),
            (PlaylistMode::SingleVideo, "Одно видео"),
            (PlaylistMode::Playlist, "Плейлист"),
        ]
    }

    /// The modes in menu order, each with its label.
    pub fn options() -> (r: Vec<(PlaylistMode, &'static str)>)
        ensures
            r@ == Self::option_list(),
    {
        vec![
            (PlaylistMode::Auto, "Авто"),
            (PlaylistMode::SingleVideo, "Одно видео"),
            (PlaylistMode::Playlist, "Плейлист"),
        ]
    }

    /// The yt-dlp flag of the mode.
    pub open spec fn flag_text(self) -> Option<Seq<char>> {
        match self {
            PlaylistMode::Auto => None,
            PlaylistMode::SingleVideo => Some("--no-playlist"@),
            PlaylistMode::Playlist => Some("--yes-playlist"@),
        }
    }

    /// The yt-dlp flag of the mode.
    pub fn flag(self) -> (r: Option<&'static str>)
        ensures
            opt_slice(r) == self.flag_text(),
    {
        match self {
            PlaylistMode::Auto => None,
            PlaylistMode::SingleVideo => Some("--no-playlist"),
            PlaylistMode::Playlist => Some("--yes-playlist"),
        }
    }
}

/// The options of one kind of download, as they are stored in the configuration.
#[derive(Debug, PartialEq, Eq)]
pub struct DownloadProfile {
    pub id: String,
    pub name: String,
    pub kind: DownloadKind,
    pub video_resolution: VideoResolution,
    pub container: ContainerFormat,
    pub audio_format: AudioFormat,
    pub file_name_template: FileNameTemplate,
    pub sponsorblock: SponsorBlockMode,
    pub sponsorblock_categories: Vec<String>,
    pub subtitles: SubtitleMode,
    pub subtitle_langs: String,
    pub embed_metadata: bool,
    pub embed_thumbnail: bool,
    pub embed_chapters: bool,
    pub playlist_mode: PlaylistMode,
    pub use_download_archive: bool,
    pub extra_args: Vec<String>,
}

/// What a download profile holds.
#[verifier::ext_equal]
pub struct ProfileModel {
    pub id: Seq<char>,
    pub name: Seq<char>,
    pub kind: DownloadKind,
    pub video_resolution: VideoResolution,
    pub container: ContainerFormat,
    pub audio_format: AudioFormat,
    pub file_name_template: FileNameTemplate,
    pub sponsorblock: SponsorBlockMode,
    pub sponsorblock_categories: Seq<Seq<char>>,
    pub subtitles: SubtitleMode,
    pub subtitle_langs: Seq<char>,
    pub embed_metadata: bool,
    pub embed_thumbnail: bool,
    pub embed_chapters: bool,
    pub playlist_mode: PlaylistMode,
    pub use_download_archive: bool,
    pub extra_args: Seq<Seq<char>>,
}

impl View for DownloadProfile {
    type V = ProfileModel;

    open spec fn view(&self) -> ProfileModel {
        ProfileModel {
            id: self.id@,
            name: self.name@,
            kind: self.kind,
            video_resolution: self.video_resolution,
            container: self.container,
            audio_format: self.audio_format,
            file_name_template: self.file_name_template,
            sponsorblock: self.sponsorblock,
            sponsorblock_categories: texts(self.sponsorblock_categories@),
            subtitles: self.subtitles,
            subtitle_langs: self.subtitle_langs@,
            embed_metadata: self.embed_metadata,
            embed_thumbnail: self.embed_thumbnail,
            embed_chapters: self.embed_chapters,
            playlist_mode: self.playlist_mode,
            use_download_archive: self.use_download_archive,
            extra_args: texts(self.extra_args@),
        }
    }
}

impl Clone for DownloadProfile {
    fn clone(&self) -> (r: Self)
        ensures
            r@ == self@,
    {
        DownloadProfile {
            id: self.id.clone(),
            name: self.name.clone(),
            kind: self.kind,
            video_resolution: self.video_resolution,
            container: self.container,
            audio_format: self.audio_format,
            file_name_template: self.file_name_template,
            sponsorblock: self.sponsorblock,
            sponsorblock_categories: copy_texts(&self.sponsorblock_categories),
            subtitles: self.subtitles,
            subtitle_langs: self.subtitle_langs.clone(),
            embed_metadata: self.embed_metadata,
            embed_thumbnail: self.embed_thumbnail,
            embed_chapters: self.embed_chapters,
            playlist_mode: self.playlist_mode,
            use_download_archive: self.use_download_archive,
            extra_args: copy_texts(&self.extra_args),
        }
    }
}

/// The categories that a new profile selects.
pub open spec fn default_categories() -> Seq<Seq<char>> {
    seq!["sponsor"@, "selfpromo"@]
}

/// The categories that a new profile selects.
pub fn default_sponsorblock_categories() -> (r: Vec<String>)
    ensures
        texts(r@) == default_categories(),
{
    let r = vec!["sponsor".to_owned(), "selfpromo".to_owned()];
    assert(texts(r@) =~= default_categories());
    r
}

/// The subtitle languages that a new profile asks for.
pub fn default_subtitle_langs() -> (r: String)
    ensures
        r@ == "ru,en"@,
{
    "ru,en".to_owned()
}

/// The profile that a new configuration uses.
pub fn default_active_profile_id() -> (r: String)
    ensures
        r@ == RAW_PROFILE_ID@,
{
    RAW_PROFILE_ID.to_owned()
}

/// The SponsorBlock categories in menu order, each with its label.
pub open spec fn category_options() -> Seq<(&'static str, &'static str)> {
    seq![
        ("sponsor", "Спонсор"),
        ("selfpromo", "Самореклама"),
        ("intro", "Интро"),
        ("outro", "Аутро"),
        ("interaction", "Лайки/подписка"),
        ("preview", "Превью"),
        ("music_offtopic", "Оффтоп"),
        ("filler", "Филлер"),
    ]
}

/// The SponsorBlock categories in menu order, each with its label.
pub fn sponsorblock_category_options() -> (r: Vec<(&'static str, &'static str)>)
    ensures
        r@ == category_options(),
{
    vec![
        ("sponsor", "Спонсор"),
        ("selfpromo", "Самореклама"),
        ("intro", "Интро"),
        ("outro", "Аутро"),
        ("interaction", "Лайки/подписка"),
        ("preview", "Превью"),
        ("music_offtopic", "Оффтоп"),
        ("filler", "Филлер"),
    ]
}

/// `list` without the entries that equal `item`.
pub open spec fn without_text(list: Seq<Seq<char>>, item: Seq<char>) -> Seq<Seq<char>>
    decreases list.len(),
{
    if list.len() == 0 {
        Seq::empty()
    } else if list.last() == item {
        without_text(list.drop_last(), item)
    } else {
        without_text(list.drop_last(), item).push(list.last())
    }
}

/// A list of one flag, or of none.
pub open spec fn flag_list(flag: Option<Seq<char>>) -> Seq<Seq<char>> {
    match flag {
        Some(text) => seq![text],
        None => Seq::empty(),
    }
}

/// `flag` alone where `on`.
pub open spec fn switch_list(on: bool, flag: Seq<char>) -> Seq<Seq<char>> {
    if on {
        seq![flag]
    } else {
        Seq::empty()
    }
}

impl ProfileModel {
    /// A profile that changes nothing.
    pub open spec fn base(id: Seq<char>, name: Seq<char>) -> ProfileModel {
        ProfileModel {
            id,
            name,
            kind: DownloadKind::Video,
            video_resolution: VideoResolution::Best,
            container: ContainerFormat::Auto,
            audio_format: AudioFormat::Best,
            file_name_template: FileNameTemplate::Title,
            sponsorblock: SponsorBlockMode::Off,
            sponsorblock_categories: default_categories(),
            subtitles: SubtitleMode::Off,
            subtitle_langs: "ru,en"@,
            embed_metadata: false,
            embed_thumbnail: false,
            embed_chapters: false,
            playlist_mode: PlaylistMode::Auto,
            use_download_archive: false,
            extra_args: Seq::empty(),
        }
    }

    /// The arguments that choose what is downloaded, and in which format.
    pub open spec fn format_args(self) -> Seq<Seq<char>> {
        match self.kind {
            DownloadKind::Video => {
                (match self.video_resolution.sort_text() {
                    Some(sort) => seq!["-S"@, sort],
                    None => Seq::empty(),
                }) + (match self.container.arg_text() {
                    Some(container) => seq![
                        "--merge-output-format"@,
                        container,
                        "--remux-video"@,
                        container,
                    ],
                    None => Seq::empty(),
                })
            },
            DownloadKind::AudioOnly => {
                seq!["-x"@] + (match self.audio_format.arg_text() {
                    Some(format) => seq!["--audio-format"@, format],
                    None => Seq::empty(),
                })
            },
        }
    }

    /// The chosen SponsorBlock categories as one argument.
    pub open spec fn categories_arg(self) -> Seq<char> {
        let chosen = trimmed_parts(self.sponsorblock_categories);
        if chosen.len() == 0 {
            "sponsor,selfpromo"@
        } else {
            joined(chosen, ","@)
        }
    }

    /// The SponsorBlock arguments.
    pub open spec fn sponsorblock_args(self) -> Seq<Seq<char>> {
        match self.sponsorblock.flag_text() {
            Some(flag) => seq![flag, self.categories_arg()],
            None => Seq::empty(),
        }
    }

    /// The subtitle arguments.
    pub open spec fn subtitle_args(self) -> Seq<Seq<char>> {
        let langs = trimmed(self.subtitle_langs);
        let langs_args = if langs.len() == 0 {
            Seq::empty()
        } else {
            seq!["--sub-langs"@, langs]
        };
        match self.subtitles {
            SubtitleMode::Off => Seq::empty(),
            SubtitleMode::Manual => seq!["--write-subs"@] + langs_args,
            SubtitleMode::Auto => seq!["--write-auto-subs"@] + langs_args,
        }
    }

    /// The arguments for post-processing, playlists and the download archive.
    pub open spec fn switch_args(self, archive_path: Seq<char>) -> Seq<Seq<char>> {
        switch_list(self.embed_metadata, "--embed-metadata"@) + switch_list(
            self.embed_thumbnail,
            "--embed-thumbnail"@,
        ) + switch_list(self.embed_chapters, "--embed-chapters"@) + flag_list(
            self.playlist_mode.flag_text(),
        ) + (if self.use_download_archive {
            seq!["--download-archive"@, archive_path]
        } else {
            Seq::empty()
        })
    }

    /// The yt-dlp arguments of the profile.
    pub open spec fn yt_dlp_args(self, archive_path: Seq<char>) -> Seq<Seq<char>> {
        self.format_args() + self.sponsorblock_args() + self.subtitle_args() + self.switch_args(
            archive_path,
        ) + trimmed_parts(self.extra_args)
    }

    /// The template that yt-dlp names files by, in the folder `output_path`.
    pub open spec fn output_template(self, output_path: Seq<char>) -> Seq<char> {
        drop_class(output_path, CharClass::Separator) + (if self.kind == DownloadKind::AudioOnly
            && self.file_name_template == FileNameTemplate::ArtistTrack {
            "/%(artist,uploader|Unknown Artist)s - %(track,title)s.%(ext)s"@
        } else {
            "/%(title)s.%(ext)s"@
        })
    }

    /// The profile with `category` chosen or not.
    pub open spec fn with_category(self, category: Seq<char>, enabled: bool) -> ProfileModel {
        let chosen = self.sponsorblock_categories.contains(category);
        ProfileModel {
            sponsorblock_categories: if enabled && !chosen {
                self.sponsorblock_categories.push(category)
            } else if !enabled && chosen {
                without_text(self.sponsorblock_categories, category)
            } else {
                self.sponsorblock_categories
            },
            ..self
        }
    }
}

/// What the profiles of `list` hold.
pub open spec fn profiles(list: Seq<DownloadProfile>) -> Seq<ProfileModel> {
    list.map_values(|p: DownloadProfile| p@)
}

/// The profile that comes first in `list` under the given id.
pub open spec fn find_profile(list: Seq<ProfileModel>, id: Seq<char>) -> Option<ProfileModel>
    decreases list.len(),
{
    if list.len() == 0 {
        None
    } else if list[0].id == id {
        Some(list[0])
    } else {
        find_profile(list.drop_first(), id)
    }
}

/// The built-in profiles, in menu order.
pub open spec fn builtin_models() -> Seq<ProfileModel> {
    seq![
        ProfileModel::base(RAW_PROFILE_ID@, RAW_PROFILE_NAME@),
        ProfileModel {
            video_resolution: VideoResolution::P1080,
            container: ContainerFormat::Mp4,
            ..ProfileModel::base(MP4_1080_PROFILE_ID@, "MP4 1080p"@)
        },
        ProfileModel {
            video_resolution: VideoResolution::P720,
            container: ContainerFormat::Mp4,
            ..ProfileModel::base(MP4_720_PROFILE_ID@, "MP4 720p"@)
        },
        ProfileModel {
            video_resolution: VideoResolution::P1080,
            container: ContainerFormat::Mp4,
            sponsorblock: SponsorBlockMode::Remove,
            ..ProfileModel::base(NO_SPONSORS_PROFILE_ID@, "Видео без спонсоров"@)
        },
        ProfileModel {
            kind: DownloadKind::AudioOnly,
            audio_format: AudioFormat::Mp3,
            ..ProfileModel::base(AUDIO_MP3_PROFILE_ID@, "Аудио MP3"@)
        },
        ProfileModel {
            kind: DownloadKind::AudioOnly,
            audio_format: AudioFormat::M4a,
            ..ProfileModel::base(AUDIO_M4A_PROFILE_ID@, "Аудио M4A"@)
        },
    ]
}

/// Whether `list` holds `item`.
pub fn holds_text(list: &Vec<String>, item: &str) -> (r: bool)
    ensures
        r == texts(list@).contains(item@),
{
    let mut i: usize = 0;
    while i < list.len()
        invariant
            i <= list.len(),
            forall|j: int| 0 <= j < i ==> texts(list@)[j] != item@,
        decreases list.len() - i,
    {
        if same(list[i].as_str(), item) {
            assert(texts(list@)[i as int] == item@);
            return true;
        }
        i = i + 1;
    }
    false
}

impl DownloadProfile {
    /// A profile that changes nothing.
    pub fn base(id: &str, name: &str) -> (r: Self)
        ensures
            r@ == ProfileModel::base(id@, name@),
    {
        let r = DownloadProfile {
            id: id.to_owned(),
            name: name.to_owned(),
            kind: DownloadKind::Video,
            video_resolution: VideoResolution::Best,
            container: ContainerFormat::Auto,
            audio_format: AudioFormat::Best,
            file_name_template: FileNameTemplate::Title,
            sponsorblock: SponsorBlockMode::Off,
            sponsorblock_categories: default_sponsorblock_categories(),
            subtitles: SubtitleMode::Off,
            subtitle_langs: default_subtitle_langs(),
            embed_metadata: false,
            embed_thumbnail: false,
            embed_chapters: false,
            playlist_mode: PlaylistMode::Auto,
            use_download_archive: false,
            extra_args: Vec::new(),
        };
        assert(r@.extra_args =~= Seq::<Seq<char>>::empty());
        r
    }

    /// The profile that a user starts from.
    pub fn custom_default(id: &str, name: &str) -> (r: Self)
        ensures
            r@ == ProfileModel::base(id@, name@),
    {
        Self::base(id, name)
    }

    /// Appends the arguments that choose what is downloaded, and in which format.
    fn push_format_args(&self, args: &mut Vec<String>)
        ensures
            texts(final(args)@) == texts(old(args)@) + self@.format_args(),
    {
        match self.kind {
            DownloadKind::Video => {
                if let Some(sort_value) = self.video_resolution.sort_value() {
                    push_text(args, "-S");
                    push_text(args, sort_value);
                }
                if let Some(container) = self.container.arg_value() {
                    push_text(args, "--merge-output-format");
                    push_text(args, container);
                    push_text(args, "--remux-video");
                    push_text(args, container);
                }
            },
            DownloadKind::AudioOnly => {
                push_text(args, "-x");
                if let Some(audio_format) = self.audio_format.arg_value() {
                    push_text(args, "--audio-format");
                    push_text(args, audio_format);
                }
            },
        }
        assert(texts(args@) =~= texts(old(args)@) + self@.format_args());
    }

    /// Appends the SponsorBlock arguments.
    fn push_sponsorblock_args(&self, args: &mut Vec<String>)
        ensures
            texts(final(args)@) == texts(old(args)@) + self@.sponsorblock_args(),
    {
        if let Some(flag) = self.sponsorblock.flag() {
            let categories = self.sponsorblock_categories_arg();
            push_text(args, flag);
            push_text(args, categories.as_str());
        }
        assert(texts(args@) =~= texts(old(args)@) + self@.sponsorblock_args());
    }

    /// Appends the subtitle arguments.
    fn push_subtitle_args(&self, args: &mut Vec<String>)
        ensures
            texts(final(args)@) == texts(old(args)@) + self@.subtitle_args(),
    {
        match self.subtitles {
            SubtitleMode::Off => {},
            SubtitleMode::Manual => push_text(args, "--write-subs"),
            SubtitleMode::Auto => push_text(args, "--write-auto-subs"),
        }
        let langs = trim(self.subtitle_langs.as_str());
        if self.subtitles != SubtitleMode::Off && !langs.is_empty() {
            push_text(args, "--sub-langs");
            push_text(args, langs);
        }
        assert(texts(args@) =~= texts(old(args)@) + self@.subtitle_args());
    }

    /// Appends the arguments for post-processing, playlists and the download archive.
    fn push_switch_args(&self, args: &mut Vec<String>, archive_path: &str)
        ensures
            texts(final(args)@) == texts(old(args)@) + self@.switch_args(archive_path@),
    {
        if self.embed_metadata {
            push_text(args, "--embed-metadata");
        }
        if self.embed_thumbnail {
            push_text(args, "--embed-thumbnail");
        }
        if self.embed_chapters {
            push_text(args, "--embed-chapters");
        }
        if let Some(flag) = self.playlist_mode.flag() {
            push_text(args, flag);
        }
        if self.use_download_archive {
            push_text(args, "--download-archive");
            push_text(args, archive_path);
        }
        assert(texts(args@) =~= texts(old(args)@) + self@.switch_args(archive_path@));
    }

    /// The yt-dlp arguments of the profile.
    pub fn to_yt_dlp_args(&self, archive_path: &str) -> (r: Vec<String>)
        ensures
            texts(r@) == self@.yt_dlp_args(archive_path@),
    {
        let mut args: Vec<String> = Vec::new();
        assert(texts(args@) =~= Seq::<Seq<char>>::empty());
        self.push_format_args(&mut args);
        self.push_sponsorblock_args(&mut args);
        self.push_subtitle_args(&mut args);
        self.push_switch_args(&mut args, archive_path);
        let mut extra = trim_parts(&self.extra_args);
        let ghost (front, back) = (args@, extra@);
        args.append(&mut extra);
        assert(texts(args@) =~= texts(front) + texts(back));
        assert(texts(args@) =~= self@.yt_dlp_args(archive_path@));
        args
    }

    /// The template that yt-dlp names files by, in the folder `output_path`.
    pub fn output_template(&self, output_path: &str) -> (r: String)
        ensures
            r@ == self@.output_template(output_path@),
    {
        let clean_path = trim_end_of(output_path, CharClass::Separator);
        let mut out = clean_path.to_owned();
        match (self.kind, self.file_name_template) {
            (DownloadKind::AudioOnly, FileNameTemplate::ArtistTrack) => {
                out.append("/%(artist,uploader|Unknown Artist)s - %(track,title)s.%(ext)s");
            },
            _ => {
                out.append("/%(title)s.%(ext)s");
            },
        }
        out
    }

    /// The chosen SponsorBlock categories as one argument.
    pub fn sponsorblock_categories_arg(&self) -> (r: String)
        ensures
            r@ == self@.categories_arg(),
    {
        let categories = trim_parts(&self.sponsorblock_categories);
        assert(texts(categories@).len() == categories@.len());
        if categories.len() == 0 {
            "sponsor,selfpromo".to_owned()
        } else {
            join(&categories, ",")
        }
    }

    /// Whether the profile has chosen `category`.
    pub fn has_category(&self, category: &str) -> (r: bool)
        ensures
            r == self@.sponsorblock_categories.contains(category@),
    {
        holds_text(&self.sponsorblock_categories, category)
    }

    /// Chooses `category`, or gives it up.
    pub fn set_sponsorblock_category(&mut self, category: &str, enabled: bool)
        ensures
            final(self)@ == old(self)@.with_category(category@, enabled),
    {
        let exists = self.has_category(category);
        if enabled && !exists {
            push_text(&mut self.sponsorblock_categories, category);
        } else if !enabled && exists {
            let mut kept: Vec<String> = Vec::new();
            let mut i: usize = 0;
            let ghost all = texts(self.sponsorblock_categories@);
            while i < self.sponsorblock_categories.len()
                invariant
                    i <= self.sponsorblock_categories.len(),
                    all == texts(self.sponsorblock_categories@),
                    texts(kept@) =~= without_text(all.take(i as int), category@),
                decreases self.sponsorblock_categories.len() - i,
            {
                assert(all.take(i + 1).drop_last() =~= all.take(i as int));
                let current = &self.sponsorblock_categories[i];
                assert(all.take(i + 1).last() == current@);
                if !same(current.as_str(), category) {
                    push_text(&mut kept, current.as_str());
                }
                i = i + 1;
            }
            assert(all.take(all.len() as int) =~= all);
            self.sponsorblock_categories = kept;
        }
    }

    /// The additional arguments as the text of an input field, one argument to a line.
    pub fn extra_args_text(&self) -> (r: String)
        ensures
            r@ == joined(self@.extra_args, "\n"@),
    {
        join(&self.extra_args, "\n")
    }

    /// Takes the additional arguments from the text of an input field, one argument to a line.
    pub fn set_extra_args_text(&mut self, text: &str)
        ensures
            final(self)@ == (ProfileModel {
                extra_args: trimmed_parts(lines(text@)),
                ..old(self)@
            }),
    {
        let parts = split_lines(text);
        let mut list: Vec<String> = Vec::new();
        let mut i: usize = 0;
        while i < parts.len()
            invariant
                i <= parts.len(),
                texts(list@) =~= slices(parts@).take(i as int),
            decreases parts.len() - i,
        {
            assert(slices(parts@).take(i + 1) =~= slices(parts@).take(i as int).push(
                parts@[i as int]@,
            ));
            push_text(&mut list, parts[i]);
            i = i + 1;
        }
        assert(slices(parts@).take(parts@.len() as int) =~= slices(parts@));
        self.extra_args = trim_parts(&list);
    }
}

/// The built-in profiles, in menu order.
pub fn builtin_profiles() -> (r: Vec<DownloadProfile>)
    ensures
        profiles(r@) == builtin_models(),
{
    let raw = DownloadProfile::base(RAW_PROFILE_ID, RAW_PROFILE_NAME);

    let mut mp4_1080 = DownloadProfile::base(MP4_1080_PROFILE_ID, "MP4 1080p");
    mp4_1080.video_resolution = VideoResolution::P1080;
    mp4_1080.container = ContainerFormat::Mp4;

    let mut mp4_720 = DownloadProfile::base(MP4_720_PROFILE_ID, "MP4 720p");
    mp4_720.video_resolution = VideoResolution::P720;
    mp4_720.container = ContainerFormat::Mp4;

    let mut no_sponsors = DownloadProfile::base(NO_SPONSORS_PROFILE_ID, "Видео без спонсоров");
    no_sponsors.video_resolution = VideoResolution::P1080;
    no_sponsors.container = ContainerFormat::Mp4;
    no_sponsors.sponsorblock = SponsorBlockMode::Remove;

    let mut audio_mp3 = DownloadProfile::base(AUDIO_MP3_PROFILE_ID, "Аудио MP3");
    audio_mp3.kind = DownloadKind::AudioOnly;
    audio_mp3.audio_format = AudioFormat::Mp3;

    let mut audio_m4a = DownloadProfile::base(AUDIO_M4A_PROFILE_ID, "Аудио M4A");
    audio_m4a.kind = DownloadKind::AudioOnly;
    audio_m4a.audio_format = AudioFormat::M4a;

    let r = vec![raw, mp4_1080, mp4_720, no_sponsors, audio_mp3, audio_m4a];
    assert(profiles(r@) =~= builtin_models());
    r
}

/// The position of the first profile of `list` under the given id.
pub fn profile_index(list: &Vec<DownloadProfile>, id: &str) -> (r: Option<usize>)
    ensures
        match r {
            Some(i) => {
                &&& i < list@.len()
                &&& list@[i as int].id@ == id@
                &&& forall|j: int| 0 <= j < i ==> list@[j].id@ != id@
                &&& find_profile(profiles(list@), id@) == Some(list@[i as int]@)
            },
            None => {
                &&& forall|j: int| 0 <= j < list@.len() ==> list@[j].id@ != id@
                &&& find_profile(profiles(list@), id@) is None
            },
        },
{
    let mut i: usize = 0;
    let ghost all = profiles(list@);
    assert(all.skip(0) =~= all);
    while i < list.len()
        invariant
            i <= list.len(),
            all == profiles(list@),
            forall|j: int| 0 <= j < i ==> list@[j].id@ != id@,
            find_profile(all, id@) == find_profile(all.skip(i as int), id@),
        decreases list.len() - i,
    {
        assert(all.skip(i as int)[0] == list@[i as int]@);
        if same(list[i].id.as_str(), id) {
            return Some(i);
        }
        assert(all.skip(i as int).drop_first() =~= all.skip(i + 1));
        i = i + 1;
    }
    None
}

/// The built-in profile under the given id.
pub fn builtin_profile_by_id(id: &str) -> (r: Option<DownloadProfile>)
    ensures
        match r {
            Some(profile) => find_profile(builtin_models(), id@) == Some(profile@),
            None => find_profile(builtin_models(), id@) is None,
        },
{
    let list = builtin_profiles();
    match profile_index(&list, id) {
        Some(i) => Some(list[i].clone()),
        None => None,
    }
}

impl DownloadProfile {
    /// Whether the SponsorBlock categories matter.
    pub fn uses_categories(&self) -> (r: bool)
        ensures
            r == (self@.sponsorblock != SponsorBlockMode::Off),
    {
        self.sponsorblock != SponsorBlockMode::Off
    }

    /// Whether the subtitle languages matter.
    pub fn uses_subtitle_langs(&self) -> (r: bool)
        ensures
            r == (self@.subtitles != SubtitleMode::Off),
    {
        self.subtitles != SubtitleMode::Off
    }
}

/// A profile that changes nothing gives yt-dlp no arguments.
pub proof fn law_base_profile_adds_nothing(id: Seq<char>, name: Seq<char>, archive_path: Seq<char>)
    ensures
        ProfileModel::base(id, name).yt_dlp_args(archive_path) == Seq::<Seq<char>>::empty(),
{
    assert(ProfileModel::base(id, name).yt_dlp_args(archive_path) =~= Seq::<Seq<char>>::empty());
}

/// What a profile has yt-dlp do does not depend on its id or its name.
pub proof fn law_args_ignore_the_name(
    profile: ProfileModel,
    id: Seq<char>,
    name: Seq<char>,
    archive_path: Seq<char>,
)
    ensures
        (ProfileModel { id, name, ..profile }).yt_dlp_args(archive_path) == profile.yt_dlp_args(
            archive_path,
        ),
{
    let other = ProfileModel { id, name, ..profile };
    assert(other.format_args() == profile.format_args());
    assert(other.sponsorblock_args() == profile.sponsorblock_args());
    assert(other.subtitle_args() == profile.subtitle_args());
    assert(other.switch_args(archive_path) == profile.switch_args(archive_path));
}

/// The additional arguments come last, each as one argument without the white space round it;
/// blank ones are left out.
pub proof fn law_extra_args_come_last(profile: ProfileModel, archive_path: Seq<char>)
    ensures
        profile.yt_dlp_args(archive_path) == (ProfileModel {
            extra_args: Seq::empty(),
            ..profile
        }).yt_dlp_args(archive_path) + trimmed_parts(profile.extra_args),
{
    let plain = ProfileModel { extra_args: Seq::empty(), ..profile };
    assert(trimmed_parts(plain.extra_args) =~= Seq::<Seq<char>>::empty());
    assert(profile.yt_dlp_args(archive_path) =~= plain.yt_dlp_args(archive_path) + trimmed_parts(
        profile.extra_args,
    ));
}

/// The additional arguments that were taken from an input field are shown in it so that taking
/// them from it again changes nothing.
pub proof fn law_extra_args_text_is_stable(text: Seq<char>)
    ensures
        ({
            let args = trimmed_parts(lines(text));
            trimmed_parts(lines(joined(args, "\n"@))) == args
        }),
{
    let args = trimmed_parts(lines(text));
    reveal_strlit("\n");
    assert("\n"@ =~= seq!['\n']);
    lemma_trimmed_lines_are_clean(text);
    lemma_lines_of_joined(args);
    lemma_clean_lines_stay(args);
}

/// A category that was chosen is chosen, one that no longer is chosen is not, and choosing one
/// changes nothing of the others.
pub proof fn law_category_choice(
    profile: ProfileModel,
    category: Seq<char>,
    other: Seq<char>,
    enabled: bool,
)
    requires
        other != category,
    ensures
        ({
            let chosen = profile.with_category(category, enabled).sponsorblock_categories;
            &&& chosen.contains(category) == enabled
            &&& chosen.contains(other) == profile.sponsorblock_categories.contains(other)
        }),
{
    let list = profile.sponsorblock_categories;
    lemma_without_text(list, category, other);
    let grown = list.push(category);
    assert(grown[list.len() as int] == category);
    if list.contains(other) {
        let k = list.index_of(other);
        assert(grown[k] == other);
    }
}

proof fn lemma_without_text(list: Seq<Seq<char>>, item: Seq<char>, other: Seq<char>)
    requires
        other != item,
    ensures
        !without_text(list, item).contains(item),
        without_text(list, item).contains(other) == list.contains(other),
    decreases list.len(),
{
    if list.len() > 0 {
        let front = list.drop_last();
        lemma_without_text(front, item, other);
        let before = without_text(front, item);
        let kept = without_text(list, item);
        if before.contains(other) {
            let k = before.index_of(other);
            assert(kept[k] == other);
            let j = front.index_of(other);
            assert(list[j] == other);
        }
        if list.contains(other) {
            let j = list.index_of(other);
            if j < front.len() {
                assert(front[j] == other);
            } else {
                assert(kept[kept.len() - 1] == other);
            }
        }
        if kept.contains(item) {
            let k = kept.index_of(item);
            if k < before.len() {
                assert(before[k] == item);
            }
        }
        if kept.contains(other) {
            let k = kept.index_of(other);
            if k < before.len() {
                assert(before[k] == other);
            } else {
                assert(list[list.len() - 1] == other);
            }
        }
    }
}

/// A separator at the end of the download folder makes no difference.
pub proof fn law_template_ignores_separator_at_end(
    profile: ProfileModel,
    output_path: Seq<char>,
    separator: char,
)
    requires
        separator == '/' || separator == '\\',
    ensures
        profile.output_template(output_path.push(separator)) == profile.output_template(
            output_path,
        ),
{
    assert(output_path.push(separator).drop_last() =~= output_path);
}

/// Whether `value` stands in a list of choices exactly once.
pub open spec fn is_listed_once<T>(list: Seq<(T, &'static str)>, value: T) -> bool {
    exists|i: int|
        0 <= i < list.len() && (#[trigger] list[i]).0 == value && forall|j: int|
            0 <= j < list.len() && (#[trigger] list[j]).0 == value ==> j == i
}

/// Every menu offers each of its values exactly once.
pub proof fn law_menus_are_complete(
    kind: DownloadKind,
    resolution: VideoResolution,
    container: ContainerFormat,
    audio: AudioFormat,
    template: FileNameTemplate,
    sponsorblock: SponsorBlockMode,
    subtitles: SubtitleMode,
    playlist: PlaylistMode,
)
    ensures
        is_listed_once(DownloadKind::option_list(), kind),
        is_listed_once(VideoResolution::option_list(), resolution),
        is_listed_once(ContainerFormat::option_list(), container),
        is_listed_once(AudioFormat::option_list(), audio),
        is_listed_once(FileNameTemplate::option_list(), template),
        is_listed_once(SponsorBlockMode::option_list(), sponsorblock),
        is_listed_once(SubtitleMode::option_list(), subtitles),
        is_listed_once(PlaylistMode::option_list(), playlist),
{
    let i: int = match kind {
        DownloadKind::Video => 0,
        DownloadKind::AudioOnly => 1,
    };
    assert(DownloadKind::option_list()[i].0 == kind);
    let i: int = match resolution {
        VideoResolution::Best => 0,
        VideoResolution::P2160 => 1,
        VideoResolution::P1440 => 2,
        VideoResolution::P1080 => 3,
        VideoResolution::P720 => 4,
        VideoResolution::P480 => 5,
        VideoResolution::P360 => 6,
    };
    assert(VideoResolution::option_list()[i].0 == resolution);
    let i: int = match container {
        ContainerFormat::Auto => 0,
        ContainerFormat::Mp4 => 1,
        ContainerFormat::Mkv => 2,
        ContainerFormat::Webm => 3,
    };
    assert(ContainerFormat::option_list()[i].0 == container);
    let i: int = match audio {
        AudioFormat::Best => 0,
        AudioFormat::Mp3 => 1,
        AudioFormat::M4a => 2,
        AudioFormat::Opus => 3,
        AudioFormat::Flac => 4,
        AudioFormat::Wav => 5,
    };
    assert(AudioFormat::option_list()[i].0 == audio);
    let i: int = match template {
        FileNameTemplate::Title => 0,
        FileNameTemplate::ArtistTrack => 1,
    };
    assert(FileNameTemplate::option_list()[i].0 == template);
    let i: int = match sponsorblock {
        SponsorBlockMode::Off => 0,
        SponsorBlockMode::Mark => 1,
        SponsorBlockMode::Remove => 2,
    };
    assert(SponsorBlockMode::option_list()[i].0 == sponsorblock);
    let i: int = match subtitles {
        SubtitleMode::Off => 0,
        SubtitleMode::Manual => 1,
        SubtitleMode::Auto => 2,
    };
    assert(SubtitleMode::option_list()[i].0 == subtitles);
    let i: int = match playlist {
        PlaylistMode::Auto => 0,
        PlaylistMode::SingleVideo => 1,
        PlaylistMode::Playlist => 2,
    };
    assert(PlaylistMode::option_list()[i].0 == playlist);
}

/// How many lines the largest wanted picture has.
pub open spec fn picture_height(resolution: VideoResolution) -> Option<nat> {
    match resolution {
        VideoResolution::Best => None,
        VideoResolution::P2160 => Some(2160),
        VideoResolution::P1440 => Some(1440),
        VideoResolution::P1080 => Some(1080),
        VideoResolution::P720 => Some(720),
        VideoResolution::P480 => Some(480),
        VideoResolution::P360 => Some(360),
    }
}

/// The sort field is `res:` and the height of the picture.
proof fn lemma_sort_text(resolution: VideoResolution)
    ensures
        resolution.sort_text() == match picture_height(resolution) {
            Some(height) => Some("res:"@ + decimal(height)),
            None => None,
        },
{
    reveal_strlit("res:");
    reveal_strlit("res:2160");
    reveal_strlit("res:1440");
    reveal_strlit("res:1080");
    reveal_strlit("res:720");
    reveal_strlit("res:480");
    reveal_strlit("res:360");
    reveal_with_fuel(decimal, 5);
    assert("res:"@ + decimal(2160) =~= "res:2160"@);
    assert("res:"@ + decimal(1440) =~= "res:1440"@);
    assert("res:"@ + decimal(1080) =~= "res:1080"@);
    assert("res:"@ + decimal(720) =~= "res:720"@);
    assert("res:"@ + decimal(480) =~= "res:480"@);
    assert("res:"@ + decimal(360) =~= "res:360"@);
}

/// It makes no difference where lists are put together first.
proof fn lemma_lists_in_a_row(
    a: Seq<Seq<char>>,
    b: Seq<Seq<char>>,
    c: Seq<Seq<char>>,
    d: Seq<Seq<char>>,
    e: Seq<Seq<char>>,
)
    ensures
        a + b + c + d + e == a + (b + c + d + e),
        (a + b) + c == a + (b + c),
{
    assert(a + b + c + d + e =~= a + (b + c + d + e));
    assert((a + b) + c =~= a + (b + c));
}

/// Arguments that one profile has before those about the format of another, with the same after them.
proof fn lemma_args_before(
    a: ProfileModel,
    b: ProfileModel,
    archive_path: Seq<char>,
    before: Seq<Seq<char>>,
)
    requires
        a.format_args() == before + b.format_args(),
        a.sponsorblock_args() == b.sponsorblock_args(),
        a.subtitle_args() == b.subtitle_args(),
        a.switch_args(archive_path) == b.switch_args(archive_path),
        a.extra_args == b.extra_args,
    ensures
        a.yt_dlp_args(archive_path) == before + b.yt_dlp_args(archive_path),
{
    let f = b.format_args();
    let s = b.sponsorblock_args();
    let t = b.subtitle_args();
    let w = b.switch_args(archive_path);
    let e = trimmed_parts(b.extra_args);
    lemma_lists_in_a_row(before + f, s, t, w, e);
    lemma_lists_in_a_row(f, s, t, w, e);
    let later = s + t + w + e;
    let none = Seq::<Seq<char>>::empty();
    lemma_lists_in_a_row(before, f, later, none, none);
}

/// Whatever else a video profile says, choosing a resolution puts `-S` with the height of the picture
/// before its arguments and changes nothing else of them; with the best resolution there is no such
/// argument.
pub proof fn law_resolution_is_asked_for(
    profile: DownloadProfile,
    best: DownloadProfile,
    archive_path: &str,
    r: Vec<String>,
    without: Vec<String>,
)
    requires
        profile.kind == DownloadKind::Video,
        best@ == (ProfileModel { video_resolution: VideoResolution::Best, ..profile@ }),
        call_ensures(DownloadProfile::to_yt_dlp_args, (&profile, archive_path), r),
        call_ensures(DownloadProfile::to_yt_dlp_args, (&best, archive_path), without),
    ensures
        texts(r@) == (match picture_height(profile.video_resolution) {
            Some(height) => seq!["-S"@, "res:"@ + decimal(height)],
            None => Seq::empty(),
        }) + texts(without@),
{
    lemma_sort_text(profile.video_resolution);
    let a = profile@;
    let b = best@;
    assert(a.kind == profile.kind && a.video_resolution == profile.video_resolution);
    let before = match picture_height(a.video_resolution) {
        Some(height) => seq!["-S"@, "res:"@ + decimal(height)],
        None => Seq::empty(),
    };
    assert(a.format_args() =~= before + b.format_args());
    lemma_args_before(a, b, archive_path@, before);
}

/// Whatever else a video profile of the best resolution says, choosing a container has yt-dlp merge
/// into it and remux to it, before its other arguments, and changes nothing else of them; where
/// yt-dlp chooses, there is no such argument.
pub proof fn law_container_is_asked_for(
    profile: DownloadProfile,
    auto: DownloadProfile,
    archive_path: &str,
    r: Vec<String>,
    without: Vec<String>,
)
    requires
        profile.kind == DownloadKind::Video,
        profile.video_resolution == VideoResolution::Best,
        auto@ == (ProfileModel { container: ContainerFormat::Auto, ..profile@ }),
        call_ensures(DownloadProfile::to_yt_dlp_args, (&profile, archive_path), r),
        call_ensures(DownloadProfile::to_yt_dlp_args, (&auto, archive_path), without),
    ensures
        texts(r@) == container_options(profile.container) + texts(without@),
{
    let a = profile@;
    let b = auto@;
    assert(a.kind == profile.kind && a.container == profile.container && a.video_resolution
        == profile.video_resolution);
    assert(a.format_args() =~= container_options(a.container) + b.format_args());
    lemma_args_before(a, b, archive_path@, container_options(a.container));
}

/// What has yt-dlp put a video into a container.
pub open spec fn container_options(container: ContainerFormat) -> Seq<Seq<char>> {
    match container {
        ContainerFormat::Auto => Seq::empty(),
        ContainerFormat::Mp4 => seq!["--merge-output-format"@, "mp4"@, "--remux-video"@, "mp4"@],
        ContainerFormat::Mkv => seq!["--merge-output-format"@, "mkv"@, "--remux-video"@, "mkv"@],
        ContainerFormat::Webm => seq![
            "--merge-output-format"@,
            "webm"@,
            "--remux-video"@,
            "webm"@,
        ],
    }
}

/// A video profile with a container has yt-dlp merge into it and remux to it whatever its resolution
/// is; `-S` stands before that exactly where a resolution other than the best is chosen.
pub proof fn law_resolution_and_container_do_not_depend_on_each_other(
    profile: DownloadProfile,
    archive_path: &str,
    r: Vec<String>,
)
    requires
        profile.kind == DownloadKind::Video,
        profile.container != ContainerFormat::Auto,
        call_ensures(DownloadProfile::to_yt_dlp_args, (&profile, archive_path), r),
    ensures
        ({
            let at: int = if profile.video_resolution == VideoResolution::Best {
                0
            } else {
                2
            };
            &&& texts(r@).len() >= at + 4
            &&& texts(r@).subrange(at, at + 4) == container_options(profile.container)
            &&& at == 2 ==> texts(r@)[0] == "-S"@ && texts(r@)[1] == "res:"@ + decimal(
                picture_height(profile.video_resolution)->0,
            )
        }),
{
    lemma_sort_text(profile.video_resolution);
    let a = profile@;
    assert(a.kind == profile.kind && a.container == profile.container && a.video_resolution
        == profile.video_resolution);
    let at: int = if profile.video_resolution == VideoResolution::Best {
        0
    } else {
        2
    };
    assert(texts(r@).subrange(at, at + 4) =~= container_options(profile.container));
}

/// A profile for audio has yt-dlp extract the audio and, where a format is chosen, convert it to
/// that format; its resolution and container do not matter. Everything else is as in the video
/// profile that leaves resolution and container to yt-dlp.
pub proof fn law_audio_is_extracted(
    profile: DownloadProfile,
    video: DownloadProfile,
    archive_path: &str,
    r: Vec<String>,
    without: Vec<String>,
)
    requires
        profile.kind == DownloadKind::AudioOnly,
        video@ == (ProfileModel {
            kind: DownloadKind::Video,
            video_resolution: VideoResolution::Best,
            container: ContainerFormat::Auto,
            ..profile@
        }),
        call_ensures(DownloadProfile::to_yt_dlp_args, (&profile, archive_path), r),
        call_ensures(DownloadProfile::to_yt_dlp_args, (&video, archive_path), without),
    ensures
        texts(r@) == seq!["-x"@] + (match profile.audio_format {
            AudioFormat::Best => Seq::empty(),
            AudioFormat::Mp3 => seq!["--audio-format"@, "mp3"@],
            AudioFormat::M4a => seq!["--audio-format"@, "m4a"@],
            AudioFormat::Opus => seq!["--audio-format"@, "opus"@],
            AudioFormat::Flac => seq!["--audio-format"@, "flac"@],
            AudioFormat::Wav => seq!["--audio-format"@, "wav"@],
        }) + texts(without@),
{
    let a = profile@;
    let b = video@;
    assert(a.kind == profile.kind && a.audio_format == profile.audio_format);
    let before = a.format_args();
    assert(b.format_args() =~= Seq::<Seq<char>>::empty());
    assert(before =~= before + b.format_args());
    lemma_args_before(a, b, archive_path@, before);
}

/// Whether a profile leaves everything about formats to yt-dlp.
pub open spec fn leaves_formats(profile: ProfileModel) -> bool {
    &&& profile.kind == DownloadKind::Video
    &&& profile.video_resolution == VideoResolution::Best
    &&& profile.container == ContainerFormat::Auto
}

/// Arguments about sponsor segments that one profile has and another has not, where neither has any
/// about formats and the rest is the same.
proof fn lemma_args_after_formats(
    a: ProfileModel,
    b: ProfileModel,
    archive_path: Seq<char>,
    flag: Seq<Seq<char>>,
)
    requires
        a.format_args() == Seq::<Seq<char>>::empty(),
        b.format_args() == Seq::<Seq<char>>::empty(),
        a.sponsorblock_args() == flag,
        b.sponsorblock_args() == Seq::<Seq<char>>::empty(),
        a.subtitle_args() == b.subtitle_args(),
        a.switch_args(archive_path) == b.switch_args(archive_path),
        a.extra_args == b.extra_args,
    ensures
        a.yt_dlp_args(archive_path) == flag + b.yt_dlp_args(archive_path),
{
    let none = Seq::<Seq<char>>::empty();
    let t = b.subtitle_args();
    let w = b.switch_args(archive_path);
    let e = trimmed_parts(b.extra_args);
    lemma_lists_in_a_row(flag, t, w, e, none);
    assert(none + flag =~= flag);
    assert(none + none + t =~= t);
    assert(flag + t + w + e =~= flag + (t + w + e));
}

/// Marking or removing sponsor segments adds the flag for that and the chosen categories, and changes
/// nothing else; switched off it adds nothing. The resolution, container and audio format come
/// before it, so it is seen in a profile that leaves those to yt-dlp.
pub proof fn law_sponsor_segments_are_marked_or_removed(
    profile: DownloadProfile,
    off: DownloadProfile,
    archive_path: &str,
    categories: String,
    r: Vec<String>,
    without: Vec<String>,
)
    requires
        leaves_formats(profile@),
        off@ == (ProfileModel { sponsorblock: SponsorBlockMode::Off, ..profile@ }),
        call_ensures(DownloadProfile::sponsorblock_categories_arg, (&profile,), categories),
        call_ensures(DownloadProfile::to_yt_dlp_args, (&profile, archive_path), r),
        call_ensures(DownloadProfile::to_yt_dlp_args, (&off, archive_path), without),
    ensures
        texts(r@) == (match profile.sponsorblock {
            SponsorBlockMode::Off => Seq::empty(),
            SponsorBlockMode::Mark => seq!["--sponsorblock-mark"@, categories@],
            SponsorBlockMode::Remove => seq!["--sponsorblock-remove"@, categories@],
        }) + texts(without@),
{
    let a = profile@;
    let b = off@;
    assert(a.sponsorblock == profile.sponsorblock);
    let flag = match a.sponsorblock {
        SponsorBlockMode::Off => Seq::empty(),
        SponsorBlockMode::Mark => seq!["--sponsorblock-mark"@, categories@],
        SponsorBlockMode::Remove => seq!["--sponsorblock-remove"@, categories@],
    };
    lemma_args_after_formats(a, b, archive_path@, flag);
}

/// The chosen categories stand in one argument, in order, with commas between them, without the white
/// space round them and without blank ones. Where none is left, they are those of a new profile.
pub proof fn law_categories_are_listed(
    profile: DownloadProfile,
    fresh: DownloadProfile,
    kept: Vec<String>,
    list: String,
    r: String,
    new: String,
)
    requires
        call_ensures(trim_parts, (&profile.sponsorblock_categories,), kept),
        call_ensures(join, (&kept, ","), list),
        fresh@.sponsorblock_categories == default_categories(),
        call_ensures(DownloadProfile::sponsorblock_categories_arg, (&profile,), r),
        call_ensures(DownloadProfile::sponsorblock_categories_arg, (&fresh,), new),
    ensures
        kept@.len() > 0 ==> r@ == list@,
        kept@.len() == 0 ==> r@ == new@,
{
    assert(texts(kept@).len() == kept@.len());
    assert(profile@.sponsorblock_categories == texts(profile.sponsorblock_categories@));
    if kept@.len() == 0 {
        let list = default_categories();
        reveal_strlit("sponsor");
        reveal_strlit("selfpromo");
        reveal_strlit("sponsor,selfpromo");
        reveal_strlit(",");
        let one = list.drop_last();
        let none = one.drop_last();
        assert(none =~= Seq::<Seq<char>>::empty());
        assert(list.last() == "selfpromo"@ && one.last() == "sponsor"@);
        assert(trimmed("sponsor"@) == "sponsor"@) by {
            assert(skip_is_itself("sponsor"@));
        }
        assert(trimmed("selfpromo"@) == "selfpromo"@) by {
            assert(skip_is_itself("selfpromo"@));
        }
        reveal_with_fuel(trimmed_parts, 3);
        assert(trimmed_parts(list) =~= list);
        reveal_with_fuel(joined, 3);
        assert(joined(list, ","@) =~= "sponsor,selfpromo"@);
    }
}

/// Whether trimming leaves a text as it is at its start.
spec fn skip_is_itself(s: Seq<char>) -> bool {
    skip_class(s, CharClass::White) == s
}

/// Writing subtitles adds the flag for the kind that is wanted and, where languages are given, those
/// languages without the white space round them; switched off it adds nothing, whatever the
/// languages. It is seen in a profile that leaves formats and sponsor segments to yt-dlp.
pub proof fn law_subtitles_are_written(
    profile: DownloadProfile,
    off: DownloadProfile,
    archive_path: &str,
    langs: &str,
    given: &str,
    r: Vec<String>,
    without: Vec<String>,
)
    requires
        leaves_formats(profile@),
        profile.sponsorblock == SponsorBlockMode::Off,
        off@ == (ProfileModel { subtitles: SubtitleMode::Off, ..profile@ }),
        langs@ == profile.subtitle_langs@,
        call_ensures(trim, (langs,), given),
        call_ensures(DownloadProfile::to_yt_dlp_args, (&profile, archive_path), r),
        call_ensures(DownloadProfile::to_yt_dlp_args, (&off, archive_path), without),
    ensures
        texts(r@) == (match profile.subtitles {
            SubtitleMode::Off => Seq::empty(),
            SubtitleMode::Manual => seq!["--write-subs"@],
            SubtitleMode::Auto => seq!["--write-auto-subs"@],
        }) + (if profile.subtitles != SubtitleMode::Off && !all_white(langs@) {
            seq!["--sub-langs"@, given@]
        } else {
            Seq::empty()
        }) + texts(without@),
{
    lemma_blank_iff_white(langs@);
    let a = profile@;
    let b = off@;
    assert(a.sponsorblock == profile.sponsorblock && a.subtitles == profile.subtitles);
    assert(texts(r@) =~= (match a.subtitles {
        SubtitleMode::Off => Seq::empty(),
        SubtitleMode::Manual => seq!["--write-subs"@],
        SubtitleMode::Auto => seq!["--write-auto-subs"@],
    }) + (if a.subtitles != SubtitleMode::Off && !all_white(langs@) {
        seq!["--sub-langs"@, given@]
    } else {
        Seq::empty()
    }) + texts(without@));
}

/// Each of the other switches of a profile adds its own argument exactly where it is on, in this
/// order: metadata, thumbnail, chapters, playlist, download archive; the additional arguments follow
/// them, without the white space round them and without blank ones.
pub proof fn law_switches_add_their_arguments(
    profile: DownloadProfile,
    archive_path: &str,
    extra: Vec<String>,
    r: Vec<String>,
)
    requires
        leaves_formats(profile@),
        profile.sponsorblock == SponsorBlockMode::Off,
        profile.subtitles == SubtitleMode::Off,
        call_ensures(trim_parts, (&profile.extra_args,), extra),
        call_ensures(DownloadProfile::to_yt_dlp_args, (&profile, archive_path), r),
    ensures
        texts(r@) == (if profile.embed_metadata {
            seq!["--embed-metadata"@]
        } else {
            Seq::empty()
        }) + (if profile.embed_thumbnail {
            seq!["--embed-thumbnail"@]
        } else {
            Seq::empty()
        }) + (if profile.embed_chapters {
            seq!["--embed-chapters"@]
        } else {
            Seq::empty()
        }) + (match profile.playlist_mode {
            PlaylistMode::Auto => Seq::empty(),
            PlaylistMode::SingleVideo => seq!["--no-playlist"@],
            PlaylistMode::Playlist => seq!["--yes-playlist"@],
        }) + (if profile.use_download_archive {
            seq!["--download-archive"@, archive_path@]
        } else {
            Seq::empty()
        }) + texts(extra@),
{
    let a = profile@;
    assert(a.sponsorblock == profile.sponsorblock && a.subtitles == profile.subtitles);
    assert(a.playlist_mode == profile.playlist_mode && a.use_download_archive
        == profile.use_download_archive);
    assert(a.embed_metadata == profile.embed_metadata && a.embed_thumbnail
        == profile.embed_thumbnail && a.embed_chapters == profile.embed_chapters);
    assert(a.extra_args == texts(profile.extra_args@));
}

/// How files are named: by artist and track where that is chosen for audio, and by title otherwise.
pub open spec fn file_pattern(kind: DownloadKind, template: FileNameTemplate) -> Seq<char> {
    match (kind, template) {
        (
            DownloadKind::AudioOnly,
            FileNameTemplate::ArtistTrack,
        ) => "%(artist,uploader|Unknown Artist)s - %(track,title)s.%(ext)s"@,
        _ => "%(title)s.%(ext)s"@,
    }
}

/// Files go to the given folder, whatever it is: the template is the folder without the separators at
/// its end, a slash, and how the file is named there.
pub proof fn law_template_begins_with_the_folder(
    profile: DownloadProfile,
    folder: &str,
    cut: int,
    r: String,
)
    requires
        0 <= cut <= folder@.len(),
        cut > 0 ==> folder@[cut - 1] != '/' && folder@[cut - 1] != '\\',
        forall|i: int|
            cut <= i < folder@.len() ==> #[trigger] folder@[i] == '/' || folder@[i] == '\\',
        call_ensures(DownloadProfile::output_template, (&profile, folder), r),
    ensures
        r@ == folder@.take(cut) + "/"@ + file_pattern(profile.kind, profile.file_name_template),
{
    lemma_template(profile@, folder@, cut);
    assert(profile@.kind == profile.kind);
    assert(profile@.file_name_template == profile.file_name_template);
}

/// The template is the folder without the separators at its end, a slash, and how the file is named.
pub proof fn lemma_template(profile: ProfileModel, folder: Seq<char>, cut: int)
    requires
        0 <= cut <= folder.len(),
        cut > 0 ==> folder[cut - 1] != '/' && folder[cut - 1] != '\\',
        forall|i: int| cut <= i < folder.len() ==> #[trigger] folder[i] == '/' || folder[i] == '\\',
    ensures
        profile.output_template(folder) == folder.take(cut) + "/"@ + file_pattern(
            profile.kind,
            profile.file_name_template,
        ),
{
    let class = CharClass::Separator;
    let kept = drop_class(folder, class);
    lemma_drop_is_start(folder, class);
    assert(kept.len() == cut) by {
        if kept.len() > cut {
            assert(class.has(folder[kept.len() - 1]));
            assert(kept.last() == folder[kept.len() - 1]);
        }
        if kept.len() < cut {
            assert(class.has(folder[cut - 1]));
        }
    }
    reveal_strlit("/");
    reveal_strlit("/%(title)s.%(ext)s");
    reveal_strlit("%(title)s.%(ext)s");
    reveal_strlit("/%(artist,uploader|Unknown Artist)s - %(track,title)s.%(ext)s");
    reveal_strlit("%(artist,uploader|Unknown Artist)s - %(track,title)s.%(ext)s");
    assert(profile.output_template(folder) =~= folder.take(cut) + "/"@ + file_pattern(
        profile.kind,
        profile.file_name_template,
    ));
}

/// Choosing a category, or giving it up, leaves it chosen or not, leaves every other category as it
/// was, and changes nothing else of the profile. A new one comes last.
pub proof fn law_category_is_switched(
    profile: &mut DownloadProfile,
    category: &str,
    enabled: bool,
    other: Seq<char>,
)
    requires
        other != category@,
        call_ensures(DownloadProfile::set_sponsorblock_category, (profile, category, enabled), ()),
    ensures
        ({
            let before = old(profile)@;
            let after = final(profile)@;
            &&& after.sponsorblock_categories.contains(category@) == enabled
            &&& after.sponsorblock_categories.contains(other)
                == before.sponsorblock_categories.contains(other)
            &&& after == (ProfileModel {
                sponsorblock_categories: after.sponsorblock_categories,
                ..before
            })
            &&& enabled && !before.sponsorblock_categories.contains(category@)
                ==> after.sponsorblock_categories == before.sponsorblock_categories.push(category@)
            &&& enabled == before.sponsorblock_categories.contains(category@) ==> after == before
        }),
{
    law_category_choice(old(profile)@, category@, other, enabled);
}

/// The text of an input field gives a profile one argument for each line that is not blank, in order
/// and without the white space round it, and nothing else of the profile changes.
pub proof fn law_lines_become_arguments(
    profile: &mut DownloadProfile,
    text: &str,
    line: Seq<char>,
    rest: Seq<char>,
)
    requires
        text@ == line + seq!['\n'] + rest,
        !line.contains('\n'),
        call_ensures(DownloadProfile::set_extra_args_text, (profile, text), ()),
    ensures
        final(profile)@ == (ProfileModel {
            extra_args: final(profile)@.extra_args,
            ..old(profile)@
        }),
        final(profile)@.extra_args == (if all_white(line) {
            Seq::empty()
        } else {
            seq![trimmed(line)]
        }) + trimmed_parts(lines(rest)),
{
    let first = without_return(line);
    lemma_first_line(line, rest);
    law_trimmed_parts_in_order(seq![first], lines(rest), first);
    if first != line {
        let none = Seq::<char>::empty();
        assert(line =~= first + seq!['\r']);
        lemma_blank_iff_white(line);
        lemma_blank_iff_white(first);
        assert(trimmed(line) == trimmed(first)) by {
            lemma_trimmed_dropped(line);
            lemma_trimmed_dropped(first);
            assert(line.drop_last() =~= first);
            assert(drop_class(line, CharClass::White) == drop_class(first, CharClass::White));
        }
    }
}

/// What the built-in profiles do, in menu order: the first changes nothing, the next two give MP4 of
/// at most 1080 and 720 lines, the fourth is the second without sponsor segments, and the last two
/// give audio as MP3 and as M4A. In everything else they are as the first.
pub proof fn law_builtin_profiles(r: Vec<DownloadProfile>)
    requires
        call_ensures(builtin_profiles, (), r),
    ensures
        r@.len() == 6,
        forall|i: int|
            0 <= i < 6 ==> {
                let p = #[trigger] r@[i];
                &&& p.kind == if i < 4 {
                    DownloadKind::Video
                } else {
                    DownloadKind::AudioOnly
                }
                &&& p.video_resolution == if i == 1 || i == 3 {
                    VideoResolution::P1080
                } else if i == 2 {
                    VideoResolution::P720
                } else {
                    VideoResolution::Best
                }
                &&& p.container == if 1 <= i <= 3 {
                    ContainerFormat::Mp4
                } else {
                    ContainerFormat::Auto
                }
                &&& p.audio_format == if i == 4 {
                    AudioFormat::Mp3
                } else if i == 5 {
                    AudioFormat::M4a
                } else {
                    AudioFormat::Best
                }
                &&& p.sponsorblock == if i == 3 {
                    SponsorBlockMode::Remove
                } else {
                    SponsorBlockMode::Off
                }
                &&& p.sponsorblock_categories@.len() == 2 && p.sponsorblock_categories@[0]@
                    == "sponsor"@ && p.sponsorblock_categories@[1]@ == "selfpromo"@
                &&& p.file_name_template == FileNameTemplate::Title
                &&& p.subtitles == SubtitleMode::Off && p.subtitle_langs@ == "ru,en"@
                &&& !p.embed_metadata && !p.embed_thumbnail && !p.embed_chapters
                &&& p.playlist_mode == PlaylistMode::Auto
                &&& !p.use_download_archive
                &&& p.extra_args@.len() == 0
            },
{
    let list = profiles(r@);
    assert(list.len() == r@.len());
    assert forall|i: int| 0 <= i < 6 implies {
        let p = #[trigger] r@[i];
        &&& p.kind == list[i].kind
        &&& p.video_resolution == list[i].video_resolution
        &&& p.container == list[i].container
        &&& p.audio_format == list[i].audio_format
        &&& p.sponsorblock == list[i].sponsorblock
        &&& texts(p.sponsorblock_categories@) == list[i].sponsorblock_categories
        &&& p.file_name_template == list[i].file_name_template
        &&& p.subtitles == list[i].subtitles && p.subtitle_langs@ == list[i].subtitle_langs
        &&& p.embed_metadata == list[i].embed_metadata
        &&& p.embed_thumbnail == list[i].embed_thumbnail
        &&& p.embed_chapters == list[i].embed_chapters
        &&& p.playlist_mode == list[i].playlist_mode
        &&& p.use_download_archive == list[i].use_download_archive
        &&& texts(p.extra_args@) == list[i].extra_args
    } by {
        assert(list[i] == r@[i]@);
    }
    assert forall|i: int| 0 <= i < 6 implies (#[trigger] r@[i]).sponsorblock_categories@.len() == 2
        && r@[i].sponsorblock_categories@[0]@ == "sponsor"@
        && r@[i].sponsorblock_categories@[1]@ == "selfpromo"@ && r@[i].extra_args@.len() == 0 by {
        let names = texts(r@[i].sponsorblock_categories@);
        assert(list[i].sponsorblock_categories == default_categories());
        assert(names.len() == 2 && names[0] == "sponsor"@ && names[1] == "selfpromo"@);
        assert(names[0] == r@[i].sponsorblock_categories@[0]@);
        assert(names[1] == r@[i].sponsorblock_categories@[1]@);
        assert(texts(r@[i].extra_args@).len() == 0);
    }
}

/// A built-in profile is found under its own id, and under no other.
pub proof fn law_builtin_profile_is_found(
    all: Vec<DownloadProfile>,
    id: &str,
    r: Option<DownloadProfile>,
)
    requires
        call_ensures(builtin_profiles, (), all),
        call_ensures(builtin_profile_by_id, (id,), r),
    ensures
        r matches Some(profile) ==> profile.id@ == id@ && exists|i: int|
            0 <= i < all@.len() && (#[trigger] all@[i])@ == profile@,
        r is None ==> forall|i: int| 0 <= i < all@.len() ==> (#[trigger] all@[i]).id@ != id@,
{
    lemma_found_in(profiles(all@), id@);
    if let Some(profile) = r {
        let i = choose|i: int|
            0 <= i < profiles(all@).len() && (#[trigger] profiles(all@)[i]) == profile@;
        assert(all@[i]@ == profile@);
    } else {
        assert forall|i: int| 0 <= i < all@.len() implies (#[trigger] all@[i]).id@ != id@ by {
            assert(profiles(all@)[i] == all@[i]@);
        }
    }
}

/// What is found in a list is one of it, and goes by the id.
proof fn lemma_found_in(list: Seq<ProfileModel>, id: Seq<char>)
    ensures
        match find_profile(list, id) {
            Some(found) => found.id == id && exists|i: int|
                0 <= i < list.len() && (#[trigger] list[i]) == found,
            None => forall|i: int| 0 <= i < list.len() ==> (#[trigger] list[i]).id != id,
        },
    decreases list.len(),
{
    if list.len() > 0 && list[0].id != id {
        let rest = list.drop_first();
        lemma_found_in(rest, id);
        match find_profile(list, id) {
            Some(found) => {
                let i = choose|i: int| 0 <= i < rest.len() && (#[trigger] rest[i]) == found;
                assert(list[i + 1] == found);
            },
            None => {
                assert forall|i: int| 0 <= i < list.len() implies (#[trigger] list[i]).id
                    != id by {
                    if i > 0 {
                        assert(rest[i - 1] == list[i]);
                    }
                }
            },
        }
    }
}

/// The built-in profiles go by these ids and names.
pub proof fn law_builtin_profiles_have_names(r: Vec<DownloadProfile>)
    requires
        call_ensures(builtin_profiles, (), r),
    ensures
        r@.len() == 6,
        r@[0].id@ == "builtin.raw"@ && r@[0].name@ == "Обычное видео"@,
        r@[1].id@ == "builtin.mp4_1080"@ && r@[1].name@ == "MP4 1080p"@,
        r@[2].id@ == "builtin.mp4_720"@ && r@[2].name@ == "MP4 720p"@,
        r@[3].id@ == "builtin.no_sponsors"@ && r@[3].name@ == "Видео без спонсоров"@,
        r@[4].id@ == "builtin.audio_mp3"@ && r@[4].name@ == "Аудио MP3"@,
        r@[5].id@ == "builtin.audio_m4a"@ && r@[5].name@ == "Аудио M4A"@,
{
    let list = profiles(r@);
    assert(list.len() == r@.len());
    assert(list[0] == r@[0]@);
    assert(list[1] == r@[1]@);
    assert(list[2] == r@[2]@);
    assert(list[3] == r@[3]@);
    assert(list[4] == r@[4]@);
    assert(list[5] == r@[5]@);
}

/// What the menus offer, in order.
pub proof fn law_menus_offer(
    kinds: Vec<(DownloadKind, &'static str)>,
    resolutions: Vec<(VideoResolution, &'static str)>,
    containers: Vec<(ContainerFormat, &'static str)>,
    formats: Vec<(AudioFormat, &'static str)>,
    templates: Vec<(FileNameTemplate, &'static str)>,
    sponsorblock: Vec<(SponsorBlockMode, &'static str)>,
    subtitles: Vec<(SubtitleMode, &'static str)>,
    playlists: Vec<(PlaylistMode, &'static str)>,
    categories: Vec<(&'static str, &'static str)>,
)
    requires
        call_ensures(DownloadKind::options, (), kinds),
        call_ensures(VideoResolution::options, (), resolutions),
        call_ensures(ContainerFormat::options, (), containers),
        call_ensures(AudioFormat::options, (), formats),
        call_ensures(FileNameTemplate::options, (), templates),
        call_ensures(SponsorBlockMode::options, (), sponsorblock),
        call_ensures(SubtitleMode::options, (), subtitles),
        call_ensures(PlaylistMode::options, (), playlists),
        call_ensures(sponsorblock_category_options, (), categories),
    ensures
        kinds@ == seq![(DownloadKind::Video, "Видео"), (DownloadKind::AudioOnly, "Только аудио")],
        resolutions@ == seq![
            (VideoResolution::Best, "Лучшее"),
            (VideoResolution::P2160, "2160p"),
            (VideoResolution::P1440, "1440p"),
            (VideoResolution::P1080, "1080p"),
            (VideoResolution::P720, "720p"),
            (VideoResolution::P480, "480p"),
            (VideoResolution::P360, "360p"),
        ],
        containers@ == seq![
            (ContainerFormat::Auto, "Авто"),
            (ContainerFormat::Mp4, "MP4"),
            (ContainerFormat::Mkv, "MKV"),
            (ContainerFormat::Webm, "WebM"),
        ],
        formats@ == seq![
            (AudioFormat::Best, "Лучшее"),
            (AudioFormat::Mp3, "MP3"),
            (AudioFormat::M4a, "M4A"),
            (AudioFormat::Opus, "Opus"),
            (AudioFormat::Flac, "FLAC"),
            (AudioFormat::Wav, "WAV"),
        ],
        templates@ == seq![
            (FileNameTemplate::Title, "Название"),
            (FileNameTemplate::ArtistTrack, "Исполнитель - трек"),
        ],
        sponsorblock@ == seq![
            (SponsorBlockMode::Off, "Выкл"),
            (SponsorBlockMode::Mark, "Отметить"),
            (SponsorBlockMode::Remove, "Вырезать"),
        ],
        subtitles@ == seq![
            (SubtitleMode::Off, "Выкл"),
            (SubtitleMode::Manual, "Обычные"),
            (SubtitleMode::Auto, "Авто"),
        ],
        playlists@ == seq![
            (PlaylistMode::Auto, "Авто"),
            (PlaylistMode::SingleVideo, "Одно видео"),
            (PlaylistMode::Playlist, "Плейлист"),
        ],
        categories@ == seq![
            ("sponsor", "Спонсор"),
            ("selfpromo", "Самореклама"),
            ("intro", "Интро"),
            ("outro", "Аутро"),
            ("interaction", "Лайки/подписка"),
            ("preview", "Превью"),
            ("music_offtopic", "Оффтоп"),
            ("filler", "Филлер"),
        ],
{
}

/// The categories are offered exactly where sponsor segments are marked or removed, and the languages
/// exactly where subtitles are written.
pub proof fn law_details_are_offered(profile: DownloadProfile, categories: bool, langs: bool)
    requires
        call_ensures(DownloadProfile::uses_categories, (&profile,), categories),
        call_ensures(DownloadProfile::uses_subtitle_langs, (&profile,), langs),
    ensures
        categories <==> profile.sponsorblock == SponsorBlockMode::Mark || profile.sponsorblock
            == SponsorBlockMode::Remove,
        langs <==> profile.subtitles == SubtitleMode::Manual || profile.subtitles
            == SubtitleMode::Auto,
{
}

} // verus!
