//! The settings as the settings file holds them: every key may be left out but the id and the name of
//! a profile, and what is left out has a default.
use crate::config::{AppConfig, ConfigModel};
use crate::profile::{
    default_active_profile_id, profiles, AudioFormat, ContainerFormat, DownloadKind,
    DownloadProfile, FileNameTemplate, PlaylistMode, ProfileModel, SponsorBlockMode, SubtitleMode,
    VideoResolution,
};
use crate::text::{copy_texts, opt_text, texts};
use crate::theme::ThemeMode;
use vstd::prelude::*;

verus! {

/// A profile as the settings file holds it; `None` for a key that is left out.
pub struct StoredProfile {
    pub id: String,
    pub name: String,
    pub kind: Option<DownloadKind>,
    pub video_resolution: Option<VideoResolution>,
    pub container: Option<ContainerFormat>,
    pub audio_format: Option<AudioFormat>,
    pub file_name_template: Option<FileNameTemplate>,
    pub sponsorblock: Option<SponsorBlockMode>,
    pub sponsorblock_categories: Option<Vec<String>>,
    pub subtitles: Option<SubtitleMode>,
    pub subtitle_langs: Option<String>,
    pub embed_metadata: Option<bool>,
    pub embed_thumbnail: Option<bool>,
    pub embed_chapters: Option<bool>,
    pub playlist_mode: Option<PlaylistMode>,
    pub use_download_archive: Option<bool>,
    pub extra_args: Option<Vec<String>>,
}

/// The settings as the settings file holds them; `None` for a key that is left out.
pub struct StoredConfig {
    pub output_path: Option<String>,
    pub theme_mode: Option<ThemeMode>,
    pub active_profile_id: Option<String>,
    pub custom_profiles: Option<Vec<StoredProfile>>,
    /// The arguments of an old settings file.
    pub yt_dlp_args: Option<Vec<String>>,
}

/// What a stored profile holds.
#[verifier::ext_equal]
pub struct StoredProfileModel {
    pub id: Seq<char>,
    pub name: Seq<char>,
    pub kind: Option<DownloadKind>,
    pub video_resolution: Option<VideoResolution>,
    pub container: Option<ContainerFormat>,
    pub audio_format: Option<AudioFormat>,
    pub file_name_template: Option<FileNameTemplate>,
    pub sponsorblock: Option<SponsorBlockMode>,
    pub sponsorblock_categories: Option<Seq<Seq<char>>>,
    pub subtitles: Option<SubtitleMode>,
    pub subtitle_langs: Option<Seq<char>>,
    pub embed_metadata: Option<bool>,
    pub embed_thumbnail: Option<bool>,
    pub embed_chapters: Option<bool>,
    pub playlist_mode: Option<PlaylistMode>,
    pub use_download_archive: Option<bool>,
    pub extra_args: Option<Seq<Seq<char>>>,
}

/// What stored settings hold.
#[verifier::ext_equal]
pub struct StoredModel {
    pub output_path: Option<Seq<char>>,
    pub theme_mode: Option<ThemeMode>,
    pub active_profile_id: Option<Seq<char>>,
    pub custom_profiles: Option<Seq<StoredProfileModel>>,
    pub yt_dlp_args: Option<Seq<Seq<char>>>,
}

/// What an optional list of strings holds.
pub open spec fn opt_texts(list: Option<Vec<String>>) -> Option<Seq<Seq<char>>> {
    match list {
        Some(list) => Some(texts(list@)),
        None => None,
    }
}

impl View for StoredProfile {
    type V = StoredProfileModel;

    open spec fn view(&self) -> StoredProfileModel {
        StoredProfileModel {
            id: self.id@,
            name: self.name@,
            kind: self.kind,
            video_resolution: self.video_resolution,
            container: self.container,
            audio_format: self.audio_format,
            file_name_template: self.file_name_template,
            sponsorblock: self.sponsorblock,
            sponsorblock_categories: opt_texts(self.sponsorblock_categories),
            subtitles: self.subtitles,
            subtitle_langs: opt_text(self.subtitle_langs),
            embed_metadata: self.embed_metadata,
            embed_thumbnail: self.embed_thumbnail,
            embed_chapters: self.embed_chapters,
            playlist_mode: self.playlist_mode,
            use_download_archive: self.use_download_archive,
            extra_args: opt_texts(self.extra_args),
        }
    }
}

/// What the stored profiles of `list` hold.
pub open spec fn stored_profiles(list: Seq<StoredProfile>) -> Seq<StoredProfileModel> {
    list.map_values(|profile: StoredProfile| profile@)
}

impl View for StoredConfig {
    type V = StoredModel;

    open spec fn view(&self) -> StoredModel {
        StoredModel {
            output_path: opt_text(self.output_path),
            theme_mode: self.theme_mode,
            active_profile_id: opt_text(self.active_profile_id),
            custom_profiles: match self.custom_profiles {
                Some(list) => Some(stored_profiles(list@)),
                None => None,
            },
            yt_dlp_args: opt_texts(self.yt_dlp_args),
        }
    }
}

/// The value that is given, or else the default.
pub open spec fn given<T>(value: Option<T>, default: T) -> T {
    match value {
        Some(value) => value,
        None => default,
    }
}

/// The value that is given, or else the default.
fn take_given<T>(value: Option<T>, default: T) -> (r: T)
    ensures
        r == given(value, default),
{
    match value {
        Some(value) => value,
        None => default,
    }
}

impl StoredProfileModel {
    /// The profile that the file holds. What is left out is as in a profile that changes nothing.
    pub open spec fn restored(self) -> ProfileModel {
        let base = ProfileModel::base(self.id, self.name);
        ProfileModel {
            id: self.id,
            name: self.name,
            kind: given(self.kind, base.kind),
            video_resolution: given(self.video_resolution, base.video_resolution),
            container: given(self.container, base.container),
            audio_format: given(self.audio_format, base.audio_format),
            file_name_template: given(self.file_name_template, base.file_name_template),
            sponsorblock: given(self.sponsorblock, base.sponsorblock),
            sponsorblock_categories: given(self.sponsorblock_categories, base.sponsorblock_categories),
            subtitles: given(self.subtitles, base.subtitles),
            subtitle_langs: given(self.subtitle_langs, base.subtitle_langs),
            embed_metadata: given(self.embed_metadata, base.embed_metadata),
            embed_thumbnail: given(self.embed_thumbnail, base.embed_thumbnail),
            embed_chapters: given(self.embed_chapters, base.embed_chapters),
            playlist_mode: given(self.playlist_mode, base.playlist_mode),
            use_download_archive: given(self.use_download_archive, base.use_download_archive),
            extra_args: given(self.extra_args, base.extra_args),
        }
    }
}

/// The profile as the file is to hold it, with every key.
pub open spec fn stored_profile(profile: ProfileModel) -> StoredProfileModel {
    StoredProfileModel {
        id: profile.id,
        name: profile.name,
        kind: Some(profile.kind),
        video_resolution: Some(profile.video_resolution),
        container: Some(profile.container),
        audio_format: Some(profile.audio_format),
        file_name_template: Some(profile.file_name_template),
        sponsorblock: Some(profile.sponsorblock),
        sponsorblock_categories: Some(profile.sponsorblock_categories),
        subtitles: Some(profile.subtitles),
        subtitle_langs: Some(profile.subtitle_langs),
        embed_metadata: Some(profile.embed_metadata),
        embed_thumbnail: Some(profile.embed_thumbnail),
        embed_chapters: Some(profile.embed_chapters),
        playlist_mode: Some(profile.playlist_mode),
        use_download_archive: Some(profile.use_download_archive),
        extra_args: Some(profile.extra_args),
    }
}

impl StoredModel {
    /// The settings that the file holds. What is left out is as in settings that hold nothing yet.
    pub open spec fn restored(self) -> ConfigModel {
        let initial = ConfigModel::initial();
        ConfigModel {
            output_path: given(self.output_path, initial.output_path),
            theme_mode: given(self.theme_mode, initial.theme_mode),
            active_profile_id: given(self.active_profile_id, initial.active_profile_id),
            custom_profiles: match self.custom_profiles {
                Some(list) => list.map_values(|profile: StoredProfileModel| profile.restored()),
                None => initial.custom_profiles,
            },
            legacy_yt_dlp_args: given(self.yt_dlp_args, initial.legacy_yt_dlp_args),
        }
    }
}

/// The settings as the file is to hold them: with every key but the arguments of an old settings
/// file, which are never written.
pub open spec fn stored_config(config: ConfigModel) -> StoredModel {
    StoredModel {
        output_path: Some(config.output_path),
        theme_mode: Some(config.theme_mode),
        active_profile_id: Some(config.active_profile_id),
        custom_profiles: Some(
            config.custom_profiles.map_values(|profile: ProfileModel| stored_profile(profile)),
        ),
        yt_dlp_args: None,
    }
}

impl StoredProfile {
    /// The profile that the file holds. What is left out is as in a profile that changes nothing.
    pub fn restore(self) -> (r: DownloadProfile)
        ensures
            r@ == self@.restored(),
    {
        let base = DownloadProfile::base(self.id.as_str(), self.name.as_str());
        DownloadProfile {
            id: self.id,
            name: self.name,
            kind: take_given(self.kind, base.kind),
            video_resolution: take_given(self.video_resolution, base.video_resolution),
            container: take_given(self.container, base.container),
            audio_format: take_given(self.audio_format, base.audio_format),
            file_name_template: take_given(self.file_name_template, base.file_name_template),
            sponsorblock: take_given(self.sponsorblock, base.sponsorblock),
            sponsorblock_categories: take_given(self.sponsorblock_categories, base.sponsorblock_categories),
            subtitles: take_given(self.subtitles, base.subtitles),
            subtitle_langs: take_given(self.subtitle_langs, base.subtitle_langs),
            embed_metadata: take_given(self.embed_metadata, base.embed_metadata),
            embed_thumbnail: take_given(self.embed_thumbnail, base.embed_thumbnail),
            embed_chapters: take_given(self.embed_chapters, base.embed_chapters),
            playlist_mode: take_given(self.playlist_mode, base.playlist_mode),
            use_download_archive: take_given(self.use_download_archive, base.use_download_archive),
            extra_args: take_given(self.extra_args, base.extra_args),
        }
    }

    /// The profile as the file is to hold it, with every key.
    pub fn of(profile: &DownloadProfile) -> (r: Self)
        ensures
            r@ == stored_profile(profile@),
    {
        StoredProfile {
            id: profile.id.clone(),
            name: profile.name.clone(),
            kind: Some(profile.kind),
            video_resolution: Some(profile.video_resolution),
            container: Some(profile.container),
            audio_format: Some(profile.audio_format),
            file_name_template: Some(profile.file_name_template),
            sponsorblock: Some(profile.sponsorblock),
            sponsorblock_categories: Some(copy_texts(&profile.sponsorblock_categories)),
            subtitles: Some(profile.subtitles),
            subtitle_langs: Some(profile.subtitle_langs.clone()),
            embed_metadata: Some(profile.embed_metadata),
            embed_thumbnail: Some(profile.embed_thumbnail),
            embed_chapters: Some(profile.embed_chapters),
            playlist_mode: Some(profile.playlist_mode),
            use_download_archive: Some(profile.use_download_archive),
            extra_args: Some(copy_texts(&profile.extra_args)),
        }
    }
}

impl StoredConfig {
    /// The settings that the file holds. What is left out is as in settings that hold nothing yet.
    pub fn restore(self) -> (r: AppConfig)
        ensures
            r@ == self@.restored(),
    {
        let mut custom_profiles: Vec<DownloadProfile> = Vec::new();
        assert(profiles(custom_profiles@) =~= Seq::<ProfileModel>::empty());
        let ghost wanted = self@.restored().custom_profiles;
        if let Some(list) = self.custom_profiles {
            let mut rest = list;
            let ghost all = stored_profiles(list@);
            assert(all.skip(0) =~= all);
            while rest.len() > 0
                invariant
                    custom_profiles@.len() + rest@.len() == all.len(),
                    stored_profiles(rest@) =~= all.skip(custom_profiles@.len() as int),
                    wanted == all.map_values(|profile: StoredProfileModel| profile.restored()),
                    profiles(custom_profiles@) =~= wanted.take(custom_profiles@.len() as int),
                decreases rest.len(),
            {
                let ghost left = stored_profiles(rest@);
                let ghost n = custom_profiles@.len() as int;
                let stored = rest.remove(0);
                assert(left[0] == stored@);
                assert(stored_profiles(rest@) =~= left.drop_first());
                assert(all.skip(n).drop_first() =~= all.skip(n + 1));
                assert(wanted.take(n + 1) =~= wanted.take(n).push(stored@.restored()));
                custom_profiles.push(stored.restore());
            }
            assert(wanted.take(all.len() as int) =~= wanted);
        }
        let empty: Vec<String> = Vec::new();
        assert(texts(empty@) =~= Seq::<Seq<char>>::empty());
        let config = AppConfig {
            output_path: take_given(self.output_path, String::new()),
            theme_mode: take_given(self.theme_mode, ThemeMode::System),
            active_profile_id: take_given(self.active_profile_id, default_active_profile_id()),
            custom_profiles,
            legacy_yt_dlp_args: take_given(self.yt_dlp_args, empty),
        };
        assert(config@ =~= self@.restored());
        config
    }

    /// The settings as the file is to hold them: with every key but the arguments of an old settings
    /// file, which are never written.
    pub fn of(config: &AppConfig) -> (r: Self)
        ensures
            r@ == stored_config(config@),
    {
        let mut list: Vec<StoredProfile> = Vec::new();
        let ghost wanted = config@.custom_profiles.map_values(
            |profile: ProfileModel| stored_profile(profile),
        );
        let mut i: usize = 0;
        while i < config.custom_profiles.len()
            invariant
                i <= config.custom_profiles.len(),
                wanted == config@.custom_profiles.map_values(
                    |profile: ProfileModel| stored_profile(profile),
                ),
                stored_profiles(list@) =~= wanted.take(i as int),
            decreases config.custom_profiles.len() - i,
        {
            let stored = StoredProfile::of(&config.custom_profiles[i]);
            assert(wanted.take(i + 1) =~= wanted.take(i as int).push(stored@));
            list.push(stored);
            i = i + 1;
        }
        assert(wanted.take(wanted.len() as int) =~= wanted);
        StoredConfig {
            output_path: Some(config.output_path.clone()),
            theme_mode: Some(config.theme_mode),
            active_profile_id: Some(config.active_profile_id.clone()),
            custom_profiles: Some(list),
            yt_dlp_args: None,
        }
    }
}

/// Settings are read back as they were written, but for the arguments of an old settings file, which
/// are not written. So settings that need no repair are the same when they are loaded again, with
/// the theme, the folder, the active profile and every custom profile; they are not written anew,
/// and nothing is logged.
pub proof fn law_saved_settings_are_read_back(config: ConfigModel, app_dir: Seq<char>)
    ensures
        stored_config(config).yt_dlp_args is None,
        stored_config(config).restored() == (ConfigModel {
            legacy_yt_dlp_args: Seq::empty(),
            ..config
        }),
        !config.needs_repair() ==> {
            let read = stored_config(config).restored();
            &&& read.normalized(app_dir) == config
            &&& !read.needs_repair()
            &&& read.repair_messages() == Seq::<Seq<char>>::empty()
        },
{
    let read = stored_config(config).restored();
    assert forall|profile: ProfileModel| #[trigger]
        stored_profile(profile).restored() == profile by {
        assert(stored_profile(profile).restored() =~= profile);
    }
    assert(read.custom_profiles =~= config.custom_profiles);
    assert(read =~= (ConfigModel { legacy_yt_dlp_args: Seq::empty(), ..config }));
    if !config.needs_repair() {
        assert(read =~= config);
        crate::config::law_normal_is_kept(config, app_dir);
    }
}

/// Settings that are written and read back are the same, but for the arguments of an old settings file,
/// which are not written; every other key is.
pub proof fn law_written_settings_are_read_back(
    config: AppConfig,
    stored: StoredConfig,
    read: AppConfig,
)
    requires
        call_ensures(StoredConfig::of, (&config,), stored),
        call_ensures(StoredConfig::restore, (stored,), read),
    ensures
        stored.output_path is Some && stored.theme_mode is Some && stored.active_profile_id is Some
            && stored.custom_profiles is Some,
        stored.yt_dlp_args is None,
        read.output_path@ == config.output_path@,
        read.theme_mode == config.theme_mode,
        read.active_profile_id@ == config.active_profile_id@,
        read.custom_profiles@.len() == config.custom_profiles@.len(),
        forall|i: int|
            0 <= i < config.custom_profiles@.len() ==> (#[trigger] read.custom_profiles@[i])@
                == config.custom_profiles@[i]@,
        read.legacy_yt_dlp_args@.len() == 0,
{
    law_saved_settings_are_read_back(config@, Seq::empty());
    assert(read@.custom_profiles == config@.custom_profiles);
    assert(profiles(read.custom_profiles@).len() == read.custom_profiles@.len());
    assert(profiles(config.custom_profiles@).len() == config.custom_profiles@.len());
    assert(texts(read.legacy_yt_dlp_args@).len() == 0);
    assert forall|i: int| 0 <= i < config.custom_profiles@.len() implies (
    #[trigger] read.custom_profiles@[i])@ == config.custom_profiles@[i]@ by {
        assert(profiles(read.custom_profiles@)[i] == read.custom_profiles@[i]@);
        assert(profiles(config.custom_profiles@)[i] == config.custom_profiles@[i]@);
    }
}

/// A profile keeps what the file says of it, and has of a profile that changes nothing what the file
/// leaves out.
pub proof fn law_left_out_keys_have_defaults(
    stored: StoredProfile,
    id: &str,
    name: &str,
    base: DownloadProfile,
    r: DownloadProfile,
)
    requires
        id@ == stored.id@,
        name@ == stored.name@,
        call_ensures(DownloadProfile::base, (id, name), base),
        call_ensures(StoredProfile::restore, (stored,), r),
    ensures
        r.id@ == stored.id@,
        r.name@ == stored.name@,
        r.kind == (if stored.kind is Some { stored.kind->0 } else { base.kind }),
        r.video_resolution == (if stored.video_resolution is Some {
            stored.video_resolution->0
        } else {
            base.video_resolution
        }),
        r.container == (if stored.container is Some { stored.container->0 } else { base.container }),
        r.audio_format == (if stored.audio_format is Some {
            stored.audio_format->0
        } else {
            base.audio_format
        }),
        r.file_name_template == (if stored.file_name_template is Some {
            stored.file_name_template->0
        } else {
            base.file_name_template
        }),
        r.sponsorblock == (if stored.sponsorblock is Some {
            stored.sponsorblock->0
        } else {
            base.sponsorblock
        }),
        texts(r.sponsorblock_categories@) == (if stored.sponsorblock_categories is Some {
            texts(stored.sponsorblock_categories->0@)
        } else {
            texts(base.sponsorblock_categories@)
        }),
        r.subtitles == (if stored.subtitles is Some { stored.subtitles->0 } else { base.subtitles }),
        r.subtitle_langs@ == (if stored.subtitle_langs is Some {
            stored.subtitle_langs->0@
        } else {
            base.subtitle_langs@
        }),
        r.embed_metadata == (stored.embed_metadata is Some && stored.embed_metadata->0),
        r.embed_thumbnail == (stored.embed_thumbnail is Some && stored.embed_thumbnail->0),
        r.embed_chapters == (stored.embed_chapters is Some && stored.embed_chapters->0),
        r.playlist_mode == (if stored.playlist_mode is Some {
            stored.playlist_mode->0
        } else {
            base.playlist_mode
        }),
        r.use_download_archive == (stored.use_download_archive is Some
            && stored.use_download_archive->0),
        texts(r.extra_args@) == (if stored.extra_args is Some {
            texts(stored.extra_args->0@)
        } else {
            Seq::empty()
        }),
{
    let a = r@;
    let b = stored@.restored();
    assert(a == b);
    assert(a.kind == r.kind);
}

/// Settings keep what the file says, and have of settings that hold nothing yet what the file leaves
/// out.
pub proof fn law_left_out_settings_have_defaults(
    stored: StoredConfig,
    initial: AppConfig,
    r: AppConfig,
)
    requires
        call_ensures(AppConfig::default, (), initial),
        call_ensures(StoredConfig::restore, (stored,), r),
    ensures
        r.output_path@ == (if stored.output_path is Some {
            stored.output_path->0@
        } else {
            Seq::empty()
        }),
        r.theme_mode == (if stored.theme_mode is Some {
            stored.theme_mode->0
        } else {
            ThemeMode::System
        }),
        r.active_profile_id@ == (if stored.active_profile_id is Some {
            stored.active_profile_id->0@
        } else {
            initial.active_profile_id@
        }),
        stored.custom_profiles is None ==> r.custom_profiles@.len() == 0,
        stored.custom_profiles matches Some(list) ==> r.custom_profiles@.len() == list@.len()
            && forall|i: int|
            0 <= i < list@.len() ==> (#[trigger] r.custom_profiles@[i])@ == list@[i]@.restored(),
        texts(r.legacy_yt_dlp_args@) == (if stored.yt_dlp_args is Some {
            texts(stored.yt_dlp_args->0@)
        } else {
            Seq::empty()
        }),
{
    assert(profiles(r.custom_profiles@).len() == r.custom_profiles@.len());
    if let Some(list) = stored.custom_profiles {
        let all = stored_profiles(list@);
        assert(all.len() == list@.len());
        assert forall|i: int| 0 <= i < list@.len() implies (#[trigger] r.custom_profiles@[i])@
            == list@[i]@.restored() by {
            assert(profiles(r.custom_profiles@)[i] == r.custom_profiles@[i]@);
            assert(all[i] == list@[i]@);
        }
    }
}

} // verus!
