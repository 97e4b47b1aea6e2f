//! The settings file: defaults, repair after loading, and the profiles that it holds.
use crate::paths::{join_path, joined_path, lemma_joined_end};
use crate::profile::{
    builtin_models, builtin_profile_by_id, builtin_profiles, default_active_profile_id, find_profile, profile_index,
    profiles, DownloadProfile, ProfileModel, RAW_PROFILE_ID, RAW_PROFILE_NAME,
};
use crate::stored::StoredConfig;
use crate::text::{
    all_white, cat, cat4, decimal, decimal_text, lemma_blank_iff_white, lemma_decimal_value, lemma_trimmed_not_empty, opt_slice,
    push_text, slices, split_words, texts, trim, trimmed, words,
};
use crate::theme::ThemeMode;
use vstd::prelude::*;

verus! {

/// The profile that the arguments of an old settings file become.
pub const LEGACY_PROFILE_ID: &'static str = "custom.legacy";

/// The name of that profile.
pub const LEGACY_PROFILE_NAME: &'static str = "Старые настройки";

/// What is logged when arguments of an old settings file have become a profile.
pub const LEGACY_MESSAGE: &'static str =
    ">>> Старые параметры yt-dlp перенесены в профиль \"Старые настройки\"";

/// The settings of the program.
pub struct AppConfig {
    pub output_path: String,
    pub theme_mode: ThemeMode,
    pub active_profile_id: String,
    pub custom_profiles: Vec<DownloadProfile>,
    pub legacy_yt_dlp_args: Vec<String>,
}

/// What the settings hold.
#[verifier::ext_equal]
pub struct ConfigModel {
    pub output_path: Seq<char>,
    pub theme_mode: ThemeMode,
    pub active_profile_id: Seq<char>,
    pub custom_profiles: Seq<ProfileModel>,
    pub legacy_yt_dlp_args: Seq<Seq<char>>,
}

impl View for AppConfig {
    type V = ConfigModel;

    open spec fn view(&self) -> ConfigModel {
        ConfigModel {
            output_path: self.output_path@,
            theme_mode: self.theme_mode,
            active_profile_id: self.active_profile_id@,
            custom_profiles: profiles(self.custom_profiles@),
            legacy_yt_dlp_args: texts(self.legacy_yt_dlp_args@),
        }
    }
}

/// The words of all the lines of `list`, in order.
pub open spec fn all_words(list: Seq<Seq<char>>) -> Seq<Seq<char>>
    decreases list.len(),
{
    if list.len() == 0 {
        Seq::empty()
    } else {
        all_words(list.drop_last()) + words(list.last())
    }
}

/// `list` with `profile` in place of the first profile under its id, or else at the end.
pub open spec fn put_profile(list: Seq<ProfileModel>, profile: ProfileModel) -> Seq<ProfileModel>
    decreases list.len(),
{
    if list.len() == 0 {
        seq![profile]
    } else if list[0].id == profile.id {
        list.update(0, profile)
    } else {
        seq![list[0]] + put_profile(list.drop_first(), profile)
    }
}

/// The id of the custom profile with the given number.
pub open spec fn custom_id(n: nat) -> Seq<char> {
    "custom-"@ + decimal(n)
}

/// The folder that downloads go to when none is set.
pub open spec fn default_output(app_dir: Seq<char>) -> Seq<char> {
    joined_path(app_dir, "Video"@)
}

impl ConfigModel {
    /// The settings that hold nothing yet.
    pub open spec fn initial() -> ConfigModel {
        ConfigModel {
            output_path: Seq::empty(),
            theme_mode: ThemeMode::System,
            active_profile_id: RAW_PROFILE_ID@,
            custom_profiles: Seq::empty(),
            legacy_yt_dlp_args: Seq::empty(),
        }
    }

    /// The settings of a program in the folder `app_dir` that was never started.
    pub open spec fn fresh(app_dir: Seq<char>) -> ConfigModel {
        ConfigModel { output_path: default_output(app_dir), ..Self::initial() }
    }

    /// Whether a profile goes by the given id.
    pub open spec fn has_profile(self, id: Seq<char>) -> bool {
        find_profile(builtin_models(), id) is Some || find_profile(self.custom_profiles, id) is Some
    }

    /// The profile that downloads use.
    pub open spec fn active(self) -> ProfileModel {
        match find_profile(self.custom_profiles, self.active_profile_id) {
            Some(profile) => profile,
            None => match find_profile(builtin_models(), self.active_profile_id) {
                Some(profile) => profile,
                None => ProfileModel::base(RAW_PROFILE_ID@, RAW_PROFILE_NAME@),
            },
        }
    }

    /// The settings with a folder for downloads.
    pub open spec fn with_folder(self, app_dir: Seq<char>) -> ConfigModel {
        if trimmed(self.output_path).len() == 0 {
            ConfigModel { output_path: default_output(app_dir), ..self }
        } else {
            self
        }
    }

    /// The profile that the arguments of an old settings file stand for.
    pub open spec fn legacy_profile(self) -> ProfileModel {
        ProfileModel {
            extra_args: all_words(self.legacy_yt_dlp_args),
            ..ProfileModel::base(LEGACY_PROFILE_ID@, LEGACY_PROFILE_NAME@)
        }
    }

    /// The settings with the arguments of an old settings file made into the active profile.
    pub open spec fn without_legacy(self) -> ConfigModel {
        if self.legacy_yt_dlp_args.len() == 0 {
            self
        } else {
            ConfigModel {
                custom_profiles: put_profile(self.custom_profiles, self.legacy_profile()),
                active_profile_id: LEGACY_PROFILE_ID@,
                legacy_yt_dlp_args: Seq::empty(),
                ..self
            }
        }
    }

    /// Whether the active profile exists.
    pub open spec fn active_is_known(self) -> bool {
        trimmed(self.active_profile_id).len() > 0 && self.has_profile(self.active_profile_id)
    }

    /// The settings with an active profile that exists.
    pub open spec fn with_active(self) -> ConfigModel {
        if self.active_is_known() {
            self
        } else {
            ConfigModel { active_profile_id: RAW_PROFILE_ID@, ..self }
        }
    }

    /// The settings as they are used after they were read.
    pub open spec fn normalized(self, app_dir: Seq<char>) -> ConfigModel {
        self.with_folder(app_dir).without_legacy().with_active()
    }

    /// Whether the settings need no repair.
    pub open spec fn is_normal(self) -> bool {
        &&& trimmed(self.output_path).len() > 0
        &&& self.legacy_yt_dlp_args.len() == 0
        &&& self.active_is_known()
    }

    /// Whether the settings had to be repaired.
    pub open spec fn needs_repair(self) -> bool {
        ||| trimmed(self.output_path).len() == 0
        ||| self.legacy_yt_dlp_args.len() > 0
        ||| !self.without_legacy().active_is_known()
    }

    /// What is logged when the settings are repaired.
    pub open spec fn repair_messages(self) -> Seq<Seq<char>> {
        if self.legacy_yt_dlp_args.len() > 0 {
            seq![LEGACY_MESSAGE@]
        } else {
            Seq::empty()
        }
    }

    /// Whether `n` is the number of the next custom profile: the least number above the count of
    /// custom profiles whose id is free.
    pub open spec fn is_next_number(self, n: nat) -> bool {
        &&& n > self.custom_profiles.len()
        &&& !self.has_profile(custom_id(n))
        &&& forall|k: nat|
            self.custom_profiles.len() < k < n ==> self.has_profile(#[trigger] custom_id(k))
    }

    /// The id of the next custom profile.
    pub open spec fn next_id(self) -> Seq<char> {
        custom_id(choose|n: nat| self.is_next_number(n))
    }
}

/// A profile is found exactly where one of the list goes by the id.
pub proof fn lemma_find_profile(list: Seq<ProfileModel>, id: Seq<char>)
    ensures
        find_profile(list, id) is Some <==> exists|i: int|
            0 <= i < list.len() && (#[trigger] list[i]).id == id,
        find_profile(list, id) is Some ==> find_profile(list, id)->0.id == id,
    decreases list.len(),
{
    if list.len() > 0 {
        let rest = list.drop_first();
        lemma_find_profile(rest, id);
        if list[0].id != id {
            if exists|i: int| 0 <= i < list.len() && (#[trigger] list[i]).id == id {
                let i = choose|i: int| 0 <= i < list.len() && (#[trigger] list[i]).id == id;
                assert(rest[i - 1].id == id);
            }
            if find_profile(rest, id) is Some {
                let i = choose|i: int| 0 <= i < rest.len() && (#[trigger] rest[i]).id == id;
                assert(list[i + 1].id == id);
            }
        }
    }
}

/// Putting a profile leaves the place of the first profile under its id, or adds one at the end.
pub proof fn lemma_put_profile(list: Seq<ProfileModel>, profile: ProfileModel)
    ensures
        find_profile(list, profile.id) is None ==> put_profile(list, profile) == list.push(profile),
        forall|i: int|
            #![trigger list[i]]
            0 <= i < list.len() && list[i].id == profile.id && (forall|j: int|
                0 <= j < i ==> (#[trigger] list[j]).id != profile.id) ==> put_profile(list, profile)
                == list.update(i, profile),
        find_profile(put_profile(list, profile), profile.id) == Some(profile),
    decreases list.len(),
{
    if list.len() > 0 {
        let rest = list.drop_first();
        lemma_put_profile(rest, profile);
        if list[0].id == profile.id {
            assert(put_profile(list, profile)[0] == profile);
        } else {
            let put = put_profile(list, profile);
            assert(put.drop_first() =~= put_profile(rest, profile));
            assert(seq![list[0]] + rest.push(profile) =~= list.push(profile));
            assert forall|i: int|
                #![trigger list[i]]
                0 <= i < list.len() && list[i].id == profile.id && (forall|j: int|
                    0 <= j < i ==> (#[trigger] list[j]).id != profile.id) implies put
                == list.update(i, profile) by {
                assert(rest[i - 1] == list[i]);
                assert forall|j: int| 0 <= j < i - 1 implies (#[trigger] rest[j]).id
                    != profile.id by {
                    assert(rest[j] == list[j + 1]);
                }
                assert(seq![list[0]] + rest.update(i - 1, profile) =~= list.update(i, profile));
            }
        }
    } else {
        assert(seq![profile] =~= list.push(profile));
        assert(seq![profile][0] == profile);
    }
}

/// Two custom profiles with different numbers have different ids.
pub proof fn lemma_custom_id_injective(a: nat, b: nat)
    requires
        custom_id(a) == custom_id(b),
    ensures
        a == b,
{
    let k = "custom-"@.len() as int;
    assert(custom_id(a).skip(k) =~= decimal(a));
    assert(custom_id(b).skip(k) =~= decimal(b));
    lemma_decimal_value(a);
    lemma_decimal_value(b);
}

/// No built-in profile has the id of a custom profile.
proof fn lemma_custom_id_not_builtin(n: nat)
    ensures
        find_profile(builtin_models(), custom_id(n)) is None,
{
    let list = builtin_models();
    reveal_strlit("custom-");
    reveal_strlit("builtin.raw");
    reveal_strlit("builtin.mp4_1080");
    reveal_strlit("builtin.mp4_720");
    reveal_strlit("builtin.no_sponsors");
    reveal_strlit("builtin.audio_mp3");
    reveal_strlit("builtin.audio_m4a");
    assert(custom_id(n)[0] == 'c');
    assert forall|i: int| 0 <= i < list.len() implies (#[trigger] list[i]).id[0] == 'b' by {
        assert(i == 0 || i == 1 || i == 2 || i == 3 || i == 4 || i == 5);
    }
    lemma_find_profile(list, custom_id(n));
}

/// There are no more taken numbers in a row, from the count of custom profiles on, than there are
/// custom profiles.
proof fn lemma_taken_numbers(config: ConfigModel, n: nat)
    requires
        n > config.custom_profiles.len(),
        forall|k: nat|
            config.custom_profiles.len() < k < n ==> config.has_profile(#[trigger] custom_id(k)),
    ensures
        n <= 2 * config.custom_profiles.len() + 1,
{
    let list = config.custom_profiles;
    let first = (list.len() + 1) as nat;
    let count = (n - first) as nat;
    let taken = Seq::new(count, |j: int| custom_id((first + j) as nat));
    let ids = Seq::new(list.len(), |i: int| list[i].id);
    assert(taken.no_duplicates()) by {
        assert forall|i: int, j: int| 0 <= i < taken.len() && 0 <= j < taken.len() && i != j
            implies taken[i] != taken[j] by {
            if taken[i] == taken[j] {
                lemma_custom_id_injective((first + i) as nat, (first + j) as nat);
            }
        }
    }
    assert(taken.to_set().subset_of(ids.to_set())) by {
        assert forall|id: Seq<char>| taken.to_set().contains(id) implies ids.to_set().contains(
            id,
        ) by {
            let j = choose|j: int| 0 <= j < taken.len() && taken[j] == id;
            let k = (first + j) as nat;
            assert(config.has_profile(custom_id(k)));
            lemma_custom_id_not_builtin(k);
            lemma_find_profile(list, custom_id(k));
            let i = choose|i: int| 0 <= i < list.len() && (#[trigger] list[i]).id == custom_id(k);
            assert(ids[i] == id);
        }
    }
    taken.unique_seq_to_set();
    ids.lemma_cardinality_of_set();
    vstd::set_lib::lemma_len_subset(taken.to_set(), ids.to_set());
}

/// The next number is unique.
proof fn lemma_next_number_unique(config: ConfigModel, a: nat, b: nat)
    requires
        config.is_next_number(a),
        config.is_next_number(b),
    ensures
        a == b,
{
    if a < b {
        assert(config.has_profile(custom_id(a)));
    }
    if b < a {
        assert(config.has_profile(custom_id(b)));
    }
}

impl Default for AppConfig {
    fn default() -> (r: Self)
        ensures
            r@ == ConfigModel::initial(),
    {
        let r = AppConfig {
            output_path: String::new(),
            theme_mode: ThemeMode::System,
            active_profile_id: default_active_profile_id(),
            custom_profiles: Vec::new(),
            legacy_yt_dlp_args: Vec::new(),
        };
        assert(r@ =~= ConfigModel::initial());
        r
    }
}

impl AppConfig {
    /// The settings of a program in the folder `app_dir` that was never started.
    pub fn default_for(app_dir: &str) -> (r: Self)
        ensures
            r@ == ConfigModel::fresh(app_dir@),
    {
        let mut config = AppConfig::default();
        config.output_path = join_path(app_dir, "Video");
        config
    }

    /// The words of all the lines, in order.
    pub fn legacy_args_to_extra_args(args: &Vec<String>) -> (r: Vec<String>)
        ensures
            texts(r@) == all_words(texts(args@)),
    {
        let mut out: Vec<String> = Vec::new();
        let mut i: usize = 0;
        while i < args.len()
            invariant
                i <= args.len(),
                texts(out@) =~= all_words(texts(args@).take(i as int)),
            decreases args.len() - i,
        {
            let ghost seen = texts(args@).take(i + 1);
            assert(seen.drop_last() =~= texts(args@).take(i as int));
            assert(seen.last() == args@[i as int]@);
            let ghost before = texts(out@);
            let parts = split_words(args[i].as_str());
            let mut j: usize = 0;
            while j < parts.len()
                invariant
                    j <= parts.len(),
                    texts(out@) =~= before + slices(parts@).take(j as int),
                decreases parts.len() - j,
            {
                assert(slices(parts@).take(j + 1) =~= slices(parts@).take(j as int).push(
                    parts@[j as int]@,
                ));
                push_text(&mut out, parts[j]);
                j = j + 1;
            }
            assert(slices(parts@).take(parts@.len() as int) =~= slices(parts@));
            i = i + 1;
        }
        assert(texts(args@).take(args@.len() as int) =~= texts(args@));
        out
    }

    /// Whether a profile goes by the given id.
    pub fn has_profile(&self, id: &str) -> (r: bool)
        ensures
            r == self@.has_profile(id@),
    {
        builtin_profile_by_id(id).is_some() || profile_index(&self.custom_profiles, id).is_some()
    }

    /// Puts `profile` in place of the first custom profile under its id, or else at the end.
    fn put_custom_profile(&mut self, profile: DownloadProfile)
        ensures
            final(self)@ == (ConfigModel {
                custom_profiles: put_profile(old(self)@.custom_profiles, profile@),
                ..old(self)@
            }),
    {
        let ghost list = self@.custom_profiles;
        proof {
            lemma_put_profile(list, profile@);
        }
        match profile_index(&self.custom_profiles, profile.id.as_str()) {
            Some(i) => {
                assert(list[i as int].id == profile@.id);
                assert forall|j: int| 0 <= j < i implies (#[trigger] list[j]).id
                    != profile@.id by {
                    assert(self.custom_profiles@[j].id@ != profile.id@);
                }
                let ghost put = profile@;
                self.custom_profiles.set(i, profile);
                assert(self@.custom_profiles =~= list.update(i as int, put));
            },
            None => {
                let ghost put = profile@;
                self.custom_profiles.push(profile);
                assert(self@.custom_profiles =~= list.push(put));
            },
        }
    }

    /// Repairs settings that were just read: gives them a folder for downloads, makes the
    /// arguments of an old settings file into a profile, and sees to it that the active profile
    /// exists. Tells whether anything changed, and what is to be logged.
    pub fn normalize_after_load(&mut self, app_dir: &str) -> (r: (bool, Vec<String>))
        ensures
            final(self)@ == old(self)@.normalized(app_dir@),
            r.0 == old(self)@.needs_repair(),
            texts(r.1@) == old(self)@.repair_messages(),
    {
        let mut changed = false;
        let mut messages: Vec<String> = Vec::new();
        assert(texts(messages@) =~= Seq::<Seq<char>>::empty());
        if trim(self.output_path.as_str()).is_empty() {
            self.output_path = join_path(app_dir, "Video");
            changed = true;
        }
        assert(self@ =~= old(self)@.with_folder(app_dir@));
        let ghost folded = self@;
        if self.legacy_yt_dlp_args.len() > 0 {
            let mut profile = DownloadProfile::custom_default(
                LEGACY_PROFILE_ID,
                LEGACY_PROFILE_NAME,
            );
            profile.extra_args = Self::legacy_args_to_extra_args(&self.legacy_yt_dlp_args);
            assert(profile@ =~= folded.legacy_profile());
            self.put_custom_profile(profile);
            self.active_profile_id = LEGACY_PROFILE_ID.to_owned();
            self.legacy_yt_dlp_args = Vec::new();
            assert(self@.legacy_yt_dlp_args =~= Seq::<Seq<char>>::empty());
            push_text(&mut messages, LEGACY_MESSAGE);
            assert(texts(messages@) =~= seq![LEGACY_MESSAGE@]);
            changed = true;
        }
        assert(self@ =~= folded.without_legacy());
        if trim(self.active_profile_id.as_str()).is_empty() || !self.has_profile(
            self.active_profile_id.as_str(),
        ) {
            self.active_profile_id = RAW_PROFILE_ID.to_owned();
            changed = true;
        }
        assert(folded.without_legacy().active_is_known()
            == old(self)@.without_legacy().active_is_known());
        (changed, messages)
    }

    /// The profile that downloads use: the custom profile under the active id, or else the
    /// built-in one, or else the one that changes nothing.
    pub fn active_profile(&self) -> (r: DownloadProfile)
        ensures
            r@ == self@.active(),
    {
        match profile_index(&self.custom_profiles, self.active_profile_id.as_str()) {
            Some(i) => self.custom_profiles[i].clone(),
            None => match builtin_profile_by_id(self.active_profile_id.as_str()) {
                Some(profile) => profile,
                None => DownloadProfile::base(RAW_PROFILE_ID, RAW_PROFILE_NAME),
            },
        }
    }

    /// The name of the profile that downloads use.
    pub fn active_profile_name(&self) -> (r: String)
        ensures
            r@ == self@.active().name,
    {
        self.active_profile().name
    }

    /// The position of the active profile among the custom ones.
    pub fn active_custom_profile_index(&self) -> (r: Option<usize>)
        ensures
            match r {
                Some(i) => {
                    &&& i < self@.custom_profiles.len()
                    &&& self@.custom_profiles[i as int].id == self@.active_profile_id
                    &&& forall|j: int|
                        0 <= j < i ==> (#[trigger] self@.custom_profiles[j]).id
                            != self@.active_profile_id
                    &&& self@.custom_profiles[i as int] == self@.active()
                },
                None => find_profile(self@.custom_profiles, self@.active_profile_id) is None,
            },
    {
        profile_index(&self.custom_profiles, self.active_profile_id.as_str())
    }

    /// The id of the next custom profile.
    pub fn next_custom_profile_id(&self) -> (r: String)
        ensures
            r@ == self@.next_id(),
            exists|n: nat| self@.is_next_number(n) && r@ == #[trigger] custom_id(n),
    {
        let len: u128 = self.custom_profiles.len() as u128;
        let mut n: u128 = len + 1;
        assert(self@.custom_profiles.len() == len);
        loop
            invariant
                len == self@.custom_profiles.len(),
                len <= usize::MAX,
                n > len,
                forall|k: nat| len < k < n ==> self@.has_profile(#[trigger] custom_id(k)),
            decreases 2 * len + 2 - n,
        {
            let digits = decimal_text(n);
            let id = cat("custom-", digits.as_str());
            if !self.has_profile(id.as_str()) {
                proof {
                    let found = n as nat;
                    assert(self@.is_next_number(found));
                    let chosen = choose|m: nat| self@.is_next_number(m);
                    lemma_next_number_unique(self@, found, chosen);
                    assert(id@ == custom_id(found));
                }
                return id;
            }
            proof {
                assert forall|k: nat| len < k < n + 1 implies self@.has_profile(
                    #[trigger] custom_id(k),
                ) by {
                    if k == n {
                        assert(id@ == custom_id(k));
                    }
                }
                lemma_taken_numbers(self@, (n + 1) as nat);
            }
            n = n + 1;
        }
    }
}

/// What reading the settings file gave.
pub enum ConfigSource {
    /// Settings, as the file holds them.
    Parsed(StoredConfig),
    /// A text that is no settings file, and why not.
    Corrupt(String),
    /// No file.
    Missing,
    /// A failure, and its cause.
    Unreadable(String),
}

/// The settings to start with, and what is left to do for them: the download folder is to be
/// created, and where `save` is set the settings are to be written.
pub struct LoadPlan {
    pub config: AppConfig,
    /// What is to be logged so far.
    pub messages: Vec<String>,
    /// Whether these are the settings of a program that was never started.
    pub fresh: bool,
    pub save: bool,
}

/// What is logged of a settings file that gave no settings.
pub open spec fn source_messages(source: ConfigSource, config_path: Seq<char>) -> Seq<Seq<char>> {
    match source {
        ConfigSource::Parsed(stored) => stored@.restored().repair_messages(),
        ConfigSource::Corrupt(err) => seq![
            ">>> Конфиг "@ + config_path + " поврежден, будет создан новый: "@ + err@,
        ],
        ConfigSource::Missing => Seq::empty(),
        ConfigSource::Unreadable(err) => seq![
            ">>> Не удалось прочитать конфиг "@ + config_path + ": "@ + err@,
        ],
    }
}

/// What is logged when the download folder could not be created.
pub open spec fn folder_messages(
    fresh: bool,
    folder: Seq<char>,
    error: Option<Seq<char>>,
) -> Seq<Seq<char>> {
    match error {
        Some(err) => if fresh {
            seq![">>> Не удалось создать папку загрузок "@ + folder + ": "@ + err]
        } else {
            seq![">>> Не удалось подготовить папку загрузок "@ + folder + ": "@ + err]
        },
        None => Seq::empty(),
    }
}

/// What is logged when the settings could not be written.
pub open spec fn save_messages(config_path: Seq<char>, error: Option<Seq<char>>) -> Seq<Seq<char>> {
    match error {
        Some(err) => seq![">>> Не удалось сохранить конфиг "@ + config_path + ": "@ + err],
        None => Seq::empty(),
    }
}

impl AppConfig {
    /// The settings to start with. Settings that were read are repaired, and written again only
    /// where that changed them; anything else is replaced by new settings, which are written.
    pub fn load(source: ConfigSource, config_path: &str, app_dir: &str) -> (r: LoadPlan)
        ensures
            match source {
                ConfigSource::Parsed(stored) => {
                    &&& r.config@ == stored@.restored().normalized(app_dir@)
                    &&& !r.fresh
                    &&& r.save == stored@.restored().needs_repair()
                },
                _ => {
                    &&& r.config@ == ConfigModel::fresh(app_dir@)
                    &&& r.fresh
                    &&& r.save
                },
            },
            texts(r.messages@) == source_messages(source, config_path@),
    {
        let mut messages: Vec<String> = Vec::new();
        assert(texts(messages@) =~= Seq::<Seq<char>>::empty());
        match source {
            ConfigSource::Parsed(stored) => {
                let mut config = stored.restore();
                let (changed, messages) = config.normalize_after_load(app_dir);
                return LoadPlan { config, messages, fresh: false, save: changed };
            },
            ConfigSource::Corrupt(err) => {
                let text = cat4(
                    ">>> Конфиг ",
                    config_path,
                    " поврежден, будет создан новый: ",
                    err.as_str(),
                );
                push_text(&mut messages, text.as_str());
            },
            ConfigSource::Missing => {},
            ConfigSource::Unreadable(err) => {
                let text = cat4(
                    ">>> Не удалось прочитать конфиг ",
                    config_path,
                    ": ",
                    err.as_str(),
                );
                push_text(&mut messages, text.as_str());
            },
        }
        assert(texts(messages@) =~= source_messages(source, config_path@));
        LoadPlan { config: AppConfig::default_for(app_dir), messages, fresh: true, save: true }
    }
}

impl LoadPlan {
    /// The settings to start with, and what is to be logged once the folder was created and the
    /// settings were written, or were not.
    pub fn finish(
        self,
        config_path: &str,
        folder_error: Option<&str>,
        save_error: Option<&str>,
    ) -> (r: (AppConfig, Vec<String>))
        ensures
            r.0 == self.config,
            texts(r.1@) == texts(self.messages@) + folder_messages(
                self.fresh,
                self.config.output_path@,
                opt_slice(folder_error),
            ) + save_messages(config_path@, opt_slice(save_error)),
    {
        let mut messages = self.messages;
        let ghost before = texts(messages@);
        if let Some(err) = folder_error {
            let intro = if self.fresh {
                ">>> Не удалось создать папку загрузок "
            } else {
                ">>> Не удалось подготовить папку загрузок "
            };
            let text = cat4(intro, self.config.output_path.as_str(), ": ", err);
            push_text(&mut messages, text.as_str());
        }
        assert(texts(messages@) =~= before + folder_messages(
            self.fresh,
            self.config.output_path@,
            opt_slice(folder_error),
        ));
        let ghost prepared = texts(messages@);
        if let Some(err) = save_error {
            let text = cat4(">>> Не удалось сохранить конфиг ", config_path, ": ", err);
            push_text(&mut messages, text.as_str());
        }
        assert(texts(messages@) =~= prepared + save_messages(config_path@, opt_slice(save_error)));
        (self.config, messages)
    }
}

/// The first profile is a built-in one.
proof fn lemma_raw_profile()
    ensures
        find_profile(builtin_models(), RAW_PROFILE_ID@) == Some(
            ProfileModel::base(RAW_PROFILE_ID@, RAW_PROFILE_NAME@),
        ),
        trimmed(RAW_PROFILE_ID@).len() > 0,
        trimmed(LEGACY_PROFILE_ID@).len() > 0,
{
    reveal_strlit("builtin.raw");
    reveal_strlit("custom.legacy");
    lemma_trimmed_not_empty(RAW_PROFILE_ID@, 0);
    lemma_trimmed_not_empty(LEGACY_PROFILE_ID@, 0);
    assert(builtin_models()[0].id == RAW_PROFILE_ID@);
}

/// The default folder for downloads is not blank.
proof fn lemma_default_output(app_dir: Seq<char>)
    ensures
        trimmed(default_output(app_dir)).len() > 0,
{
    reveal_strlit("Video");
    let path = default_output(app_dir);
    let i = path.len() - 1;
    lemma_joined_end(app_dir, "Video"@);
    assert(path[i] == 'o');
    lemma_trimmed_not_empty(path, i);
}

/// Settings that were read need no repair any more: they have a folder for downloads, hold no
/// arguments of an old settings file, and their active profile exists. The theme is kept.
pub proof fn law_normalized_is_normal(config: ConfigModel, app_dir: Seq<char>)
    ensures
        config.normalized(app_dir).is_normal(),
        config.normalized(app_dir).theme_mode == config.theme_mode,
{
    lemma_raw_profile();
    lemma_default_output(app_dir);
    lemma_put_profile(config.custom_profiles, config.legacy_profile());
    let folded = config.with_folder(app_dir);
    assert(folded.legacy_profile() == config.legacy_profile());
    let ready = folded.without_legacy();
    assert(ready.legacy_yt_dlp_args.len() == 0);
}

/// Settings that need no repair are left as they are, and nothing is logged.
pub proof fn law_normal_is_kept(config: ConfigModel, app_dir: Seq<char>)
    requires
        config.is_normal(),
    ensures
        config.normalized(app_dir) == config,
        !config.needs_repair(),
        config.repair_messages() == Seq::<Seq<char>>::empty(),
{
}

/// Repairing settings twice is repairing them once.
pub proof fn law_normalize_is_idempotent(
    config: ConfigModel,
    app_dir: Seq<char>,
    other_dir: Seq<char>,
)
    ensures
        config.normalized(app_dir).normalized(other_dir) == config.normalized(app_dir),
        !config.normalized(app_dir).needs_repair(),
{
    law_normalized_is_normal(config, app_dir);
    law_normal_is_kept(config.normalized(app_dir), other_dir);
}

/// Settings change in a repair exactly where they are said to need one.
pub proof fn law_repair_is_reported(config: ConfigModel, app_dir: Seq<char>)
    ensures
        config.needs_repair() <==> config.normalized(app_dir) != config,
{
    lemma_default_output(app_dir);
    lemma_raw_profile();
    let folded = config.with_folder(app_dir);
    let ready = folded.without_legacy();
    assert(ready.active_is_known() == config.without_legacy().active_is_known());
    if config.legacy_yt_dlp_args.len() > 0 {
        assert(config.normalized(app_dir).legacy_yt_dlp_args.len() == 0);
    }
    if trimmed(config.output_path).len() == 0 {
        assert(config.normalized(app_dir).output_path == default_output(app_dir));
    }
    if !ready.active_is_known() && config.legacy_yt_dlp_args.len() == 0 {
        assert(ready.active_profile_id == config.active_profile_id);
        assert(ready.has_profile(RAW_PROFILE_ID@));
    }
}

/// The arguments of an old settings file become the active profile, word by word, and are used
/// by the next download.
pub proof fn law_legacy_args_become_active(config: ConfigModel, app_dir: Seq<char>)
    requires
        config.legacy_yt_dlp_args.len() > 0,
    ensures
        config.normalized(app_dir).active() == config.legacy_profile(),
        config.normalized(app_dir).active_profile_id == LEGACY_PROFILE_ID@,
{
    lemma_raw_profile();
    lemma_put_profile(config.custom_profiles, config.legacy_profile());
    let folded = config.with_folder(app_dir);
    assert(folded.legacy_profile() == config.legacy_profile());
}

/// The settings of a program that was never started need no repair.
pub proof fn law_fresh_is_normal(app_dir: Seq<char>)
    ensures
        ConfigModel::fresh(app_dir).is_normal(),
{
    lemma_raw_profile();
    lemma_default_output(app_dir);
}

/// The next id is free, it is the id of a custom profile with a number, and that number is above
/// the count of custom profiles but at most twice that count and one.
pub proof fn law_next_id_is_free(config: ConfigModel)
    ensures
        !config.has_profile(config.next_id()),
        exists|n: nat|
            config.is_next_number(n) && config.next_id() == #[trigger] custom_id(n) && n <= 2
                * config.custom_profiles.len() + 1,
{
    lemma_next_number_from(config, (config.custom_profiles.len() + 1) as nat);
    let n = choose|n: nat| config.is_next_number(n);
    lemma_taken_numbers(config, n);
    assert(config.next_id() == custom_id(n));
}

proof fn lemma_next_number_from(config: ConfigModel, n: nat)
    requires
        n > config.custom_profiles.len(),
        forall|k: nat|
            config.custom_profiles.len() < k < n ==> config.has_profile(#[trigger] custom_id(k)),
    ensures
        exists|m: nat| config.is_next_number(m),
    decreases 2 * config.custom_profiles.len() + 2 - n,
{
    lemma_taken_numbers(config, n);
    if config.has_profile(custom_id(n)) {
        assert forall|k: nat| config.custom_profiles.len() < k < n + 1 implies config.has_profile(
            #[trigger] custom_id(k),
        ) by {
            if k == n {
            }
        }
        lemma_next_number_from(config, n + 1);
    } else {
        assert(config.is_next_number(n));
    }
}

/// Putting a profile leaves the others at their places.
proof fn lemma_put_keeps_others(list: Seq<ProfileModel>, profile: ProfileModel)
    ensures
        put_profile(list, profile).len() >= list.len(),
        put_profile(list, profile).len() <= list.len() + 1,
        forall|i: int|
            0 <= i < list.len() && list[i].id != profile.id ==> (#[trigger] put_profile(
                list,
                profile,
            )[i]) == list[i],
    decreases list.len(),
{
    if list.len() > 0 && list[0].id != profile.id {
        let rest = list.drop_first();
        lemma_put_keeps_others(rest, profile);
        let put = put_profile(list, profile);
        assert forall|i: int| 0 <= i < list.len() && list[i].id != profile.id implies (
        #[trigger] put[i]) == list[i] by {
            if i > 0 {
                assert(put[i] == put_profile(rest, profile)[i - 1]);
                assert(rest[i - 1] == list[i]);
            }
        }
    }
}

/// Reading settings keeps the theme, and keeps the folder for downloads unless it is blank; then it
/// becomes the folder `Video` beside the program. A repair is told exactly where something changed.
pub proof fn law_loading_keeps_theme_and_folder(
    config: &mut AppConfig,
    app_dir: &str,
    video: String,
    r: (bool, Vec<String>),
)
    requires
        call_ensures(AppConfig::normalize_after_load, (config, app_dir), r),
        call_ensures(join_path, (app_dir, "Video"), video),
    ensures
        final(config).theme_mode == old(config).theme_mode,
        all_white(old(config).output_path@) ==> final(config).output_path@ == video@,
        !all_white(old(config).output_path@) ==> final(config).output_path@ == old(config).output_path@,
        final(config).legacy_yt_dlp_args@.len() == 0,
        r.0 <==> final(config)@ != old(config)@,
{
    lemma_blank_iff_white(old(config).output_path@);
    law_repair_is_reported(old(config)@, app_dir@);
    law_normalized_is_normal(old(config)@, app_dir@);
    assert(texts(final(config).legacy_yt_dlp_args@).len() == 0);
}

/// Reading settings without arguments of an old settings file keeps every custom profile, and keeps the
/// active profile where it exists; where not, the profile that changes nothing becomes the active one.
/// Nothing is logged.
pub proof fn law_loading_keeps_profiles(
    config: &mut AppConfig,
    app_dir: &str,
    builtins: Vec<DownloadProfile>,
    r: (bool, Vec<String>),
)
    requires
        old(config).legacy_yt_dlp_args@.len() == 0,
        call_ensures(AppConfig::normalize_after_load, (config, app_dir), r),
        call_ensures(builtin_profiles, (), builtins),
    ensures
        r.1@.len() == 0,
        final(config)@.custom_profiles == old(config)@.custom_profiles,
        ({
            let id = old(config).active_profile_id@;
            let known = names_profile(builtins@, id) || names_profile(
                old(config).custom_profiles@,
                id,
            );
            final(config).active_profile_id@ == if known && !all_white(id) {
                id
            } else {
                "builtin.raw"@
            }
        }),
{
    let id = old(config).active_profile_id@;
    lemma_blank_iff_white(id);
    assert(texts(r.1@).len() == 0);
    assert(texts(old(config).legacy_yt_dlp_args@).len() == 0);
    lemma_names_profile(builtins@, id);
    lemma_names_profile(old(config).custom_profiles@, id);
}

/// Whether a profile of `list` goes by the given id.
pub open spec fn names_profile(list: Seq<DownloadProfile>, id: Seq<char>) -> bool {
    exists|i: int| 0 <= i < list.len() && (#[trigger] list[i]).id@ == id
}

/// A profile is found exactly where one goes by the id.
pub proof fn lemma_names_profile(list: Seq<DownloadProfile>, id: Seq<char>)
    ensures
        names_profile(list, id) <==> find_profile(profiles(list), id) is Some,
{
    let all = profiles(list);
    lemma_find_profile(all, id);
    if names_profile(list, id) {
        let i = choose|i: int| 0 <= i < list.len() && (#[trigger] list[i]).id@ == id;
        assert(all[i] == list[i]@);
    }
    if find_profile(all, id) is Some {
        let i = choose|i: int| 0 <= i < all.len() && (#[trigger] all[i]).id == id;
        assert(all[i] == list[i]@);
    }
}

/// The arguments of an old settings file become a profile of their own, which is the active one and
/// whose further arguments are their words. Every profile under another id stays at its place, and the
/// move is logged.
pub proof fn law_old_arguments_become_the_active_profile(
    config: &mut AppConfig,
    app_dir: &str,
    r: (bool, Vec<String>),
    after: AppConfig,
    active: DownloadProfile,
    all: Vec<String>,
)
    requires
        old(config).legacy_yt_dlp_args@.len() > 0,
        call_ensures(AppConfig::normalize_after_load, (config, app_dir), r),
        after@ == final(config)@,
        call_ensures(AppConfig::active_profile, (&after,), active),
        call_ensures(
            AppConfig::legacy_args_to_extra_args,
            (&old(config).legacy_yt_dlp_args,),
            all,
        ),
    ensures
        r.1@.len() == 1,
        after.active_profile_id@ == "custom.legacy"@,
        active.id@ == "custom.legacy"@,
        active.name@ == "Старые настройки"@,
        texts(active.extra_args@) == texts(all@),
        forall|i: int|
            0 <= i < old(config).custom_profiles@.len() && old(config).custom_profiles@[i].id@
                != "custom.legacy"@ ==> i < after.custom_profiles@.len()
                && (#[trigger] after.custom_profiles@[i])@ == old(config).custom_profiles@[i]@,
        after.custom_profiles@.len() <= old(config).custom_profiles@.len() + 1,
{
    let before = old(config)@;
    assert(texts(old(config).legacy_yt_dlp_args@).len() > 0);
    law_legacy_args_become_active(before, app_dir@);
    law_normalized_is_normal(before, app_dir@);
    lemma_raw_profile();
    lemma_put_profile(before.custom_profiles, before.legacy_profile());
    lemma_put_keeps_others(before.custom_profiles, before.legacy_profile());
    assert(texts(r.1@).len() == 1);
    assert(active@ == before.legacy_profile());
    assert(after@.custom_profiles == put_profile(before.custom_profiles, before.legacy_profile()));
    assert forall|i: int|
        0 <= i < old(config).custom_profiles@.len() && old(config).custom_profiles@[i].id@
            != "custom.legacy"@ implies i < after.custom_profiles@.len()
        && (#[trigger] after.custom_profiles@[i])@ == old(config).custom_profiles@[i]@ by {
        assert(before.custom_profiles[i] == old(config).custom_profiles@[i]@);
        assert(after@.custom_profiles[i] == after.custom_profiles@[i]@);
    }
}

/// The words of two lists of lines are the words of the first and then those of the second, and the
/// words of one line are what white space parts it into.
pub proof fn law_words_of_lines(
    line: &str,
    front: Vec<String>,
    all: Vec<String>,
    parts: Vec<&str>,
    before: Vec<String>,
    r: Vec<String>,
)
    requires
        texts(all@) == texts(front@).push(line@),
        call_ensures(split_words, (line,), parts),
        call_ensures(AppConfig::legacy_args_to_extra_args, (&front,), before),
        call_ensures(AppConfig::legacy_args_to_extra_args, (&all,), r),
    ensures
        texts(r@) == texts(before@) + slices(parts@),
{
    assert(texts(all@).drop_last() =~= texts(front@));
}

/// The active profile is the custom profile under the active id, the first where there are several;
/// without one it is the built-in profile, and without that one it is one that changes nothing.
pub proof fn law_active_profile_goes_by_the_active_id(
    config: AppConfig,
    id: &str,
    builtin: Option<DownloadProfile>,
    raw: DownloadProfile,
    at: Option<usize>,
    name: String,
    r: DownloadProfile,
)
    requires
        id@ == config.active_profile_id@,
        call_ensures(builtin_profile_by_id, (id,), builtin),
        call_ensures(DownloadProfile::base, ("builtin.raw", RAW_PROFILE_NAME), raw),
        call_ensures(AppConfig::active_custom_profile_index, (&config,), at),
        call_ensures(AppConfig::active_profile_name, (&config,), name),
        call_ensures(AppConfig::active_profile, (&config,), r),
    ensures
        name@ == r.name@,
        at is Some <==> names_profile(config.custom_profiles@, id@),
        at matches Some(i) ==> {
            &&& i < config.custom_profiles@.len()
            &&& config.custom_profiles@[i as int].id@ == id@
            &&& forall|j: int| 0 <= j < i ==> (#[trigger] config.custom_profiles@[j]).id@ != id@
            &&& r@ == config.custom_profiles@[i as int]@
        },
        at is None ==> (builtin matches Some(profile) ==> r@ == profile@),
        at is None && builtin is None ==> r@ == raw@,
{
    lemma_names_profile(config.custom_profiles@, id@);
    let list = config@.custom_profiles;
    if let Some(i) = at {
        assert(list[i as int] == config.custom_profiles@[i as int]@);
        assert forall|j: int| 0 <= j < i implies (#[trigger] config.custom_profiles@[j]).id@
            != id@ by {
            assert(list[j] == config.custom_profiles@[j]@);
        }
        lemma_find_profile(list, id@);
    }
}

/// The id of a new profile is `custom-` and a number above the count of custom profiles, and no profile
/// has it; every lower number above that count is taken.
pub proof fn law_new_id_is_the_first_free_one(
    config: AppConfig,
    builtins: Vec<DownloadProfile>,
    r: String,
) -> (n: nat)
    requires
        call_ensures(builtin_profiles, (), builtins),
        call_ensures(AppConfig::next_custom_profile_id, (&config,), r),
    ensures
        n > config.custom_profiles@.len(),
        r@ == "custom-"@ + decimal(n),
        !names_profile(config.custom_profiles@, r@),
        !names_profile(builtins@, r@),
        forall|k: nat|
            #![trigger decimal(k)]
            config.custom_profiles@.len() < k < n ==> names_profile(
                config.custom_profiles@,
                "custom-"@ + decimal(k),
            ),
{
    let n = choose|n: nat| config@.is_next_number(n) && r@ == #[trigger] custom_id(n);
    assert(config@.is_next_number(n) && r@ == custom_id(n));
    lemma_names_profile(config.custom_profiles@, r@);
    lemma_names_profile(builtins@, r@);
    assert(config@.custom_profiles.len() == config.custom_profiles@.len());
    assert forall|k: nat|
        #![trigger decimal(k)]
        config.custom_profiles@.len() < k < n implies names_profile(
        config.custom_profiles@,
        "custom-"@ + decimal(k),
    ) by {
        assert(config@.has_profile(custom_id(k)));
        lemma_custom_id_not_builtin(k);
        lemma_names_profile(config.custom_profiles@, custom_id(k));
    }
    n
}

/// Without readable settings the program starts with new ones, which are to be written: the folder
/// `Video` beside it, the theme of the system, no profile of its own, and the active profile that
/// changes nothing. A missing file is nothing to log; a damaged or unreadable one is.
pub proof fn law_new_settings(
    source: ConfigSource,
    config_path: &str,
    app_dir: &str,
    video: String,
    r: LoadPlan,
)
    requires
        !(source is Parsed),
        call_ensures(AppConfig::load, (source, config_path, app_dir), r),
        call_ensures(join_path, (app_dir, "Video"), video),
    ensures
        r.fresh,
        r.save,
        r.config.output_path@ == video@,
        r.config.theme_mode == ThemeMode::System,
        r.config.active_profile_id@ == "builtin.raw"@,
        r.config.custom_profiles@.len() == 0,
        r.config.legacy_yt_dlp_args@.len() == 0,
        source is Missing <==> r.messages@.len() == 0,
        source matches ConfigSource::Corrupt(err) ==> (r.messages@.len() == 1 && r.messages@[0]@
            == ">>> Конфиг "@ + config_path@ + " поврежден, будет создан новый: "@ + err@),
        source matches ConfigSource::Unreadable(err) ==> (r.messages@.len() == 1
            && r.messages@[0]@ == ">>> Не удалось прочитать конфиг "@ + config_path@ + ": "@
            + err@),
{
    let list = texts(r.messages@);
    assert(list.len() == r.messages@.len());
    assert(list.len() == 1 ==> list[0] == r.messages@[0]@);
    assert(profiles(r.config.custom_profiles@).len() == 0);
    assert(texts(r.config.legacy_yt_dlp_args@).len() == 0);
}

/// Settings that were read are restored and repaired, in that order; they are to be written exactly
/// where the repair changed them.
pub proof fn law_read_settings_are_repaired(
    stored: StoredConfig,
    config_path: &str,
    app_dir: &str,
    config: &mut AppConfig,
    repair: (bool, Vec<String>),
    r: LoadPlan,
)
    requires
        call_ensures(StoredConfig::restore, (stored,), *old(config)),
        call_ensures(AppConfig::normalize_after_load, (config, app_dir), repair),
        call_ensures(AppConfig::load, (ConfigSource::Parsed(stored), config_path, app_dir), r),
    ensures
        r.config@ == final(config)@,
        r.save == repair.0,
        texts(r.messages@) == texts(repair.1@),
        !r.fresh,
{
}

/// What went wrong with the folder and then with the settings file is logged after everything else, and
/// nothing is logged where nothing went wrong. The settings stay.
pub proof fn law_failed_preparations_are_logged(
    plan: LoadPlan,
    config_path: &str,
    folder_error: Option<&str>,
    save_error: Option<&str>,
    r: (AppConfig, Vec<String>),
)
    requires
        call_ensures(LoadPlan::finish, (plan, config_path, folder_error, save_error), r),
    ensures
        r.0 == plan.config,
        ({
            let n = plan.messages@.len();
            let folder: nat = if folder_error is Some {
                1
            } else {
                0
            };
            let save: nat = if save_error is Some {
                1
            } else {
                0
            };
            &&& r.1@.len() == n + folder + save
            &&& forall|i: int| 0 <= i < n ==> (#[trigger] r.1@[i])@ == plan.messages@[i]@
            &&& folder_error matches Some(err) ==> r.1@[n as int]@ == (if plan.fresh {
                ">>> Не удалось создать папку загрузок "@
            } else {
                ">>> Не удалось подготовить папку загрузок "@
            }) + plan.config.output_path@ + ": "@ + err@
            &&& save_error matches Some(err) ==> r.1@.last()@ == ">>> Не удалось сохранить конфиг "@
                + config_path@ + ": "@ + err@
        }),
{
    let list = texts(r.1@);
    let n = plan.messages@.len() as int;
    assert(list.len() == r.1@.len());
    assert(texts(plan.messages@).len() == n);
    assert forall|i: int| 0 <= i < n implies (#[trigger] r.1@[i])@ == plan.messages@[i]@ by {
        assert(list[i] == r.1@[i]@);
        assert(texts(plan.messages@)[i] == plan.messages@[i]@);
    }
    if folder_error is Some {
        assert(list[n] == r.1@[n]@);
    }
    if save_error is Some {
        assert(list[r.1@.len() - 1] == r.1@.last()@);
    }
}

} // verus!
