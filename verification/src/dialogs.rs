//! Choosing, creating, copying, renaming and deleting profiles.
use crate::app_state::{opt_dialog, AppModel, DialogModel, ProfileDialog, YtDlpApp};
use crate::config::{law_next_id_is_free, lemma_find_profile, AppConfig, ConfigModel};
use crate::profile::{
    builtin_models, find_profile, profile_index, profiles, DownloadProfile, ProfileModel,
    RAW_PROFILE_ID,
};
use crate::text::{cat, cat3, same, trim, trimmed};
use vstd::prelude::*;

verus! {

/// `list` with the first profile under the given id renamed.
pub open spec fn renamed(list: Seq<ProfileModel>, id: Seq<char>, name: Seq<char>) -> Seq<
    ProfileModel,
>
    decreases list.len(),
{
    if list.len() == 0 {
        list
    } else if list[0].id == id {
        list.update(0, ProfileModel { name, ..list[0] })
    } else {
        seq![list[0]] + renamed(list.drop_first(), id, name)
    }
}

/// The profiles of `list` that do not go by the given id.
pub open spec fn without_profile(list: Seq<ProfileModel>, id: Seq<char>) -> Seq<ProfileModel>
    decreases list.len(),
{
    if list.len() == 0 {
        list
    } else if list.last().id == id {
        without_profile(list.drop_last(), id)
    } else {
        without_profile(list.drop_last(), id).push(list.last())
    }
}

/// What the user did in a dialog. The first of these that is set counts.
#[derive(Clone, Copy)]
pub struct DialogChoice {
    pub apply_name: bool,
    pub approve_delete: bool,
    pub cancel: bool,
}

impl ConfigModel {
    /// The settings with a new profile, which is the active one.
    pub open spec fn with_new_profile(self, profile: ProfileModel) -> ConfigModel {
        ConfigModel {
            custom_profiles: self.custom_profiles.push(profile),
            active_profile_id: profile.id,
            ..self
        }
    }

    /// The settings without the custom profiles that go by the given id.
    pub open spec fn without_custom(self, id: Seq<char>) -> ConfigModel {
        let kept = without_profile(self.custom_profiles, id);
        ConfigModel {
            custom_profiles: kept,
            active_profile_id: if kept.len() != self.custom_profiles.len()
                && self.active_profile_id == id {
                RAW_PROFILE_ID@
            } else {
                self.active_profile_id
            },
            ..self
        }
    }
}

impl DialogModel {
    /// What the dialog is headed with.
    pub open spec fn title_text(self) -> Seq<char> {
        match self {
            DialogModel::Create => "Новый профиль"@,
            DialogModel::Duplicate(_) => "Дублировать профиль"@,
            DialogModel::Rename { .. } => "Переименовать профиль"@,
            DialogModel::Delete { .. } => "Удалить профиль"@,
        }
    }
}

impl ProfileDialog {
    /// What the dialog is headed with.
    pub fn title(&self) -> (r: &'static str)
        ensures
            r@ == self@.title_text(),
    {
        match self {
            ProfileDialog::Create => "Новый профиль",
            ProfileDialog::Duplicate(_) => "Дублировать профиль",
            ProfileDialog::Rename { .. } => "Переименовать профиль",
            ProfileDialog::Delete { .. } => "Удалить профиль",
        }
    }

    /// What the dialog asks before a profile is deleted.
    pub fn question(&self) -> (r: Option<String>)
        ensures
            match (r, self@) {
                (Some(text), DialogModel::Delete { name, .. }) => text@ == "Удалить профиль \""@
                    + name + "\"?"@,
                (None, DialogModel::Delete { .. }) => false,
                (Some(_), _) => false,
                (None, _) => true,
            },
    {
        match self {
            ProfileDialog::Delete { name, .. } => Some(
                cat3("Удалить профиль \"", name.as_str(), "\"?"),
            ),
            _ => None,
        }
    }
}

/// The name that is offered for the copy of a profile.
pub open spec fn copy_name(name: Seq<char>) -> Seq<char> {
    if trimmed(name).len() == 0 {
        "Профиль копия"@
    } else {
        trimmed(name) + " копия"@
    }
}

impl AppModel {
    /// The state without a dialog.
    pub open spec fn without_dialog(self) -> AppModel {
        AppModel {
            profile_dialog: None,
            profile_dialog_text: Seq::empty(),
            profile_dialog_needs_focus: false,
            ..self
        }
    }

    /// The state with a dialog that asks for a name.
    pub open spec fn with_name_dialog(self, dialog: DialogModel, name: Seq<char>) -> AppModel {
        AppModel {
            profile_dialog: Some(dialog),
            profile_dialog_text: name,
            profile_dialog_needs_focus: true,
            ..self
        }
    }

    /// The name that the user gave, or the name for a profile without one.
    pub open spec fn dialog_name(self) -> Seq<char> {
        if trimmed(self.profile_dialog_text).len() == 0 {
            "Профиль"@
        } else {
            trimmed(self.profile_dialog_text)
        }
    }

    /// The state after the user chose the profile under the given id.
    pub open spec fn with_choice(self, id: Seq<char>) -> AppModel {
        if id == self.config.active_profile_id {
            self
        } else {
            AppModel {
                config: ConfigModel { active_profile_id: id, ..self.config },
                ..self
            }.without_dialog()
        }
    }

    /// The state after the user gave a name, and whether the settings changed.
    pub open spec fn with_name(self, dialog: DialogModel) -> (AppModel, bool) {
        let name = self.dialog_name();
        match dialog {
            DialogModel::Create => (
                AppModel {
                    config: self.config.with_new_profile(
                        ProfileModel::base(self.config.next_id(), name),
                    ),
                    ..self
                }.without_dialog(),
                true,
            ),
            DialogModel::Duplicate(profile) => (
                AppModel {
                    config: self.config.with_new_profile(
                        ProfileModel { id: self.config.next_id(), name, ..profile },
                    ),
                    ..self
                }.without_dialog(),
                true,
            ),
            DialogModel::Rename { id } => (
                AppModel {
                    config: ConfigModel {
                        custom_profiles: renamed(self.config.custom_profiles, id, name),
                        ..self.config
                    },
                    ..self
                }.without_dialog(),
                find_profile(self.config.custom_profiles, id) is Some,
            ),
            DialogModel::Delete { .. } => (self, false),
        }
    }

    /// The state after the user agreed to delete a profile, and whether the settings changed.
    pub open spec fn with_deletion(self, id: Seq<char>) -> (AppModel, bool) {
        (
            AppModel { config: self.config.without_custom(id), ..self }.without_dialog(),
            without_profile(self.config.custom_profiles, id).len()
                != self.config.custom_profiles.len(),
        )
    }

    /// The state after what the user did in the open dialog, and whether the settings changed.
    pub open spec fn resolved(self, choice: DialogChoice) -> (AppModel, bool) {
        match self.profile_dialog {
            None => (self, false),
            Some(dialog) => if choice.apply_name {
                self.with_name(dialog)
            } else if choice.approve_delete {
                match dialog {
                    DialogModel::Delete { id, .. } => self.with_deletion(id),
                    _ => (self, false),
                }
            } else if choice.cancel {
                (self.without_dialog(), false)
            } else {
                (self, false)
            },
        }
    }
}

/// Renaming changes the profile at the position of the first one under the id.
proof fn lemma_renamed(list: Seq<ProfileModel>, id: Seq<char>, name: Seq<char>, at: int)
    requires
        0 <= at < list.len(),
        list[at].id == id,
        forall|j: int| 0 <= j < at ==> (#[trigger] list[j]).id != id,
    ensures
        renamed(list, id, name) == list.update(at, ProfileModel { name, ..list[at] }),
    decreases list.len(),
{
    if at > 0 {
        let rest = list.drop_first();
        assert(list[0].id != id);
        assert forall|j: int| 0 <= j < at - 1 implies (#[trigger] rest[j]).id != id by {
            assert(rest[j] == list[j + 1]);
        }
        lemma_renamed(rest, id, name, at - 1);
        assert(seq![list[0]] + rest.update(at - 1, ProfileModel { name, ..list[at] })
            =~= list.update(at, ProfileModel { name, ..list[at] }));
    }
}

/// Where no profile goes by the id, nothing is renamed.
proof fn lemma_renamed_none(list: Seq<ProfileModel>, id: Seq<char>, name: Seq<char>)
    requires
        find_profile(list, id) is None,
    ensures
        renamed(list, id, name) == list,
    decreases list.len(),
{
    if list.len() > 0 {
        lemma_renamed_none(list.drop_first(), id, name);
        assert(seq![list[0]] + list.drop_first() =~= list);
    }
}

impl YtDlpApp {
    /// Closes the dialog.
    pub fn close_profile_dialog(&mut self)
        ensures
            final(self)@ == old(self)@.without_dialog(),
    {
        self.profile_dialog = None;
        self.profile_dialog_text = String::new();
        self.profile_dialog_needs_focus = false;
    }

    /// Opens a dialog that asks for a name.
    fn open_profile_name_dialog(&mut self, dialog: ProfileDialog, name: &str)
        ensures
            final(self)@ == old(self)@.with_name_dialog(dialog@, name@),
    {
        self.profile_dialog = Some(dialog);
        self.profile_dialog_text = name.to_owned();
        self.profile_dialog_needs_focus = true;
    }

    /// Opens the dialog that creates a profile.
    pub fn open_create_dialog(&mut self)
        ensures
            final(self)@ == old(self)@.with_name_dialog(DialogModel::Create, "Новый профиль"@),
    {
        self.open_profile_name_dialog(ProfileDialog::Create, "Новый профиль");
    }

    /// Opens the dialog that copies the active profile.
    pub fn open_duplicate_dialog(&mut self)
        ensures
            final(self)@ == old(self)@.with_name_dialog(
                DialogModel::Duplicate(old(self)@.config.active()),
                copy_name(old(self)@.config.active().name),
            ),
    {
        let profile = self.config.active_profile();
        let source_name = trim(profile.name.as_str());
        let name = if source_name.is_empty() {
            "Профиль копия".to_owned()
        } else {
            cat(source_name, " копия")
        };
        self.open_profile_name_dialog(ProfileDialog::Duplicate(profile), name.as_str());
    }

    /// Whether the active profile can be renamed and deleted.
    pub fn can_edit_profile(&self) -> (r: bool)
        ensures
            r == (find_profile(
                self@.config.custom_profiles,
                self@.config.active_profile_id,
            ) is Some),
    {
        profile_index(
            &self.config.custom_profiles,
            self.config.active_profile_id.as_str(),
        ).is_some()
    }

    /// Opens the dialog that renames the active profile, where it can be renamed.
    pub fn open_rename_dialog(&mut self)
        ensures
            final(self)@ == match find_profile(
                old(self)@.config.custom_profiles,
                old(self)@.config.active_profile_id,
            ) {
                Some(profile) => old(self)@.with_name_dialog(
                    DialogModel::Rename { id: profile.id },
                    profile.name,
                ),
                None => old(self)@,
            },
    {
        if let Some(at) = profile_index(
            &self.config.custom_profiles,
            self.config.active_profile_id.as_str(),
        ) {
            let id = self.config.custom_profiles[at].id.clone();
            let name = self.config.custom_profiles[at].name.clone();
            self.open_profile_name_dialog(ProfileDialog::Rename { id }, name.as_str());
        }
    }

    /// Opens the dialog that deletes the active profile, where it can be deleted.
    pub fn open_delete_dialog(&mut self)
        ensures
            final(self)@ == match find_profile(
                old(self)@.config.custom_profiles,
                old(self)@.config.active_profile_id,
            ) {
                Some(profile) => (AppModel {
                    profile_dialog: Some(
                        DialogModel::Delete { id: profile.id, name: profile.name },
                    ),
                    ..old(self)@.without_dialog()
                }),
                None => old(self)@,
            },
    {
        if let Some(at) = profile_index(
            &self.config.custom_profiles,
            self.config.active_profile_id.as_str(),
        ) {
            let id = self.config.custom_profiles[at].id.clone();
            let name = self.config.custom_profiles[at].name.clone();
            self.profile_dialog = Some(ProfileDialog::Delete { id, name });
            self.profile_dialog_text = String::new();
            self.profile_dialog_needs_focus = false;
        }
    }

    /// The name that the user gave, or the name for a profile without one.
    pub fn normalized_profile_dialog_name(&self) -> (r: String)
        ensures
            r@ == self@.dialog_name(),
    {
        let name = trim(self.profile_dialog_text.as_str());
        if name.is_empty() {
            "Профиль".to_owned()
        } else {
            name.to_owned()
        }
    }

    /// Makes the profile under the given id the active one. Tells whether that changed anything.
    pub fn select_profile(&mut self, id: &str) -> (r: bool)
        ensures
            final(self)@ == old(self)@.with_choice(id@),
            r == (id@ != old(self)@.config.active_profile_id),
    {
        if same(id, self.config.active_profile_id.as_str()) {
            return false;
        }
        self.config.active_profile_id = id.to_owned();
        self.close_profile_dialog();
        true
    }

    /// Adds a profile under the next id, which becomes the active one.
    fn add_profile(&mut self, profile: DownloadProfile, name: String)
        ensures
            final(self)@ == (AppModel {
                config: old(self)@.config.with_new_profile(
                    ProfileModel { id: old(self)@.config.next_id(), name: name@, ..profile@ },
                ),
                ..old(self)@
            }).without_dialog(),
    {
        let id = self.config.next_custom_profile_id();
        let mut added = profile;
        added.id = id.clone();
        added.name = name;
        let ghost model = added@;
        assert(model =~= (ProfileModel {
            id: old(self)@.config.next_id(),
            name: name@,
            ..profile@
        }));
        let ghost before = self@.config.custom_profiles;
        self.config.custom_profiles.push(added);
        assert(self@.config.custom_profiles =~= before.push(model));
        self.config.active_profile_id = id;
        self.close_profile_dialog();
    }

    /// Renames the first custom profile under the given id. Tells whether there was one.
    fn rename_profile(&mut self, id: &str, name: String) -> (r: bool)
        ensures
            final(self)@ == (AppModel {
                config: ConfigModel {
                    custom_profiles: renamed(old(self)@.config.custom_profiles, id@, name@),
                    ..old(self)@.config
                },
                ..old(self)@
            }),
            r == (find_profile(old(self)@.config.custom_profiles, id@) is Some),
    {
        let ghost list = self@.config.custom_profiles;
        match profile_index(&self.config.custom_profiles, id) {
            Some(at) => {
                proof {
                    assert forall|j: int| 0 <= j < at implies (#[trigger] list[j]).id != id@ by {
                        assert(self.config.custom_profiles@[j].id@ != id@);
                    }
                    lemma_renamed(list, id@, name@, at as int);
                }
                let mut profile = self.config.custom_profiles[at].clone();
                profile.name = name;
                let ghost model = profile@;
                assert(model =~= (ProfileModel { name: name@, ..list[at as int] }));
                self.config.custom_profiles.set(at, profile);
                assert(self@.config.custom_profiles =~= list.update(at as int, model));
                true
            },
            None => {
                proof {
                    lemma_renamed_none(list, id@, name@);
                }
                false
            },
        }
    }

    /// Does what a dialog is about with the name that the user gave. Tells whether the settings
    /// changed.
    pub fn apply_profile_name_dialog(&mut self, dialog: ProfileDialog) -> (r: bool)
        ensures
            (final(self)@, r) == old(self)@.with_name(dialog@),
    {
        let name = self.normalized_profile_dialog_name();
        match dialog {
            ProfileDialog::Create => {
                let profile = DownloadProfile::custom_default("", name.as_str());
                self.add_profile(profile, name);
                true
            },
            ProfileDialog::Duplicate(profile) => {
                self.add_profile(profile, name);
                true
            },
            ProfileDialog::Rename { id } => {
                let changed = self.rename_profile(id.as_str(), name);
                self.close_profile_dialog();
                changed
            },
            ProfileDialog::Delete { .. } => false,
        }
    }

    /// Deletes the custom profiles under the given id. Tells whether there were any.
    pub fn apply_profile_delete_dialog(&mut self, id: &str) -> (r: bool)
        ensures
            (final(self)@, r) == old(self)@.with_deletion(id@),
    {
        let ghost all = self@.config.custom_profiles;
        let mut kept: Vec<DownloadProfile> = Vec::new();
        let mut i: usize = 0;
        while i < self.config.custom_profiles.len()
            invariant
                i <= self.config.custom_profiles.len(),
                *self == *old(self),
                all == self@.config.custom_profiles,
                profiles(kept@) =~= without_profile(all.take(i as int), id@),
            decreases self.config.custom_profiles.len() - i,
        {
            let ghost seen = all.take(i + 1);
            assert(seen.drop_last() =~= all.take(i as int));
            assert(seen.last() == self.config.custom_profiles@[i as int]@);
            if !same(self.config.custom_profiles[i].id.as_str(), id) {
                kept.push(self.config.custom_profiles[i].clone());
            }
            i = i + 1;
        }
        assert(all.take(all.len() as int) =~= all);
        assert(profiles(kept@).len() == kept@.len());
        let changed = kept.len() != self.config.custom_profiles.len();
        self.config.custom_profiles = kept;
        if changed && same(self.config.active_profile_id.as_str(), id) {
            self.config.active_profile_id = RAW_PROFILE_ID.to_owned();
        }
        self.close_profile_dialog();
        changed
    }

    /// A copy of the open dialog.
    fn open_dialog(&self) -> (r: Option<ProfileDialog>)
        ensures
            opt_dialog(r) == self@.profile_dialog,
    {
        match &self.profile_dialog {
            None => None,
            Some(ProfileDialog::Create) => Some(ProfileDialog::Create),
            Some(ProfileDialog::Duplicate(profile)) => Some(
                ProfileDialog::Duplicate(profile.clone()),
            ),
            Some(ProfileDialog::Rename { id }) => Some(ProfileDialog::Rename { id: id.clone() }),
            Some(ProfileDialog::Delete { id, name }) => Some(
                ProfileDialog::Delete { id: id.clone(), name: name.clone() },
            ),
        }
    }

    /// Does what the user did in the open dialog. Tells whether the settings changed.
    pub fn resolve_profile_dialog(&mut self, choice: DialogChoice) -> (r: bool)
        ensures
            (final(self)@, r) == old(self)@.resolved(choice),
    {
        let dialog = match self.open_dialog() {
            Some(dialog) => dialog,
            None => {
                return false;
            },
        };
        if choice.apply_name {
            self.apply_profile_name_dialog(dialog)
        } else if choice.approve_delete {
            match dialog {
                ProfileDialog::Delete { id, .. } => self.apply_profile_delete_dialog(id.as_str()),
                _ => false,
            }
        } else {
            if choice.cancel {
                self.close_profile_dialog();
            }
            false
        }
    }
}

/// A profile that is found in a list is found there too when the list grows.
proof fn lemma_find_in_push(list: Seq<ProfileModel>, added: ProfileModel, id: Seq<char>)
    ensures
        find_profile(list, id) is Some ==> find_profile(list.push(added), id) == find_profile(
            list,
            id,
        ),
        find_profile(list, id) is None ==> find_profile(list.push(added), id) == if added.id == id {
            Some(added)
        } else {
            None
        },
    decreases list.len(),
{
    let grown = list.push(added);
    if list.len() > 0 {
        assert(grown[0] == list[0]);
        assert(grown.drop_first() =~= list.drop_first().push(added));
        lemma_find_in_push(list.drop_first(), added, id);
    } else {
        assert(grown[0] == added);
        assert(grown.drop_first() =~= list);
    }
}

/// A profile that was created or copied is the active one, under an id that no profile had before.
/// No other profile changes.
pub proof fn law_new_profile_is_active(app: AppModel, dialog: DialogModel)
    requires
        dialog is Create || dialog is Duplicate,
    ensures
        ({
            let after = app.with_name(dialog).0.config;
            let count = app.config.custom_profiles.len();
            &&& app.with_name(dialog).1
            &&& after.custom_profiles.len() == count + 1
            &&& after.custom_profiles.take(count as int) == app.config.custom_profiles
            &&& !app.config.has_profile(after.active_profile_id)
            &&& after.active() == after.custom_profiles[count as int]
            &&& after.active().name == app.dialog_name()
            &&& after.has_profile(after.active_profile_id)
        }),
{
    let after = app.with_name(dialog).0.config;
    let list = app.config.custom_profiles;
    let added = after.custom_profiles.last();
    law_next_id_is_free(app.config);
    lemma_find_in_push(list, added, added.id);
    assert(after.custom_profiles.take(list.len() as int) =~= list);
}

/// The copy of a profile has yt-dlp do the same.
pub proof fn law_copy_downloads_the_same(
    app: AppModel,
    profile: ProfileModel,
    archive_path: Seq<char>,
    output_path: Seq<char>,
)
    ensures
        ({
            let copy = app.with_name(DialogModel::Duplicate(profile)).0.config.active();
            &&& copy.yt_dlp_args(archive_path) == profile.yt_dlp_args(archive_path)
            &&& copy.output_template(output_path) == profile.output_template(output_path)
        }),
{
    law_new_profile_is_active(app, DialogModel::Duplicate(profile));
}

/// Renaming keeps the ids of all profiles, and changes nothing of a profile but its name. The
/// active profile stays the active one.
pub proof fn law_rename_keeps_profiles(app: AppModel, id: Seq<char>)
    ensures
        ({
            let before = app.config;
            let after = app.with_name(DialogModel::Rename { id }).0.config;
            &&& after.active_profile_id == before.active_profile_id
            &&& after.custom_profiles.len() == before.custom_profiles.len()
            &&& forall|i: int|
                0 <= i < before.custom_profiles.len() ==> (#[trigger] after.custom_profiles[i])
                    == (ProfileModel {
                    name: after.custom_profiles[i].name,
                    ..before.custom_profiles[i]
                })
            &&& forall|i: int|
                0 <= i < before.custom_profiles.len() && before.custom_profiles[i].id != id ==> (
                #[trigger] after.custom_profiles[i]) == before.custom_profiles[i]
        }),
{
    lemma_renamed_each(app.config.custom_profiles, id, app.dialog_name());
}

proof fn lemma_renamed_each(list: Seq<ProfileModel>, id: Seq<char>, name: Seq<char>)
    ensures
        renamed(list, id, name).len() == list.len(),
        forall|i: int|
            0 <= i < list.len() ==> (#[trigger] renamed(list, id, name)[i]) == (ProfileModel {
                name: renamed(list, id, name)[i].name,
                ..list[i]
            }),
        forall|i: int|
            0 <= i < list.len() && list[i].id != id ==> (#[trigger] renamed(list, id, name)[i])
                == list[i],
    decreases list.len(),
{
    if list.len() > 0 && list[0].id != id {
        let rest = list.drop_first();
        lemma_renamed_each(rest, id, name);
        let all = renamed(list, id, name);
        assert forall|i: int| 0 <= i < list.len() implies (#[trigger] all[i]) == (ProfileModel {
            name: all[i].name,
            ..list[i]
        }) && (list[i].id != id ==> all[i] == list[i]) by {
            if i > 0 {
                assert(all[i] == renamed(rest, id, name)[i - 1]);
                assert(rest[i - 1] == list[i]);
            }
        }
    }
}

/// A deleted profile is gone, every other one stays, and where the active profile existed before,
/// one exists after.
pub proof fn law_delete_leaves_an_active_profile(app: AppModel, id: Seq<char>)
    ensures
        ({
            let before = app.config;
            let after = app.with_deletion(id).0.config;
            &&& find_profile(after.custom_profiles, id) is None
            &&& forall|other: Seq<char>|
                other != id ==> #[trigger] find_profile(after.custom_profiles, other)
                    == find_profile(before.custom_profiles, other)
            &&& before.has_profile(before.active_profile_id) ==> after.has_profile(
                after.active_profile_id,
            )
        }),
{
    let list = app.config.custom_profiles;
    let kept = without_profile(list, id);
    let after = app.with_deletion(id).0.config;
    lemma_without_profile(list, id);
    lemma_find_profile(kept, id);
    assert forall|other: Seq<char>| other != id implies #[trigger] find_profile(kept, other)
        == find_profile(list, other) by {
        lemma_find_without(list, id, other);
    }
    if app.config.active_profile_id == id && app.config.has_profile(id) {
        if kept.len() == list.len() {
            lemma_find_profile(list, id);
        } else {
            assert(builtin_models()[0].id == RAW_PROFILE_ID@);
            lemma_find_profile(builtin_models(), RAW_PROFILE_ID@);
        }
    }
}

proof fn lemma_without_profile(list: Seq<ProfileModel>, id: Seq<char>)
    ensures
        forall|i: int|
            0 <= i < without_profile(list, id).len() ==> (#[trigger] without_profile(
                list,
                id,
            )[i]).id != id,
        without_profile(list, id).len() <= list.len(),
        without_profile(list, id).len() == list.len() ==> forall|i: int|
            0 <= i < list.len() ==> (#[trigger] list[i]).id != id,
    decreases list.len(),
{
    if list.len() > 0 {
        let front = list.drop_last();
        lemma_without_profile(front, id);
        let kept = without_profile(list, id);
        assert forall|i: int| 0 <= i < kept.len() implies (#[trigger] kept[i]).id != id by {
            if i < without_profile(front, id).len() {
                assert(kept[i] == without_profile(front, id)[i]);
            }
        }
        if kept.len() == list.len() {
            assert forall|i: int| 0 <= i < list.len() implies (#[trigger] list[i]).id != id by {
                if i < front.len() {
                    assert(front[i] == list[i]);
                }
            }
        }
    }
}

proof fn lemma_find_without(list: Seq<ProfileModel>, id: Seq<char>, other: Seq<char>)
    requires
        other != id,
    ensures
        find_profile(without_profile(list, id), other) == find_profile(list, other),
    decreases list.len(),
{
    if list.len() > 0 {
        let front = list.drop_last();
        lemma_find_without(front, id, other);
        assert(front.push(list.last()) =~= list);
        lemma_find_in_push(front, list.last(), other);
        lemma_find_in_push(without_profile(front, id), list.last(), other);
    }
}

/// The name of a profile is what the user typed, without the white space round it; where that is
/// nothing, the profile has a name all the same.
pub proof fn law_typed_name_is_trimmed(app: YtDlpApp, typed: &str, shown: &str, r: String)
    requires
        typed@ == app.profile_dialog_text@,
        call_ensures(trim, (typed,), shown),
        call_ensures(YtDlpApp::normalized_profile_dialog_name, (&app,), r),
    ensures
        shown@.len() > 0 ==> r@ == shown@,
        shown@.len() == 0 ==> r@ == "Профиль"@,
{
}

/// Choosing a profile makes it the active one and closes the dialog; choosing the active one changes
/// nothing. The profiles stay as they are.
pub proof fn law_profile_is_chosen(app: &mut YtDlpApp, id: &str, r: bool)
    requires
        call_ensures(YtDlpApp::select_profile, (app, id), r),
    ensures
        r <==> id@ != old(app).config.active_profile_id@,
        final(app).config.active_profile_id@ == id@,
        !r ==> final(app)@ == old(app)@,
        r ==> final(app)@ == (AppModel {
            config: ConfigModel { active_profile_id: id@, ..old(app)@.config },
            profile_dialog: None,
            profile_dialog_text: Seq::empty(),
            profile_dialog_needs_focus: false,
            ..old(app)@
        }),
{
}

/// A dialog that creates a profile offers a name for it, and changes nothing else.
pub proof fn law_create_dialog_opens(app: &mut YtDlpApp)
    requires
        call_ensures(YtDlpApp::open_create_dialog, (app,), ()),
    ensures
        final(app)@ == (AppModel {
            profile_dialog: Some(DialogModel::Create),
            profile_dialog_text: "Новый профиль"@,
            profile_dialog_needs_focus: true,
            ..old(app)@
        }),
{
}

/// A dialog that copies is about the active profile, and offers its name with the word for a copy after
/// it.
pub proof fn law_copy_dialog_opens(
    app: &mut YtDlpApp,
    config: AppConfig,
    active: DownloadProfile,
    name: &str,
    shown: &str,
)
    requires
        config@ == old(app).config@,
        call_ensures(AppConfig::active_profile, (&config,), active),
        name@ == active.name@,
        call_ensures(trim, (name,), shown),
        call_ensures(YtDlpApp::open_duplicate_dialog, (app,), ()),
    ensures
        final(app)@ == (AppModel {
            profile_dialog: Some(DialogModel::Duplicate(active@)),
            profile_dialog_text: if shown@.len() > 0 {
                shown@ + " копия"@
            } else {
                "Профиль копия"@
            },
            profile_dialog_needs_focus: true,
            ..old(app)@
        }),
{
}

/// A built-in profile cannot be renamed or deleted: the dialogs for that open exactly where the active
/// profile is a custom one, and are about that profile.
pub proof fn law_only_custom_profiles_are_edited(
    app: YtDlpApp,
    renaming: &mut YtDlpApp,
    deleting: &mut YtDlpApp,
    at: Option<usize>,
    can: bool,
)
    requires
        app@ == old(renaming)@,
        app@ == old(deleting)@,
        call_ensures(AppConfig::active_custom_profile_index, (&app.config,), at),
        call_ensures(YtDlpApp::can_edit_profile, (&app,), can),
        call_ensures(YtDlpApp::open_rename_dialog, (renaming,), ()),
        call_ensures(YtDlpApp::open_delete_dialog, (deleting,), ()),
    ensures
        can <==> at is Some,
        at is None ==> final(renaming)@ == app@ && final(deleting)@ == app@,
        at matches Some(i) ==> {
            let profile = app.config.custom_profiles@[i as int];
            &&& profile.id@ == app.config.active_profile_id@
            &&& final(renaming)@ == (AppModel {
                profile_dialog: Some(DialogModel::Rename { id: profile.id@ }),
                profile_dialog_text: profile.name@,
                profile_dialog_needs_focus: true,
                ..app@
            })
            &&& final(deleting)@ == (AppModel {
                profile_dialog: Some(DialogModel::Delete { id: profile.id@, name: profile.name@ }),
                profile_dialog_text: Seq::empty(),
                profile_dialog_needs_focus: false,
                ..app@
            })
        },
{
    let list = app@.config.custom_profiles;
    let id = app@.config.active_profile_id;
    lemma_find_profile(list, id);
    if let Some(i) = at {
        assert(list[i as int] == app.config.custom_profiles@[i as int]@);
        assert(find_profile(list, id) == Some(list[i as int])) by {
            lemma_find_first(list, id, i as int);
        }
    }
}

/// The first profile under an id is the one that is found.
proof fn lemma_find_first(list: Seq<ProfileModel>, id: Seq<char>, at: int)
    requires
        0 <= at < list.len(),
        list[at].id == id,
        forall|j: int| 0 <= j < at ==> (#[trigger] list[j]).id != id,
    ensures
        find_profile(list, id) == Some(list[at]),
    decreases list.len(),
{
    if at > 0 {
        let rest = list.drop_first();
        assert(list[0].id != id);
        assert forall|j: int| 0 <= j < at - 1 implies (#[trigger] rest[j]).id != id by {
            assert(rest[j] == list[j + 1]);
        }
        lemma_find_first(rest, id, at - 1);
    }
}

/// A created profile stands behind the others, is the active one, has the given name and otherwise
/// changes nothing; a copied one has everything but id and name of the profile that it was copied
/// from. The folder, the theme and the other profiles stay.
pub proof fn law_new_profile_is_added(
    app: &mut YtDlpApp,
    dialog: ProfileDialog,
    before: YtDlpApp,
    id: String,
    name: String,
    base: DownloadProfile,
    new_id: &str,
    new_name: &str,
    r: bool,
)
    requires
        before@ == old(app)@,
        dialog is Create || dialog is Duplicate,
        call_ensures(AppConfig::next_custom_profile_id, (&before.config,), id),
        call_ensures(YtDlpApp::normalized_profile_dialog_name, (&before,), name),
        new_id@ == id@,
        new_name@ == name@,
        call_ensures(DownloadProfile::base, (new_id, new_name), base),
        call_ensures(YtDlpApp::apply_profile_name_dialog, (app, dialog), r),
    ensures
        r,
        final(app).profile_dialog is None,
        final(app)@.config == (ConfigModel {
            custom_profiles: old(app)@.config.custom_profiles.push(
                match dialog {
                    ProfileDialog::Duplicate(profile) => ProfileModel {
                        id: id@,
                        name: name@,
                        ..profile@
                    },
                    _ => base@,
                },
            ),
            active_profile_id: id@,
            ..old(app)@.config
        }),
        final(app)@ == (AppModel {
            config: final(app)@.config,
            profile_dialog: None,
            profile_dialog_text: Seq::empty(),
            profile_dialog_needs_focus: false,
            ..old(app)@
        }),
{
}

/// Renaming gives the first profile under the id the typed name and leaves everything else of it, of
/// the other profiles and of the settings; it tells whether there was such a profile.
pub proof fn law_profile_is_renamed(
    app: &mut YtDlpApp,
    id: String,
    before: YtDlpApp,
    name: String,
    wanted: &str,
    at: Option<usize>,
    r: bool,
)
    requires
        before@ == old(app)@,
        wanted@ == id@,
        call_ensures(YtDlpApp::normalized_profile_dialog_name, (&before,), name),
        call_ensures(profile_index, (&before.config.custom_profiles, wanted), at),
        call_ensures(YtDlpApp::apply_profile_name_dialog, (app, ProfileDialog::Rename { id }), r),
    ensures
        r <==> at is Some,
        at is None ==> final(app)@.config == old(app)@.config,
        at matches Some(i) ==> {
            let list = old(app)@.config.custom_profiles;
            final(app)@.config == (ConfigModel {
                custom_profiles: list.update(
                    i as int,
                    ProfileModel { name: name@, ..list[i as int] },
                ),
                ..old(app)@.config
            })
        },
        final(app)@ == (AppModel {
            config: final(app)@.config,
            profile_dialog: None,
            profile_dialog_text: Seq::empty(),
            profile_dialog_needs_focus: false,
            ..old(app)@
        }),
{
    let list = old(app)@.config.custom_profiles;
    match at {
        Some(i) => {
            assert(list[i as int] == before.config.custom_profiles@[i as int]@);
            assert forall|j: int| 0 <= j < i implies (#[trigger] list[j]).id != id@ by {
                assert(list[j] == before.config.custom_profiles@[j]@);
            }
            lemma_renamed(list, id@, name@, i as int);
        },
        None => {
            lemma_renamed_none(list, id@, name@);
        },
    }
}

/// Deleting takes away the profiles under the id and no other: one more profile at the end of the list
/// stays exactly where it goes by another id.
pub proof fn law_profile_is_deleted(
    front: &mut YtDlpApp,
    app: &mut YtDlpApp,
    last: DownloadProfile,
    id: &str,
    deleted_before: bool,
    r: bool,
)
    requires
        old(app)@.config.custom_profiles == old(front)@.config.custom_profiles.push(last@),
        call_ensures(YtDlpApp::apply_profile_delete_dialog, (front, id), deleted_before),
        call_ensures(YtDlpApp::apply_profile_delete_dialog, (app, id), r),
    ensures
        old(front).config.custom_profiles@.len() == 0 ==> !deleted_before
            && final(front).config.custom_profiles@.len() == 0,
        last.id@ == id@ ==> r && final(app)@.config.custom_profiles
            == final(front)@.config.custom_profiles,
        last.id@ != id@ ==> r == deleted_before && final(app)@.config.custom_profiles
            == final(front)@.config.custom_profiles.push(last@),
        final(app).config.active_profile_id@ == if r && old(app).config.active_profile_id@
            == id@ {
            "builtin.raw"@
        } else {
            old(app).config.active_profile_id@
        },
        final(app)@ == (AppModel {
            config: ConfigModel {
                custom_profiles: final(app)@.config.custom_profiles,
                active_profile_id: final(app).config.active_profile_id@,
                ..old(app)@.config
            },
            profile_dialog: None,
            profile_dialog_text: Seq::empty(),
            profile_dialog_needs_focus: false,
            ..old(app)@
        }),
{
    let list = old(front)@.config.custom_profiles;
    assert(old(app)@.config.custom_profiles.drop_last() =~= list);
    assert(profiles(old(front).config.custom_profiles@).len() == old(front).config.custom_profiles@.len());
    assert(profiles(final(front).config.custom_profiles@).len() == final(front).config.custom_profiles@.len());
    lemma_without_profile(list, id@);
}

/// What is done in a dialog counts in this order: a name that is given, a deletion that is agreed to,
/// and closing it. Closing it changes nothing but that; without any of these nothing happens, nor
/// where no dialog is open or where what is done does not belong to it.
pub proof fn law_dialog_is_resolved(app: &mut YtDlpApp, choice: DialogChoice, r: bool)
    requires
        call_ensures(YtDlpApp::resolve_profile_dialog, (app, choice), r),
    ensures
        old(app).profile_dialog is None ==> !r && final(app)@ == old(app)@,
        !choice.apply_name && !choice.approve_delete && !choice.cancel ==> !r && final(app)@ == old(app)@,
        !choice.apply_name && choice.approve_delete && !(old(app).profile_dialog matches Some(
            ProfileDialog::Delete { .. },
        )) ==> !r && final(app)@ == old(app)@,
        choice.apply_name && (old(app).profile_dialog matches Some(ProfileDialog::Delete { .. }))
            ==> !r && final(app)@ == old(app)@,
        old(app).profile_dialog is Some && !choice.apply_name && !choice.approve_delete
            && choice.cancel ==> !r && final(app)@ == (AppModel {
            profile_dialog: None,
            profile_dialog_text: Seq::empty(),
            profile_dialog_needs_focus: false,
            ..old(app)@
        }),
{
}

/// A name that is given and a deletion that is agreed to do in the open dialog what they do on their
/// own.
pub proof fn law_dialog_does_what_it_is_about(
    app: &mut YtDlpApp,
    named: &mut YtDlpApp,
    deleted: &mut YtDlpApp,
    choice: DialogChoice,
    dialog: ProfileDialog,
    id: &str,
    by_name: bool,
    by_deletion: bool,
    r: bool,
)
    requires
        old(named)@ == old(app)@,
        old(deleted)@ == old(app)@,
        old(app)@.profile_dialog == Some(dialog@),
        dialog@ matches DialogModel::Delete { id: gone, .. } ==> id@ == gone,
        call_ensures(YtDlpApp::apply_profile_name_dialog, (named, dialog), by_name),
        call_ensures(YtDlpApp::apply_profile_delete_dialog, (deleted, id), by_deletion),
        call_ensures(YtDlpApp::resolve_profile_dialog, (app, choice), r),
    ensures
        choice.apply_name ==> r == by_name && final(app)@ == final(named)@,
        !choice.apply_name && choice.approve_delete && dialog is Delete ==> r == by_deletion
            && final(app)@ == final(deleted)@,
{
}

/// Each dialog has a heading of its own, and only the one that deletes asks, by the name of the profile.
pub proof fn law_dialogs_are_headed(
    dialog: ProfileDialog,
    title: &'static str,
    question: Option<String>,
)
    requires
        call_ensures(ProfileDialog::title, (&dialog,), title),
        call_ensures(ProfileDialog::question, (&dialog,), question),
    ensures
        dialog is Create ==> title@ == "Новый профиль"@,
        dialog is Duplicate ==> title@ == "Дублировать профиль"@,
        dialog is Rename ==> title@ == "Переименовать профиль"@,
        dialog is Delete ==> title@ == "Удалить профиль"@,
        question is Some <==> dialog is Delete,
        dialog matches ProfileDialog::Delete { name, .. } ==> question->0@
            == "Удалить профиль \""@ + name@ + "\"?"@,
{
}

} // verus!
