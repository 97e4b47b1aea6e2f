//! The components that the window lists, and the confirmation of their updates.
use crate::app_state::{AppModel, YtDlpApp};
use crate::install::InstallModel;
use crate::status::{status, ColorRole, FinishModel, MessageModel, StatusMessage, StatusTone};
use crate::text::{cat, cat3, decimal, decimal_text};
use crate::update_run::{law_updates_report, updates_after, UpdateModel, UpdateRun};
use crate::updater::{
    components, holds_kind, law_update_order, selected_update_targets, update_targets, ComponentInfo, ComponentKind,
    ComponentModel, ComponentStatus,
};
use vstd::prelude::*;

verus! {

/// Whether a component in this state can be updated.
pub open spec fn is_updatable(status: ComponentStatus) -> bool {
    status == ComponentStatus::Missing || status == ComponentStatus::UpdateAvailable
}

/// The components of `list` that can be updated.
pub open spec fn updatable(list: Seq<ComponentModel>) -> Seq<ComponentModel>
    decreases list.len(),
{
    if list.len() == 0 {
        list
    } else if is_updatable(list.last().status) {
        updatable(list.drop_last()).push(list.last())
    } else {
        updatable(list.drop_last())
    }
}

/// The kinds of the components of `list`.
pub open spec fn kinds(list: Seq<ComponentModel>) -> Seq<ComponentKind> {
    list.map_values(|component: ComponentModel| component.kind)
}

/// The kinds of `list` but for the given one.
pub open spec fn without_kind(list: Seq<ComponentKind>, kind: ComponentKind) -> Seq<ComponentKind>
    decreases list.len(),
{
    if list.len() == 0 {
        list
    } else if list.last() == kind {
        without_kind(list.drop_last(), kind)
    } else {
        without_kind(list.drop_last(), kind).push(list.last())
    }
}

/// Whether every component of `list` is up to date.
pub open spec fn all_up_to_date(list: Seq<ComponentModel>) -> bool {
    forall|i: int| 0 <= i < list.len() ==> (#[trigger] list[i]).status == ComponentStatus::UpToDate
}

/// Whether the update of `current` is one of the component `kind`.
pub open spec fn updates_kind(current: Option<ComponentKind>, kind: ComponentKind) -> bool {
    ||| current == Some(kind)
    ||| current == Some(ComponentKind::FfmpegBundle) && (kind == ComponentKind::Ffmpeg || kind
        == ComponentKind::Ffprobe)
}

impl AppModel {
    /// What is said of a component, and in which color.
    pub open spec fn badge(self, component: ComponentModel) -> (ColorRole, Seq<char>) {
        if self.is_working && updates_kind(self.updating_component, component.kind) {
            (ColorRole::Warning, "обновляется"@)
        } else {
            match component.status {
                ComponentStatus::Missing => (ColorRole::Error, "не установлен"@),
                ComponentStatus::UpdateAvailable => (ColorRole::Warning, "доступно обновление"@),
                ComponentStatus::UpToDate => (ColorRole::Success, "актуален"@),
                ComponentStatus::Unknown => (ColorRole::Secondary, "неизвестно"@),
            }
        }
    }

    /// Whether the button that updates components can be pressed.
    pub open spec fn can_update(self) -> bool {
        !self.is_working && self.component_states.len() > 0 && updatable(
            self.component_states,
        ).len() > 0
    }

    /// What the button that updates components says.
    pub open spec fn update_hint(self) -> Seq<char> {
        if self.component_states.len() == 0 {
            "Проверка обновлений"@
        } else if self.is_working {
            "Дождитесь завершения текущей операции"@
        } else if updatable(self.component_states).len() > 0 {
            "Обновить компоненты"@
        } else if all_up_to_date(self.component_states) {
            "Все компоненты актуальны"@
        } else {
            "Нет доступных обновлений"@
        }
    }

    /// The state in which the user is asked which components are to be updated. All that can be
    /// are selected.
    pub open spec fn with_confirmation(self) -> AppModel {
        AppModel {
            selected_update_components: kinds(updatable(self.component_states)),
            show_update_confirm: true,
            center_confirm_window_on_open: true,
            ..self
        }
    }

    /// The state after a component was selected, or was not any more.
    pub open spec fn with_selection(self, kind: ComponentKind, selected: bool) -> AppModel {
        AppModel {
            selected_update_components: if selected {
                self.selected_update_components.push(kind)
            } else {
                without_kind(self.selected_update_components, kind)
            },
            ..self
        }
    }

    /// What is updated when the user agrees.
    pub open spec fn targets(self, selected: Seq<ComponentKind>) -> Seq<ComponentModel> {
        update_targets(updatable(self.component_states), selected)
    }

    /// The state after an update was asked for.
    pub open spec fn with_update(self, targets: Seq<ComponentModel>) -> AppModel {
        if targets.len() == 0 {
            AppModel {
                logs: self.logs + ">>> Обновления не требуются.\n"@,
                status: status(
                    StatusTone::Success,
                    "Обновления не требуются"@,
                    "Все компоненты уже актуальны"@,
                    None,
                ),
                ..self
            }
        } else {
            AppModel {
                is_working: true,
                status: status(
                    StatusTone::Running,
                    "Обновление компонентов"@,
                    "В очереди: "@ + decimal(targets.len()),
                    Some((0, targets.len() as usize)),
                ),
                ..self
            }
        }
    }

    /// The state in which the user is no longer asked.
    pub open spec fn without_confirmation(self) -> AppModel {
        AppModel { show_update_confirm: false, selected_update_components: Seq::empty(), ..self }
    }
}

/// The version, or the text in its place.
pub fn version_or<'a>(version: &'a Option<String>, other: &'a str) -> (r: &'a str)
    ensures
        r@ == match *version {
            Some(text) => text@,
            None => other@,
        },
{
    match version {
        Some(text) => text.as_str(),
        None => other,
    }
}

/// What an update of the component changes, in words.
pub fn change_label(component: &ComponentInfo) -> (r: String)
    ensures
        r@ == (match component@.local_version {
            Some(version) => version,
            None => "не установлен"@,
        }) + " → "@ + match component@.latest_version {
            Some(version) => version,
            None => "?"@,
        },
{
    cat3(
        version_or(&component.local_version, "не установлен"),
        " → ",
        version_or(&component.latest_version, "?"),
    )
}

impl YtDlpApp {
    /// What is said of a component, and in which color.
    pub fn component_badge(&self, component: &ComponentInfo) -> (r: (ColorRole, &'static str))
        ensures
            (r.0, r.1@) == self@.badge(component@),
    {
        let is_updating = match self.updating_component {
            Some(kind) => kind == component.kind || kind == ComponentKind::FfmpegBundle && (
            component.kind == ComponentKind::Ffmpeg || component.kind == ComponentKind::Ffprobe),
            None => false,
        };
        if self.is_working && is_updating {
            return (ColorRole::Warning, "обновляется");
        }
        match component.status {
            ComponentStatus::Missing => (ColorRole::Error, "не установлен"),
            ComponentStatus::UpdateAvailable => (ColorRole::Warning, "доступно обновление"),
            ComponentStatus::UpToDate => (ColorRole::Success, "актуален"),
            ComponentStatus::Unknown => (ColorRole::Secondary, "неизвестно"),
        }
    }

    /// The components that can be updated.
    pub fn update_candidates(&self) -> (r: Vec<ComponentInfo>)
        ensures
            components(r@) == updatable(self@.component_states),
    {
        let ghost all = self@.component_states;
        let mut list: Vec<ComponentInfo> = Vec::new();
        let mut i: usize = 0;
        while i < self.component_states.len()
            invariant
                i <= self.component_states.len(),
                all == self@.component_states,
                components(list@) =~= updatable(all.take(i as int)),
            decreases self.component_states.len() - i,
        {
            let ghost seen = all.take(i + 1);
            assert(seen.drop_last() =~= all.take(i as int));
            assert(seen.last() == self.component_states@[i as int]@);
            let status = self.component_states[i].status;
            if status == ComponentStatus::Missing || status == ComponentStatus::UpdateAvailable {
                list.push(self.component_states[i].clone());
            }
            i = i + 1;
        }
        assert(all.take(all.len() as int) =~= all);
        list
    }

    /// What is updated when the `selected` kinds are.
    pub fn collect_update_targets(&self, selected: &[ComponentKind]) -> (r: Vec<ComponentInfo>)
        ensures
            components(r@) == self@.targets(selected@),
    {
        let candidates = self.update_candidates();
        selected_update_targets(candidates.as_slice(), selected)
    }

    /// Whether the button that updates components can be pressed.
    pub fn update_enabled(&self) -> (r: bool)
        ensures
            r == self@.can_update(),
    {
        let candidates = self.update_candidates();
        assert(components(candidates@).len() == candidates@.len());
        !self.is_working && self.component_states.len() > 0 && candidates.len() > 0
    }

    /// Whether every component is up to date.
    fn is_up_to_date(&self) -> (r: bool)
        ensures
            r == all_up_to_date(self@.component_states),
    {
        let mut i: usize = 0;
        while i < self.component_states.len()
            invariant
                i <= self.component_states.len(),
                forall|j: int|
                    0 <= j < i ==> (#[trigger] self@.component_states[j]).status
                        == ComponentStatus::UpToDate,
            decreases self.component_states.len() - i,
        {
            assert(self@.component_states[i as int] == self.component_states@[i as int]@);
            if self.component_states[i].status != ComponentStatus::UpToDate {
                return false;
            }
            i = i + 1;
        }
        true
    }

    /// What the button that updates components says.
    pub fn update_tooltip(&self) -> (r: &'static str)
        ensures
            r@ == self@.update_hint(),
    {
        let candidates = self.update_candidates();
        assert(components(candidates@).len() == candidates@.len());
        if self.component_states.len() == 0 {
            "Проверка обновлений"
        } else if self.is_working {
            "Дождитесь завершения текущей операции"
        } else if candidates.len() > 0 {
            "Обновить компоненты"
        } else if self.is_up_to_date() {
            "Все компоненты актуальны"
        } else {
            "Нет доступных обновлений"
        }
    }

    /// Asks which components are to be updated. All that can be are selected.
    pub fn open_update_confirm(&mut self)
        ensures
            final(self)@ == old(self)@.with_confirmation(),
    {
        let candidates = self.update_candidates();
        let ghost all = kinds(components(candidates@));
        let mut list: Vec<ComponentKind> = Vec::new();
        let mut i: usize = 0;
        while i < candidates.len()
            invariant
                i <= candidates.len(),
                all == kinds(components(candidates@)),
                list@ =~= all.take(i as int),
            decreases candidates.len() - i,
        {
            assert(all.take(i + 1) =~= all.take(i as int).push(candidates@[i as int].kind));
            list.push(candidates[i].kind);
            i = i + 1;
        }
        assert(all.take(all.len() as int) =~= all);
        self.selected_update_components = list;
        self.show_update_confirm = true;
        self.center_confirm_window_on_open = true;
    }

    /// Whether the confirmation is to be centered, which it is once.
    pub fn take_center_request(&mut self) -> (r: bool)
        ensures
            final(self)@ == (AppModel { center_confirm_window_on_open: false, ..old(self)@ }),
            r == old(self)@.center_confirm_window_on_open,
    {
        let center = self.center_confirm_window_on_open;
        self.center_confirm_window_on_open = false;
        center
    }

    /// Whether a component is selected.
    pub fn is_selected(&self, kind: ComponentKind) -> (r: bool)
        ensures
            r == self@.selected_update_components.contains(kind),
    {
        holds_kind(self.selected_update_components.as_slice(), kind)
    }

    /// Selects a component, or does not any more.
    pub fn select_update(&mut self, kind: ComponentKind, selected: bool)
        ensures
            final(self)@ == old(self)@.with_selection(kind, selected),
    {
        if selected {
            self.selected_update_components.push(kind);
            return;
        }
        let ghost all = self@.selected_update_components;
        let mut kept: Vec<ComponentKind> = Vec::new();
        let mut i: usize = 0;
        while i < self.selected_update_components.len()
            invariant
                i <= self.selected_update_components.len(),
                *self == *old(self),
                all == self.selected_update_components@,
                kept@ =~= without_kind(all.take(i as int), kind),
            decreases self.selected_update_components.len() - i,
        {
            let ghost seen = all.take(i + 1);
            assert(seen.drop_last() =~= all.take(i as int));
            let current = self.selected_update_components[i];
            assert(seen.last() == current);
            if current != kind {
                kept.push(current);
            }
            i = i + 1;
        }
        assert(all.take(all.len() as int) =~= all);
        self.selected_update_components = kept;
    }

    /// Whether the update can be agreed to.
    pub fn can_approve(&self) -> (r: bool)
        ensures
            r == (self@.selected_update_components.len() > 0),
    {
        self.selected_update_components.len() > 0
    }

    /// Starts the updates of `targets`, where there are any.
    pub fn start_update(&mut self, targets: Vec<ComponentInfo>) -> (r: Option<UpdateRun>)
        ensures
            final(self)@ == old(self)@.with_update(components(targets@)),
            match r {
                Some(run) => targets@.len() > 0 && run@ == UpdateModel::fresh(
                    components(targets@),
                ),
                None => targets@.len() == 0,
            },
    {
        assert(components(targets@).len() == targets@.len());
        if targets.len() == 0 {
            self.logs.append(">>> Обновления не требуются.\n");
            self.status = StatusMessage::new(
                StatusTone::Success,
                "Обновления не требуются",
                "Все компоненты уже актуальны",
                None,
            );
            return None;
        }
        self.is_working = true;
        let count: usize = targets.len();
        let total = decimal_text(count as u128);
        let detail = cat("В очереди: ", total.as_str());
        self.status = StatusMessage::new(
            StatusTone::Running,
            "Обновление компонентов",
            detail.as_str(),
            Some((0, count)),
        );
        Some(UpdateRun::new(targets))
    }

    /// The user agrees: the selected components are updated.
    pub fn approve_update(&mut self) -> (r: Option<UpdateRun>)
        ensures
            ({
                let targets = old(self)@.targets(old(self)@.selected_update_components);
                &&& final(self)@ == old(self)@.without_confirmation().with_update(targets)
                &&& match r {
                    Some(run) => targets.len() > 0 && run@ == UpdateModel::fresh(targets),
                    None => targets.len() == 0,
                }
            }),
    {
        let targets = self.collect_update_targets(self.selected_update_components.as_slice());
        assert(components(targets@).len() == targets@.len());
        self.cancel_update();
        self.start_update(targets)
    }

    /// The user does not agree.
    pub fn cancel_update(&mut self)
        ensures
            final(self)@ == old(self)@.without_confirmation(),
    {
        self.selected_update_components = Vec::new();
        self.show_update_confirm = false;
    }
}

/// A component that can be updated and is no longer selected is not updated.
pub proof fn law_deselected_is_not_updated(app: AppModel, kind: ComponentKind)
    ensures
        ({
            let after = app.with_selection(kind, false);
            let targets = after.targets(after.selected_update_components);
            &&& !after.selected_update_components.contains(kind)
            &&& forall|i: int|
                0 <= i < targets.len() && kind != ComponentKind::FfmpegBundle ==> (
                #[trigger] targets[i]).kind != kind
        }),
{
    let after = app.with_selection(kind, false);
    lemma_without_kind(app.selected_update_components, kind);
    law_update_order(
        updatable(app.component_states),
        after.selected_update_components,
    );
}

proof fn lemma_without_kind(list: Seq<ComponentKind>, kind: ComponentKind)
    ensures
        forall|i: int|
            0 <= i < without_kind(list, kind).len() ==> #[trigger] without_kind(list, kind)[i]
                != kind,
    decreases list.len(),
{
    if list.len() > 0 {
        let front = list.drop_last();
        lemma_without_kind(front, kind);
        let kept = without_kind(list, kind);
        assert forall|i: int| 0 <= i < kept.len() implies #[trigger] kept[i] != kind by {
            if i < without_kind(front, kind).len() {
                assert(kept[i] == without_kind(front, kind)[i]);
            }
        }
    }
}

/// Only what is missing or outdated is ever a candidate, and everything that is, is one.
pub proof fn law_candidates_need_an_update(list: Seq<ComponentModel>, component: ComponentModel)
    ensures
        updatable(list).contains(component) <==> list.contains(component) && is_updatable(
            component.status,
        ),
    decreases list.len(),
{
    if list.len() > 0 {
        let front = list.drop_last();
        law_candidates_need_an_update(front, component);
        let kept = updatable(list);
        if updatable(front).contains(component) {
            let i = updatable(front).index_of(component);
            assert(kept[i] == component);
            let j = front.index_of(component);
            assert(list[j] == component);
        }
        if list.contains(component) {
            let j = list.index_of(component);
            if j < front.len() {
                assert(front[j] == component);
            } else if is_updatable(component.status) {
                assert(kept[kept.len() - 1] == component);
            }
        }
        if kept.contains(component) {
            let i = kept.index_of(component);
            if i < updatable(front).len() {
                assert(updatable(front)[i] == component);
            } else {
                assert(list[list.len() - 1] == component);
            }
        }
    }
}

/// An update that is under way ends with the message that tells of it.
pub proof fn law_update_ends(app: AppModel, targets: Seq<ComponentModel>, finish: FinishModel)
    ensures
        targets.len() > 0 ==> app.with_update(targets).is_working,
        !app.with_update(targets).handled(MessageModel::AllFinished(finish)).is_working,
{
}

/// Once an installation asked for this program to be started anew, the end of the updates closes
/// the window; otherwise it does not.
pub proof fn law_restart_closes_the_window(
    targets: Seq<ComponentModel>,
    results: Seq<Result<InstallModel, Seq<char>>>,
)
    ensures
        ({
            let run = updates_after(UpdateModel::fresh(targets), results);
            AppModel::closes(MessageModel::AllFinished(run.finished())) <==> exists|i: int|
                0 <= i < results.len() && (#[trigger] results[i]) is Ok && results[i]->Ok_0.restart
        }),
{
    law_updates_report(targets, results);
}

/// The candidates for an update are what is missing or outdated among the components, in their order:
/// what is known of them, one more component adds itself exactly where it is missing or outdated.
pub proof fn law_candidates_are_what_is_missing_or_outdated(
    front: YtDlpApp,
    component: ComponentInfo,
    app: YtDlpApp,
    before: Vec<ComponentInfo>,
    r: Vec<ComponentInfo>,
)
    requires
        components(app.component_states@) == components(front.component_states@).push(component@),
        call_ensures(YtDlpApp::update_candidates, (&front,), before),
        call_ensures(YtDlpApp::update_candidates, (&app,), r),
    ensures
        front.component_states@.len() == 0 ==> before@.len() == 0,
        component.status == ComponentStatus::Missing || component.status
            == ComponentStatus::UpdateAvailable ==> components(r@) == components(before@).push(
            component@,
        ),
        component.status == ComponentStatus::UpToDate || component.status
            == ComponentStatus::Unknown ==> components(r@) == components(before@),
{
    assert(components(app.component_states@).drop_last() =~= components(front.component_states@));
    assert(components(front.component_states@).len() == front.component_states@.len());
    assert(components(before@).len() == before@.len());
}

/// Updates can be asked for exactly where nothing is under way and there is a candidate. What is said of
/// that tells the check that is under way first, then the work, then the candidates.
pub proof fn law_update_can_be_asked_for(
    app: YtDlpApp,
    candidates: Vec<ComponentInfo>,
    enabled: bool,
    hint: &'static str,
)
    requires
        call_ensures(YtDlpApp::update_candidates, (&app,), candidates),
        call_ensures(YtDlpApp::update_enabled, (&app,), enabled),
        call_ensures(YtDlpApp::update_tooltip, (&app,), hint),
    ensures
        enabled <==> !app.is_working && candidates@.len() > 0,
        app.component_states@.len() == 0 ==> hint@ == "Проверка обновлений"@,
        app.component_states@.len() > 0 && app.is_working ==> hint@
            == "Дождитесь завершения текущей операции"@,
        enabled ==> hint@ == "Обновить компоненты"@,
        app.component_states@.len() > 0 && !app.is_working && candidates@.len() == 0 && (forall|
            i: int,
        |
            0 <= i < app.component_states@.len() ==> (#[trigger] app.component_states@[i]).status
                == ComponentStatus::UpToDate) ==> hint@ == "Все компоненты актуальны"@,
        app.component_states@.len() > 0 && !app.is_working && candidates@.len() == 0 && (exists|
            i: int,
        |
            0 <= i < app.component_states@.len() && (#[trigger] app.component_states@[i]).status
                != ComponentStatus::UpToDate) ==> hint@ == "Нет доступных обновлений"@,
{
    let list = app@.component_states;
    assert(components(candidates@).len() == candidates@.len());
    assert(list.len() == app.component_states@.len());
    assert(list.len() == 0 ==> updatable(list).len() == 0);
    if all_up_to_date(list) {
        assert forall|i: int| 0 <= i < app.component_states@.len() implies (
        #[trigger] app.component_states@[i]).status == ComponentStatus::UpToDate by {
            assert(list[i] == app.component_states@[i]@);
        }
    }
    if forall|i: int|
        0 <= i < app.component_states@.len() ==> (#[trigger] app.component_states@[i]).status
            == ComponentStatus::UpToDate {
        assert forall|i: int| 0 <= i < list.len() implies (#[trigger] list[i]).status
            == ComponentStatus::UpToDate by {
            assert(list[i] == app.component_states@[i]@);
        }
    }
}

/// A component is shown as being updated exactly while work is under way on it, for which both ffmpeg
/// programs count while they are updated as one. Otherwise its state is shown.
pub proof fn law_badge_shows_the_state(
    app: YtDlpApp,
    component: ComponentInfo,
    r: (ColorRole, &'static str),
)
    requires
        call_ensures(YtDlpApp::component_badge, (&app, &component), r),
    ensures
        ({
            let both = component.kind == ComponentKind::Ffmpeg || component.kind
                == ComponentKind::Ffprobe;
            let now = app.is_working && (app.updating_component == Some(component.kind)
                || app.updating_component == Some(ComponentKind::FfmpegBundle) && both);
            &&& now ==> r.0 == ColorRole::Warning && r.1@ == "обновляется"@
            &&& !now && component.status == ComponentStatus::Missing ==> r.0 == ColorRole::Error
                && r.1@ == "не установлен"@
            &&& !now && component.status == ComponentStatus::UpdateAvailable ==> r.0
                == ColorRole::Warning && r.1@ == "доступно обновление"@
            &&& !now && component.status == ComponentStatus::UpToDate ==> r.0 == ColorRole::Success
                && r.1@ == "актуален"@
            &&& !now && component.status == ComponentStatus::Unknown ==> r.0 == ColorRole::Secondary
                && r.1@ == "неизвестно"@
        }),
{
}

/// What an update changes is told by the installed version, or that there is none, and the latest one.
pub proof fn law_change_tells_both_versions(component: ComponentInfo, r: String)
    requires
        call_ensures(change_label, (&component,), r),
    ensures
        component.local_version is Some && component.latest_version is Some ==> r@
            == component.local_version->0@ + " → "@ + component.latest_version->0@,
        component.local_version is None && component.latest_version is Some ==> r@
            == "не установлен"@ + " → "@ + component.latest_version->0@,
        component.local_version is Some && component.latest_version is None ==> r@
            == component.local_version->0@ + " → "@ + "?"@,
        component.local_version is None && component.latest_version is None ==> r@
            == "не установлен"@ + " → "@ + "?"@,
{
}

/// Asking for updates selects every candidate, in order, and has the window for it centered once;
/// nothing else changes.
pub proof fn law_all_candidates_are_offered(
    app: &mut YtDlpApp,
    before: YtDlpApp,
    candidates: Vec<ComponentInfo>,
)
    requires
        before@ == old(app)@,
        call_ensures(YtDlpApp::update_candidates, (&before,), candidates),
        call_ensures(YtDlpApp::open_update_confirm, (app,), ()),
    ensures
        final(app).show_update_confirm,
        final(app).center_confirm_window_on_open,
        final(app).selected_update_components@.len() == candidates@.len(),
        forall|i: int|
            0 <= i < candidates@.len() ==> (#[trigger] final(app).selected_update_components@[i])
                == candidates@[i].kind,
        final(app)@ == (AppModel {
            show_update_confirm: true,
            center_confirm_window_on_open: true,
            selected_update_components: final(app).selected_update_components@,
            ..old(app)@
        }),
{
    let list = components(candidates@);
    assert(list.len() == candidates@.len());
    assert(kinds(list).len() == list.len());
    assert forall|i: int| 0 <= i < candidates@.len() implies (
    #[trigger] final(app).selected_update_components@[i]) == candidates@[i].kind by {
        assert(kinds(list)[i] == list[i].kind);
        assert(list[i] == candidates@[i]@);
    }
}

/// The window for updates is centered once for each time that it is opened.
pub proof fn law_window_is_centered_once(app: &mut YtDlpApp, r: bool)
    requires
        call_ensures(YtDlpApp::take_center_request, (app,), r),
    ensures
        r == old(app).center_confirm_window_on_open,
        final(app)@ == (AppModel { center_confirm_window_on_open: false, ..old(app)@ }),
{
}

/// A selected component is selected, one that is not any more is not, and the choice of every other
/// component stays. An update can be agreed to exactly where a component is selected.
pub proof fn law_selection_is_changed(
    app: &mut YtDlpApp,
    kind: ComponentKind,
    selected: bool,
    other: ComponentKind,
    before: YtDlpApp,
    after: YtDlpApp,
    was: bool,
    is_now: bool,
    can: bool,
)
    requires
        before@ == old(app)@,
        after@ == final(app)@,
        call_ensures(YtDlpApp::select_update, (app, kind, selected), ()),
        call_ensures(YtDlpApp::is_selected, (&before, other), was),
        call_ensures(YtDlpApp::is_selected, (&after, other), is_now),
        call_ensures(YtDlpApp::can_approve, (&after,), can),
    ensures
        other == kind ==> is_now == selected,
        other != kind ==> is_now == was,
        is_now ==> can,
        can <==> after.selected_update_components@.len() > 0,
        final(app)@ == (AppModel {
            selected_update_components: final(app).selected_update_components@,
            ..old(app)@
        }),
{
    let list = old(app).selected_update_components@;
    if selected {
        let grown = list.push(kind);
        assert(grown[list.len() as int] == kind);
        assert(forall|i: int| 0 <= i < list.len() ==> grown[i] == list[i]);
        if list.contains(other) {
            let i = list.index_of(other);
            assert(grown[i] == other);
        }
    } else {
        lemma_without_kind(list, kind);
        if other != kind {
            lemma_without_kind_keeps(list, kind, other);
        }
    }
}

/// Taking a kind out of a list keeps every other one.
proof fn lemma_without_kind_keeps(
    list: Seq<ComponentKind>,
    kind: ComponentKind,
    other: ComponentKind,
)
    requires
        other != kind,
    ensures
        without_kind(list, kind).contains(other) <==> list.contains(other),
    decreases list.len(),
{
    if list.len() > 0 {
        let front = list.drop_last();
        lemma_without_kind_keeps(front, kind, other);
        let kept = without_kind(list, kind);
        let less = without_kind(front, kind);
        if list.contains(other) {
            let i = list.index_of(other);
            if i < front.len() {
                assert(front[i] == other);
                let k = less.index_of(other);
                assert(kept[k] == other);
            } else {
                assert(kept[kept.len() - 1] == other);
            }
        }
        if kept.contains(other) {
            let k = kept.index_of(other);
            if k < less.len() {
                assert(less[k] == other);
                let i = front.index_of(other);
                assert(list[i] == other);
            } else {
                assert(list[list.len() - 1] == other);
            }
        }
    }
}

/// Agreeing starts the updates of what is selected among the candidates, with nothing done so far, and
/// closes the window for updates; where there is nothing to update, that is told in place of it. No
/// other part of the state changes.
pub proof fn law_agreed_updates_start(
    app: &mut YtDlpApp,
    before: YtDlpApp,
    selected: &[ComponentKind],
    candidates: Vec<ComponentInfo>,
    given: &[ComponentInfo],
    targets: Vec<ComponentInfo>,
    r: Option<UpdateRun>,
)
    requires
        before@ == old(app)@,
        selected@ == old(app).selected_update_components@,
        call_ensures(YtDlpApp::update_candidates, (&before,), candidates),
        given@ == candidates@,
        call_ensures(selected_update_targets, (given, selected), targets),
        call_ensures(YtDlpApp::approve_update, (app,), r),
    ensures
        r is Some <==> targets@.len() > 0,
        r matches Some(run) ==> {
            &&& components(run.targets@) == components(targets@)
            &&& run.done == 0
            &&& run.last_error is None
            &&& !run.restart_required
        },
        !final(app).show_update_confirm,
        final(app).selected_update_components@.len() == 0,
        r is Some ==> final(app).is_working && final(app).logs@ == old(app).logs@
            && final(app).status.tone == StatusTone::Running && final(app).status.title@
            == "Обновление компонентов"@ && final(app).status.detail@ == "В очереди: "@ + decimal(
            targets@.len(),
        ) && final(app).status.progress == Some((0usize, targets@.len() as usize)),
        r is None ==> final(app).is_working == old(app).is_working && final(app).logs@ == old(app).logs@ + ">>> Обновления не требуются.\n"@ && final(app).status.tone
            == StatusTone::Success && final(app).status.title@ == "Обновления не требуются"@
            && final(app).status.detail@ == "Все компоненты уже актуальны"@,
        final(app)@ == (AppModel {
            is_working: final(app).is_working,
            logs: final(app).logs@,
            status: final(app).status@,
            show_update_confirm: false,
            selected_update_components: Seq::empty(),
            ..old(app)@
        }),
{
    assert(components(targets@).len() == targets@.len());
    assert(components(given@) == components(candidates@));
    assert(final(app)@ =~= (AppModel {
        is_working: final(app).is_working,
        logs: final(app).logs@,
        status: final(app).status@,
        show_update_confirm: false,
        selected_update_components: Seq::empty(),
        ..old(app)@
    }));
}

/// Not agreeing closes the window for updates and selects nothing; nothing is started and nothing else
/// changes.
pub proof fn law_declined_updates_do_not_start(app: &mut YtDlpApp)
    requires
        call_ensures(YtDlpApp::cancel_update, (app,), ()),
    ensures
        final(app)@ == (AppModel {
            show_update_confirm: false,
            selected_update_components: Seq::empty(),
            ..old(app)@
        }),
{
}

} // verus!
