//! The updates of components, one after another, and what a check for updates tells.
use crate::install::{install_outcome, InstallModel};
use crate::status::{
    messages, push_log, push_status, status, AppMessage, FinishModel, FinishState, MessageModel,
    StatusTone,
};
use crate::text::{
    cat, cat3, opt_text, skip_prefix, starts, texts, trim, trim_prefixes, trimmed,
};
use crate::updater::{
    components, ComponentInfo, ComponentModel, InstallResult, UpdateReport,
};
use vstd::prelude::*;

verus! {

/// The part of a message that the status line shows: what follows its mark.
pub open spec fn unmarked(message: Seq<char>) -> Seq<char> {
    trimmed(skip_prefix(message, ">>>"@))
}

/// The part of a message that the status line shows: what follows its mark.
pub fn without_mark<'a>(message: &'a str) -> (r: &'a str)
    ensures
        r@ == unmarked(message@),
{
    proof {
        reveal_strlit(">>>");
    }
    trim(trim_prefixes(message, ">>>"))
}

/// What is told of a warning of the first check for updates.
pub open spec fn warning_messages(warnings: Seq<Seq<char>>) -> Seq<MessageModel>
    decreases warnings.len(),
{
    if warnings.len() == 0 {
        Seq::empty()
    } else {
        warning_messages(warnings.drop_last()) + seq![
            MessageModel::Log(warnings.last()),
            MessageModel::Status(
                status(
                    StatusTone::Warning,
                    "Проверка обновлений не завершена"@,
                    unmarked(warnings.last()),
                    None,
                ),
            ),
        ]
    }
}

/// What the first check for updates tells: its warnings, and the components.
pub fn check_messages(report: UpdateReport) -> (r: Vec<AppMessage>)
    ensures
        messages(r@) == warning_messages(texts(report.warnings@)).push(
            MessageModel::UpdateSnapshot(components(report.components@)),
        ),
{
    let mut list: Vec<AppMessage> = Vec::new();
    let ghost all = texts(report.warnings@);
    let mut i: usize = 0;
    while i < report.warnings.len()
        invariant
            i <= report.warnings.len(),
            all == texts(report.warnings@),
            messages(list@) =~= warning_messages(all.take(i as int)),
        decreases report.warnings.len() - i,
    {
        let ghost seen = all.take(i + 1);
        assert(seen.drop_last() =~= all.take(i as int));
        assert(seen.last() == report.warnings@[i as int]@);
        let warning = report.warnings[i].as_str();
        push_log(&mut list, warning);
        push_status(
            &mut list,
            StatusTone::Warning,
            "Проверка обновлений не завершена",
            without_mark(warning),
            None,
        );
        i = i + 1;
    }
    assert(all.take(all.len() as int) =~= all);
    let ghost told = messages(list@);
    list.push(AppMessage::UpdateSnapshot(report.components));
    assert(messages(list@) =~= told.push(
        MessageModel::UpdateSnapshot(components(report.components@)),
    ));
    list
}

/// The updates that are left, and how those before went.
pub struct UpdateRun {
    /// What is updated.
    pub targets: Vec<ComponentInfo>,
    /// How many of them are done.
    pub done: usize,
    /// What went wrong last.
    pub last_error: Option<String>,
    /// Whether one of them needs this program to be started anew.
    pub restart_required: bool,
}

/// What a run of updates is.
#[verifier::ext_equal]
pub struct UpdateModel {
    pub targets: Seq<ComponentModel>,
    pub done: nat,
    pub last_error: Option<Seq<char>>,
    pub restart_required: bool,
}

impl View for UpdateRun {
    type V = UpdateModel;

    open spec fn view(&self) -> UpdateModel {
        UpdateModel {
            targets: components(self.targets@),
            done: self.done as nat,
            last_error: opt_text(self.last_error),
            restart_required: self.restart_required,
        }
    }
}

impl UpdateModel {
    /// The run of updates in which nothing is done yet.
    pub open spec fn fresh(targets: Seq<ComponentModel>) -> UpdateModel {
        UpdateModel { targets, done: 0, last_error: None, restart_required: false }
    }

    /// Whether an update is left.
    pub open spec fn has_next(self) -> bool {
        self.done < self.targets.len()
    }

    /// How far the run has come with the next update.
    pub open spec fn progress(self) -> Option<(usize, usize)> {
        Some(((self.done + 1) as usize, self.targets.len() as usize))
    }

    /// What is told before the next update.
    pub open spec fn announcement(self) -> Seq<MessageModel> {
        let target = self.targets[self.done as int];
        seq![
            MessageModel::UpdatingComponent(Some(target.kind)),
            MessageModel::Status(
                status(
                    StatusTone::Running,
                    "Обновление "@ + target.title,
                    "Загрузка и установка"@,
                    self.progress(),
                ),
            ),
        ]
    }

    /// What went wrong with the next update.
    pub open spec fn failure(self, result: Result<InstallModel, Seq<char>>) -> Option<Seq<char>> {
        match result {
            Ok(_) => None,
            Err(err) => Some(self.targets[self.done as int].title + ": "@ + err),
        }
    }

    /// What is told after the next update.
    pub open spec fn report(self, result: Result<InstallModel, Seq<char>>) -> Seq<MessageModel> {
        match result {
            Ok(installed) => seq![
                MessageModel::Log("✅ "@ + installed.message),
                MessageModel::Status(
                    status(
                        StatusTone::Success,
                        "Компонент обновлен"@,
                        installed.message,
                        self.progress(),
                    ),
                ),
            ],
            Err(_) => seq![
                MessageModel::Log("❌ "@ + self.failure(result)->0),
                MessageModel::Status(
                    status(
                        StatusTone::Error,
                        "Ошибка обновления"@,
                        self.failure(result)->0,
                        self.progress(),
                    ),
                ),
            ],
        }
    }

    /// The run after the next update.
    pub open spec fn recorded(self, result: Result<InstallModel, Seq<char>>) -> UpdateModel {
        UpdateModel {
            done: self.done + 1,
            last_error: if self.failure(result) is Some {
                self.failure(result)
            } else {
                self.last_error
            },
            restart_required: self.restart_required || result is Ok && result->Ok_0.restart,
            ..self
        }
    }

    /// How the run ended.
    pub open spec fn finished(self) -> FinishModel {
        FinishModel {
            had_error: self.last_error is Some,
            restart_required: self.restart_required,
            title: if self.last_error is Some {
                "Обновление завершено с ошибкой"@
            } else {
                "Обновление завершено"@
            },
            detail: match self.last_error {
                Some(error) => error,
                None => if self.restart_required {
                    "Приложение будет перезапущено"@
                } else {
                    "Компоненты готовы к работе"@
                },
            },
        }
    }
}

impl UpdateRun {
    /// The run of the given updates, of which nothing is done yet.
    pub fn new(targets: Vec<ComponentInfo>) -> (r: Self)
        ensures
            r@ == UpdateModel::fresh(components(targets@)),
            r.targets == targets,
    {
        UpdateRun { targets, done: 0, last_error: None, restart_required: false }
    }

    /// Whether an update is left.
    pub fn has_next(&self) -> (r: bool)
        ensures
            r == self@.has_next(),
    {
        self.done < self.targets.len()
    }

    /// What is told before the next update.
    pub fn announce_next(&self) -> (r: Vec<AppMessage>)
        requires
            self@.has_next(),
        ensures
            messages(r@) == self@.announcement(),
    {
        let total: usize = self.targets.len();
        let target = &self.targets[self.done];
        assert(target@ == self@.targets[self.done as int]);
        let mut list: Vec<AppMessage> = Vec::new();
        list.push(AppMessage::UpdatingComponent(Some(target.kind)));
        assert(messages(list@) =~= seq![MessageModel::UpdatingComponent(Some(target.kind))]);
        let title = cat("Обновление ", target.title.as_str());
        push_status(
            &mut list,
            StatusTone::Running,
            title.as_str(),
            "Загрузка и установка",
            Some((self.done + 1, total)),
        );
        assert(messages(list@) =~= self@.announcement());
        list
    }

    /// Takes note of how the next update ended, and tells of it.
    pub fn record(&mut self, result: Result<InstallResult, String>) -> (r: Vec<AppMessage>)
        requires
            old(self)@.has_next(),
        ensures
            final(self)@ == old(self)@.recorded(install_outcome(result)),
            messages(r@) == old(self)@.report(install_outcome(result)),
    {
        let total: usize = self.targets.len();
        let place: usize = self.done + 1;
        let ghost given = install_outcome(result);
        let mut list: Vec<AppMessage> = Vec::new();
        match result {
            Ok(installed) => {
                let (message, restart) = match installed {
                    InstallResult::Installed(message) => (message, false),
                    InstallResult::RestartRequired(message) => (message, true),
                };
                self.restart_required = self.restart_required || restart;
                let log = cat("✅ ", message.as_str());
                push_log(&mut list, log.as_str());
                push_status(
                    &mut list,
                    StatusTone::Success,
                    "Компонент обновлен",
                    message.as_str(),
                    Some((place, total)),
                );
            },
            Err(err) => {
                assert(self.targets@[self.done as int]@ == self@.targets[self.done as int]);
                let detail = cat3(self.targets[self.done].title.as_str(), ": ", err.as_str());
                let log = cat("❌ ", detail.as_str());
                push_log(&mut list, log.as_str());
                push_status(
                    &mut list,
                    StatusTone::Error,
                    "Ошибка обновления",
                    detail.as_str(),
                    Some((place, total)),
                );
                self.last_error = Some(detail);
            },
        }
        self.done = place;
        assert(messages(list@) =~= old(self)@.report(given));
        list
    }

    /// What is told after the last update. Unless this program is started anew, a check for updates
    /// follows.
    pub fn conclude(&self) -> (r: Vec<AppMessage>)
        ensures
            messages(r@) == conclusion(),
    {
        let mut list: Vec<AppMessage> = Vec::new();
        list.push(AppMessage::UpdatingComponent(None));
        assert(messages(list@) =~= seq![MessageModel::UpdatingComponent(None)]);
        push_log(&mut list, "✅ Обновление завершено.");
        assert(messages(list@) =~= seq![
            MessageModel::UpdatingComponent(None),
            MessageModel::Log("✅ Обновление завершено."@),
        ]);
        list
    }

    /// Whether a check for updates follows the last update.
    pub fn rechecks(&self) -> (r: bool)
        ensures
            r == !self@.restart_required,
    {
        !self.restart_required
    }

    /// How the run ended.
    pub fn finish(&self) -> (r: FinishState)
        ensures
            r@ == self@.finished(),
    {
        match &self.last_error {
            Some(error) => FinishState {
                had_error: true,
                restart_required: self.restart_required,
                title: "Обновление завершено с ошибкой".to_owned(),
                detail: error.clone(),
            },
            None => FinishState {
                had_error: false,
                restart_required: self.restart_required,
                title: "Обновление завершено".to_owned(),
                detail: if self.restart_required {
                    "Приложение будет перезапущено".to_owned()
                } else {
                    "Компоненты готовы к работе".to_owned()
                },
            },
        }
    }
}

/// The warnings as lines of the log.
pub open spec fn log_messages(warnings: Seq<Seq<char>>) -> Seq<MessageModel> {
    warnings.map_values(|warning: Seq<char>| MessageModel::Log(warning))
}

/// What the check for updates after the last update tells: its warnings, and the components.
pub fn recheck_messages(report: UpdateReport) -> (r: Vec<AppMessage>)
    ensures
        messages(r@) == recheck_texts(texts(report.warnings@), components(report.components@)),
{
    let mut list: Vec<AppMessage> = Vec::new();
    let ghost all = log_messages(texts(report.warnings@));
    let mut i: usize = 0;
    while i < report.warnings.len()
        invariant
            i <= report.warnings.len(),
            all == log_messages(texts(report.warnings@)),
            messages(list@) =~= all.take(i as int),
        decreases report.warnings.len() - i,
    {
        assert(all.take(i + 1) =~= all.take(i as int).push(
            MessageModel::Log(report.warnings@[i as int]@),
        ));
        push_log(&mut list, report.warnings[i].as_str());
        i = i + 1;
    }
    assert(all.take(all.len() as int) =~= all);
    list.push(AppMessage::UpdateSnapshot(report.components));
    assert(messages(list@) =~= all.push(
        MessageModel::UpdateSnapshot(components(report.components@)),
    ));
    list
}

/// What is to be done next in a run of updates, once its messages are sent.
pub enum UpdateNext {
    /// Install the component.
    Install(ComponentInfo),
    /// Check for updates.
    Recheck,
    /// Nothing; the run is over.
    Nothing,
}

/// The messages that are to be sent, and what is to be done after that.
pub struct UpdateStep {
    pub messages: Vec<AppMessage>,
    pub next: UpdateNext,
}

/// What is next in a run of updates.
#[verifier::ext_equal]
pub enum NextModel {
    Install(ComponentModel),
    Recheck,
    Nothing,
}

/// What a step is.
#[verifier::ext_equal]
pub struct UpdateStepModel {
    pub messages: Seq<MessageModel>,
    pub next: NextModel,
}

impl View for UpdateStep {
    type V = UpdateStepModel;

    open spec fn view(&self) -> UpdateStepModel {
        UpdateStepModel {
            messages: messages(self.messages@),
            next: match self.next {
                UpdateNext::Install(component) => NextModel::Install(component@),
                UpdateNext::Recheck => NextModel::Recheck,
                UpdateNext::Nothing => NextModel::Nothing,
            },
        }
    }
}

/// What is told after the last update.
pub open spec fn conclusion() -> Seq<MessageModel> {
    seq![
        MessageModel::UpdatingComponent(None),
        MessageModel::Log("✅ Обновление завершено."@),
    ]
}

/// What the check for updates after the last update tells.
pub open spec fn recheck_texts(
    warnings: Seq<Seq<char>>,
    list: Seq<ComponentModel>,
) -> Seq<MessageModel> {
    log_messages(warnings).push(MessageModel::UpdateSnapshot(list))
}

impl UpdateModel {
    /// The end of the run, once `told` is to be sent.
    pub open spec fn end_after(self, told: Seq<MessageModel>) -> UpdateStepModel {
        UpdateStepModel {
            messages: told.push(MessageModel::AllFinished(self.finished())),
            next: NextModel::Nothing,
        }
    }

    /// The step that follows once `told` is to be sent: the next component is announced and
    /// installed, or, where none is left, the updates are concluded. A check for updates follows
    /// them, unless this program is started anew.
    pub open spec fn step_after(self, told: Seq<MessageModel>) -> UpdateStepModel {
        if self.has_next() {
            UpdateStepModel {
                messages: told + self.announcement(),
                next: NextModel::Install(self.targets[self.done as int]),
            }
        } else if self.restart_required {
            self.end_after(told + conclusion())
        } else {
            UpdateStepModel { messages: told + conclusion(), next: NextModel::Recheck }
        }
    }
}

impl UpdateRun {
    /// The end of the run, once `told` is to be sent.
    fn end(&self, told: Vec<AppMessage>) -> (r: UpdateStep)
        ensures
            r@ == self@.end_after(messages(told@)),
    {
        let ghost before = messages(told@);
        let mut list = told;
        let finish = self.finish();
        list.push(AppMessage::AllFinished(finish));
        assert(messages(list@) =~= before.push(MessageModel::AllFinished(finish@)));
        UpdateStep { messages: list, next: UpdateNext::Nothing }
    }

    /// The step that follows once `told` is to be sent.
    fn go_on(&self, told: Vec<AppMessage>) -> (r: UpdateStep)
        ensures
            r@ == self@.step_after(messages(told@)),
    {
        let ghost before = messages(told@);
        let mut list = told;
        if self.has_next() {
            let mut announcement = self.announce_next();
            let ghost more = messages(announcement@);
            list.append(&mut announcement);
            assert(messages(list@) =~= before + more);
            let component = self.targets[self.done].clone();
            assert(component@ == self@.targets[self.done as int]);
            UpdateStep { messages: list, next: UpdateNext::Install(component) }
        } else {
            let mut closing = self.conclude();
            list.append(&mut closing);
            assert(messages(list@) =~= before + conclusion());
            if self.rechecks() {
                UpdateStep { messages: list, next: UpdateNext::Recheck }
            } else {
                self.end(list)
            }
        }
    }

    /// What a run begins with.
    pub fn start(&self) -> (r: UpdateStep)
        ensures
            r@ == self@.step_after(Seq::empty()),
    {
        let told: Vec<AppMessage> = Vec::new();
        assert(messages(told@) =~= Seq::<MessageModel>::empty());
        self.go_on(told)
    }

    /// Goes on after an update ended.
    pub fn advance(&mut self, result: Result<InstallResult, String>) -> (r: UpdateStep)
        requires
            old(self)@.has_next(),
        ensures
            final(self)@ == old(self)@.recorded(install_outcome(result)),
            r@ == old(self)@.recorded(install_outcome(result)).step_after(
                old(self)@.report(install_outcome(result)),
            ),
    {
        let told = self.record(result);
        self.go_on(told)
    }

    /// Goes on after the check for updates that follows the last update.
    pub fn after_recheck(&self, report: UpdateReport) -> (r: UpdateStep)
        ensures
            r@ == self@.end_after(
                recheck_texts(texts(report.warnings@), components(report.components@)),
            ),
    {
        let told = recheck_messages(report);
        self.end(told)
    }
}

/// The run after the updates ended as `results` tells.
pub open spec fn updates_after(
    run: UpdateModel,
    results: Seq<Result<InstallModel, Seq<char>>>,
) -> UpdateModel
    decreases results.len(),
{
    if results.len() == 0 {
        run
    } else {
        updates_after(run, results.drop_last()).recorded(results.last())
    }
}

/// What is said of the last of `results` that is a failure.
pub open spec fn last_update_failure(
    targets: Seq<ComponentModel>,
    results: Seq<Result<InstallModel, Seq<char>>>,
) -> Option<Seq<char>>
    decreases results.len(),
{
    if results.len() == 0 {
        None
    } else {
        match results.last() {
            Err(err) => Some(targets[results.len() - 1].title + ": "@ + err),
            Ok(_) => last_update_failure(targets, results.drop_last()),
        }
    }
}

/// Each result brings a run one update further, and the last failure is the one that is kept.
proof fn lemma_updates_after(
    targets: Seq<ComponentModel>,
    results: Seq<Result<InstallModel, Seq<char>>>,
)
    ensures
        ({
            let run = updates_after(UpdateModel::fresh(targets), results);
            &&& run.done == results.len()
            &&& run.targets == targets
            &&& run.last_error == last_update_failure(targets, results)
        }),
    decreases results.len(),
{
    if results.len() > 0 {
        lemma_updates_after(targets, results.drop_last());
    }
}

/// Nothing failed exactly where no result is a failure.
proof fn lemma_no_update_failure(
    targets: Seq<ComponentModel>,
    results: Seq<Result<InstallModel, Seq<char>>>,
)
    ensures
        last_update_failure(targets, results) is None <==> forall|i: int|
            0 <= i < results.len() ==> (#[trigger] results[i]) is Ok,
    decreases results.len(),
{
    if results.len() > 0 {
        let front = results.drop_last();
        let last = results.len() - 1;
        lemma_no_update_failure(targets, front);
        assert(results[last] == results.last());
        if last_update_failure(targets, results) is None {
            assert forall|i: int| 0 <= i < results.len() implies (#[trigger] results[i]) is Ok by {
                if i < last {
                    assert(front[i] == results[i]);
                }
            }
        } else if results.last() is Ok {
            let i = choose|i: int| 0 <= i < front.len() && !((#[trigger] front[i]) is Ok);
            assert(results[i] == front[i]);
        }
    }
}

/// The failure that no other follows is the last one.
proof fn lemma_last_update_failure(
    targets: Seq<ComponentModel>,
    results: Seq<Result<InstallModel, Seq<char>>>,
    i: int,
)
    requires
        0 <= i < results.len(),
        results[i] is Err,
        forall|j: int| i < j < results.len() ==> (#[trigger] results[j]) is Ok,
    ensures
        last_update_failure(targets, results) == Some(
            targets[i].title + ": "@ + results[i]->Err_0,
        ),
    decreases results.len(),
{
    let last = results.len() - 1;
    if i < last {
        let front = results.drop_last();
        assert(results[last] is Ok);
        assert forall|j: int| i < j < front.len() implies (#[trigger] front[j]) is Ok by {
            assert(front[j] == results[j]);
        }
        assert(front[i] == results[i]);
        lemma_last_update_failure(targets, front, i);
    }
}

/// A restart is due exactly where one of the results asks for it.
proof fn lemma_restart_due(
    targets: Seq<ComponentModel>,
    results: Seq<Result<InstallModel, Seq<char>>>,
)
    ensures
        updates_after(UpdateModel::fresh(targets), results).restart_required <==> exists|i: int|
            0 <= i < results.len() && (#[trigger] results[i]) is Ok && results[i]->Ok_0.restart,
    decreases results.len(),
{
    if results.len() > 0 {
        let front = results.drop_last();
        let last = results.len() - 1;
        lemma_restart_due(targets, front);
        assert(results[last] == results.last());
        if updates_after(UpdateModel::fresh(targets), front).restart_required {
            let i = choose|i: int|
                0 <= i < front.len() && (#[trigger] front[i]) is Ok && front[i]->Ok_0.restart;
            assert(results[i] == front[i]);
        }
        if exists|i: int|
            0 <= i < results.len() && (#[trigger] results[i]) is Ok && results[i]->Ok_0.restart {
            let i = choose|i: int|
                0 <= i < results.len() && (#[trigger] results[i]) is Ok && results[i]->Ok_0.restart;
            if i < last {
                assert(front[i] == results[i]);
            }
        }
    }
}

/// A run of updates ends with an error exactly where one of them failed, and asks for a restart
/// exactly where one of those that were installed did. Each result brings it one update further.
pub proof fn law_updates_report(
    targets: Seq<ComponentModel>,
    results: Seq<Result<InstallModel, Seq<char>>>,
)
    ensures
        ({
            let run = updates_after(UpdateModel::fresh(targets), results);
            &&& run.done == results.len()
            &&& run.targets == targets
            &&& run.finished().had_error <==> exists|i: int|
                0 <= i < results.len() && #[trigger] results[i] is Err
            &&& run.finished().restart_required <==> exists|i: int|
                0 <= i < results.len() && (#[trigger] results[i]) is Ok && results[i]->Ok_0.restart
        }),
{
    lemma_updates_after(targets, results);
    lemma_restart_due(targets, results);
    lemma_no_update_failure(targets, results);
    if last_update_failure(targets, results) is Some {
        let i = choose|i: int| 0 <= i < results.len() && !((#[trigger] results[i]) is Ok);
        assert(results[i] is Err);
    }
}

/// What a run of updates reports at its end is its last failure, with the name of the component.
pub proof fn law_updates_report_last_failure(
    targets: Seq<ComponentModel>,
    results: Seq<Result<InstallModel, Seq<char>>>,
    i: int,
)
    requires
        0 <= i < results.len(),
        results[i] is Err,
        forall|j: int| i < j < results.len() ==> (#[trigger] results[j]) is Ok,
    ensures
        ({
            let run = updates_after(UpdateModel::fresh(targets), results);
            &&& run.finished().had_error
            &&& run.finished().detail == targets[i].title + ": "@ + results[i]->Err_0
        }),
{
    lemma_updates_after(targets, results);
    lemma_last_update_failure(targets, results, i);
}

/// What was sent from the start of a run until after the last of `results`.
pub open spec fn updates_sent(
    run: UpdateModel,
    results: Seq<Result<InstallModel, Seq<char>>>,
) -> Seq<MessageModel>
    decreases results.len(),
{
    if results.len() == 0 {
        run.step_after(Seq::empty()).messages
    } else {
        let before = updates_after(run, results.drop_last());
        let told = before.report(results.last());
        updates_sent(run, results.drop_last()) + before.recorded(results.last()).step_after(
            told,
        ).messages
    }
}

/// What is told of the updates that ended as `results` tells: the announcement of each, and how it
/// ended, in order.
pub open spec fn update_messages(
    run: UpdateModel,
    results: Seq<Result<InstallModel, Seq<char>>>,
) -> Seq<MessageModel>
    decreases results.len(),
{
    if results.len() == 0 {
        Seq::empty()
    } else {
        let before = updates_after(run, results.drop_last());
        update_messages(run, results.drop_last()) + before.announcement() + before.report(
            results.last(),
        )
    }
}

/// All that a run of updates sends, where the check for updates after it, if there is one, gives
/// these warnings and components.
pub open spec fn whole_update(
    targets: Seq<ComponentModel>,
    results: Seq<Result<InstallModel, Seq<char>>>,
    warnings: Seq<Seq<char>>,
    list: Seq<ComponentModel>,
) -> Seq<MessageModel> {
    let run = updates_after(UpdateModel::fresh(targets), results);
    let told = updates_sent(UpdateModel::fresh(targets), results);
    match run.step_after(Seq::empty()).next {
        NextModel::Recheck => told + run.end_after(recheck_texts(warnings, list)).messages,
        _ => told,
    }
}

/// Up to any update, a run has told of the updates before, and then announced the update or
/// concluded.
proof fn lemma_updates_sent(
    targets: Seq<ComponentModel>,
    results: Seq<Result<InstallModel, Seq<char>>>,
)
    requires
        results.len() <= targets.len(),
    ensures
        ({
            let run = UpdateModel::fresh(targets);
            updates_sent(run, results) == updates_after(run, results).step_after(
                update_messages(run, results),
            ).messages
        }),
    decreases results.len(),
{
    if results.len() > 0 {
        let run = UpdateModel::fresh(targets);
        let front = results.drop_last();
        lemma_updates_sent(targets, front);
        lemma_updates_after(targets, front);
        lemma_updates_after(targets, results);
        assert(updates_sent(run, results) =~= updates_after(run, results).step_after(
            update_messages(run, results),
        ).messages);
    }
}

/// What is told of updates never tells the end of the run.
proof fn lemma_updates_tell_no_end(
    run: UpdateModel,
    results: Seq<Result<InstallModel, Seq<char>>>,
)
    ensures
        forall|i: int|
            0 <= i < update_messages(run, results).len() ==> !((#[trigger] update_messages(
                run,
                results,
            )[i]) is AllFinished),
    decreases results.len(),
{
    if results.len() > 0 {
        let front = results.drop_last();
        lemma_updates_tell_no_end(run, front);
        let before = updates_after(run, front);
        let all = update_messages(run, results);
        let a = update_messages(run, front);
        let b = before.announcement();
        let c = before.report(results.last());
        assert forall|i: int| 0 <= i < all.len() implies !((#[trigger] all[i]) is AllFinished) by {
            if i < a.len() {
                assert(all[i] == a[i]);
            } else if i < a.len() + b.len() {
                assert(all[i] == b[i - a.len()]);
            } else {
                assert(all[i] == c[i - a.len() - b.len()]);
            }
        }
    }
}

/// A run of updates tells of each update in order, first its announcement and then how it ended;
/// after the last it concludes, and tells what the check for updates found, unless this program is
/// started anew. The end of the run comes last, and only once. Until every update ended, the next
/// component is installed.
pub proof fn law_updates_tell_in_order(
    targets: Seq<ComponentModel>,
    results: Seq<Result<InstallModel, Seq<char>>>,
    warnings: Seq<Seq<char>>,
    list: Seq<ComponentModel>,
)
    requires
        results.len() == targets.len(),
    ensures
        ({
            let fresh = UpdateModel::fresh(targets);
            let run = updates_after(fresh, results);
            let checked = if run.restart_required {
                Seq::empty()
            } else {
                recheck_texts(warnings, list)
            };
            whole_update(targets, results, warnings, list) == (update_messages(fresh, results)
                + conclusion() + checked).push(MessageModel::AllFinished(run.finished()))
        }),
        forall|i: int|
            0 <= i < whole_update(targets, results, warnings, list).len() - 1 ==> !((
            #[trigger] whole_update(targets, results, warnings, list)[i]) is AllFinished),
        forall|n: int, told: Seq<MessageModel>|
            0 <= n < results.len() ==> (#[trigger] updates_after(
                UpdateModel::fresh(targets),
                results.take(n),
            ).step_after(told)).next == NextModel::Install(targets[n]),
{
    let fresh = UpdateModel::fresh(targets);
    let run = updates_after(fresh, results);
    lemma_updates_sent(targets, results);
    lemma_updates_after(targets, results);
    lemma_updates_tell_no_end(fresh, results);
    let a = update_messages(fresh, results);
    let checked = if run.restart_required {
        Seq::empty()
    } else {
        recheck_texts(warnings, list)
    };
    let all = whole_update(targets, results, warnings, list);
    let front = a + conclusion() + checked;
    assert(all =~= front.push(MessageModel::AllFinished(run.finished())));
    assert forall|i: int| 0 <= i < all.len() - 1 implies !((#[trigger] all[i]) is AllFinished) by {
        assert(all[i] == front[i]);
        if i < a.len() {
            assert(front[i] == a[i]);
        } else if i < a.len() + 2 {
            assert(front[i] == conclusion()[i - a.len()]);
        } else {
            assert(front[i] == checked[i - a.len() - 2]);
        }
    }
    assert forall|n: int, told: Seq<MessageModel>| 0 <= n < results.len() implies (
    #[trigger] updates_after(fresh, results.take(n)).step_after(told)).next == NextModel::Install(
        targets[n],
    ) by {
        lemma_updates_after(targets, results.take(n));
    }
}

/// What the status line shows of a message is what follows its marks, without the white space round it;
/// a message without a mark is only trimmed.
pub proof fn law_mark_is_taken_off(
    message: &str,
    rest: &str,
    short: &str,
    r: &str,
    shown: &str,
)
    requires
        message@ == ">>>"@ + rest@,
        call_ensures(without_mark, (message,), r),
        call_ensures(without_mark, (rest,), short),
        call_ensures(trim, (rest,), shown),
    ensures
        r@ == short@,
        !starts(rest@, ">>>"@) ==> short@ == shown@,
{
    reveal_strlit(">>>");
    assert(message@.subrange(0, 3) =~= ">>>"@);
    assert(message@.skip(3) =~= rest@);
}

/// Whether the update after the first `done` of `run` is announced by the last two messages of `told`,
/// and is what comes next.
pub open spec fn goes_on_with_update(run: UpdateRun, told: Seq<AppMessage>, next: UpdateNext) -> bool {
    let n = told.len() as int;
    let target = run.targets@[run.done as int];
    &&& n >= 2
    &&& told[n - 2] matches AppMessage::UpdatingComponent(kind) && kind == Some(target.kind)
    &&& told[n - 1] matches AppMessage::Status(line) && {
        &&& line.tone == StatusTone::Running
        &&& line.title@ == "Обновление "@ + target.title@
        &&& line.detail@ == "Загрузка и установка"@
        &&& line.progress == Some(((run.done + 1) as usize, run.targets@.len() as usize))
    }
    &&& next matches UpdateNext::Install(component) && component@ == target@
}

/// Whether `end` is how a run of updates ends: with the last failure, if any, and with a restart where
/// one is due.
pub open spec fn tells_end(run: UpdateRun, end: FinishState) -> bool {
    &&& end.had_error <==> run.last_error is Some
    &&& end.restart_required == run.restart_required
    &&& end.title@ == if run.last_error is Some {
        "Обновление завершено с ошибкой"@
    } else {
        "Обновление завершено"@
    }
    &&& run.last_error matches Some(error) ==> end.detail@ == error@
    &&& run.last_error is None ==> end.detail@ == if run.restart_required {
        "Приложение будет перезапущено"@
    } else {
        "Компоненты готовы к работе"@
    }
}

/// Whether the updates of `run` are over: that nothing is updated any more is told, and then either the
/// end of the run, where this program is started anew, or a check for updates follows.
pub open spec fn concludes(run: UpdateRun, told: Seq<AppMessage>, next: UpdateNext) -> bool {
    let n = if run.restart_required {
        told.len() - 1
    } else {
        told.len() as int
    };
    &&& n >= 2
    &&& told[n - 2] matches AppMessage::UpdatingComponent(kind) && kind is None
    &&& told[n - 1] matches AppMessage::Log(line) && line@ == "✅ Обновление завершено."@
    &&& run.restart_required ==> (told[n] matches AppMessage::AllFinished(end) && tells_end(
        run,
        end,
    )) && next is Nothing
    &&& !run.restart_required ==> next is Recheck
}

/// What a step tells of the run that it was made of.
proof fn lemma_update_step(run: UpdateRun, told: Seq<MessageModel>, step: UpdateStep)
    requires
        step@ == run@.step_after(told),
    ensures
        run.done < run.targets@.len() ==> goes_on_with_update(run, step.messages@, step.next),
        run.done >= run.targets@.len() ==> concludes(run, step.messages@, step.next),
        step.messages@.len() >= told.len() + 2,
        forall|i: int| 0 <= i < told.len() ==> (#[trigger] step.messages@[i])@ == told[i],
{
    let list = messages(step.messages@);
    let n = list.len() as int;
    assert(step@.messages == list);
    assert(run@.targets.len() == run.targets@.len());
    assert forall|i: int| 0 <= i < told.len() implies (#[trigger] step.messages@[i])@
        == told[i] by {
        assert(list[i] == step.messages@[i]@);
    }
    assert(list[n - 1] == step.messages@[n - 1]@);
    assert(list[n - 2] == step.messages@[n - 2]@);
    if run.done < run.targets@.len() {
        assert(run@.targets[run.done as int] == run.targets@[run.done as int]@);
        assert(list[n - 2] == run@.announcement()[0]);
        assert(list[n - 1] == run@.announcement()[1]);
    } else if run.restart_required {
        assert(list[n - 3] == step.messages@[n - 3]@);
        assert(list[n - 3] == conclusion()[0]);
        assert(list[n - 2] == conclusion()[1]);
    } else {
        assert(list[n - 2] == conclusion()[0]);
        assert(list[n - 1] == conclusion()[1]);
    }
}

/// A run of updates begins with its first component, with nothing done or failed so far.
pub proof fn law_updates_begin(targets: Vec<ComponentInfo>, run: UpdateRun, step: UpdateStep)
    requires
        targets@.len() > 0,
        call_ensures(UpdateRun::new, (targets,), run),
        call_ensures(UpdateRun::start, (&run,), step),
    ensures
        run.targets == targets,
        run.done == 0,
        run.last_error is None,
        !run.restart_required,
        goes_on_with_update(run, step.messages@, step.next),
{
    lemma_update_step(run, Seq::empty(), step);
}

/// After a component comes the next one, in order, and after the last one the conclusion. The components
/// stay the same. A failure is remembered under the title of the component; a success leaves the last
/// failure; and once a restart is due it stays due.
pub proof fn law_next_update_follows(
    run: &mut UpdateRun,
    result: Result<InstallResult, String>,
    step: UpdateStep,
)
    requires
        old(run).done < old(run).targets@.len(),
        call_ensures(UpdateRun::advance, (run, result), step),
    ensures
        final(run).done == old(run).done + 1,
        components(final(run).targets@) == components(old(run).targets@),
        result is Ok ==> opt_text(final(run).last_error) == opt_text(old(run).last_error),
        result matches Err(err) ==> (final(run).last_error matches Some(error) && error@ == old(run).targets@[old(run).done as int].title@ + ": "@ + err@),
        final(run).restart_required <==> old(run).restart_required || (result matches Ok(
            InstallResult::RestartRequired(_),
        )),
        old(run).done + 1 < old(run).targets@.len() ==> goes_on_with_update(
            *final(run),
            step.messages@,
            step.next,
        ),
        old(run).done + 1 == old(run).targets@.len() ==> concludes(
            *final(run),
            step.messages@,
            step.next,
        ),
{
    let a = *old(run);
    let b = *final(run);
    assert(components(a.targets@).len() == a.targets@.len());
    assert(components(b.targets@).len() == b.targets@.len());
    assert(a@.targets[a.done as int] == a.targets@[a.done as int]@);
    lemma_update_step(b, a@.report(install_outcome(result)), step);
}

/// What a run tells of an update that ended comes before anything else: the log and then the status, as
/// a success with what was installed or as an error with what the run remembers.
pub proof fn law_update_is_reported(
    run: &mut UpdateRun,
    result: Result<InstallResult, String>,
    step: UpdateStep,
)
    requires
        old(run).done < old(run).targets@.len(),
        call_ensures(UpdateRun::advance, (run, result), step),
    ensures
        ({
            let place = Some(((old(run).done + 1) as usize, old(run).targets@.len() as usize));
            let told = step.messages@;
            &&& result matches Ok(installed) ==> {
                let text = match installed {
                    InstallResult::Installed(message) => message@,
                    InstallResult::RestartRequired(message) => message@,
                };
                &&& told[0] matches AppMessage::Log(line) && line@ == "✅ "@ + text
                &&& told[1] matches AppMessage::Status(line) && line.tone == StatusTone::Success
                    && line.title@ == "Компонент обновлен"@ && line.detail@ == text
                    && line.progress == place
            }
            &&& result is Err ==> {
                let text = final(run).last_error->0@;
                &&& told[0] matches AppMessage::Log(line) && line@ == "❌ "@ + text
                &&& told[1] matches AppMessage::Status(line) && line.tone == StatusTone::Error
                    && line.title@ == "Ошибка обновления"@ && line.detail@ == text && line.progress
                    == place
            }
        }),
{
    let a = *old(run);
    let told = a@.report(install_outcome(result));
    assert(components(a.targets@).len() == a.targets@.len());
    lemma_update_step(*final(run), told, step);
    assert(step.messages@[0]@ == told[0]);
    assert(step.messages@[1]@ == told[1]);
}

/// After the check that follows the last update, its warnings are logged in order, then the components
/// are told, and the end of the run comes last.
pub proof fn law_recheck_ends_the_run(run: UpdateRun, report: UpdateReport, step: UpdateStep)
    requires
        call_ensures(UpdateRun::after_recheck, (&run, report), step),
    ensures
        step.next is Nothing,
        step.messages@.len() == report.warnings@.len() + 2,
        forall|i: int|
            0 <= i < report.warnings@.len() ==> ((#[trigger] step.messages@[i]) matches AppMessage::Log(
                line,
            ) && line@ == report.warnings@[i]@),
        step.messages@[report.warnings@.len() as int] matches AppMessage::UpdateSnapshot(list)
            && components(list@) == components(report.components@),
        step.messages@.last() matches AppMessage::AllFinished(end) && tells_end(run, end),
{
    let list = messages(step.messages@);
    let n = report.warnings@.len() as int;
    let logs = log_messages(texts(report.warnings@));
    assert(logs.len() == n);
    assert(list == logs.push(
        MessageModel::UpdateSnapshot(components(report.components@)),
    ).push(MessageModel::AllFinished(run@.finished())));
    assert(list.len() == step.messages@.len());
    assert forall|i: int| 0 <= i < n implies ((
    #[trigger] step.messages@[i]) matches AppMessage::Log(line) && line@
        == report.warnings@[i]@) by {
        assert(list[i] == step.messages@[i]@);
        assert(list[i] == logs[i]);
        assert(texts(report.warnings@)[i] == report.warnings@[i]@);
    }
    assert(list[n] == step.messages@[n]@);
    assert(list[n + 1] == step.messages@[n + 1]@);
}

/// What the first check for updates tells of a report: each of its warnings, in order, as a line of the
/// log and then as a warning without its mark, and at the end the components.
pub proof fn law_check_is_told(
    front: UpdateReport,
    warning: &str,
    all: UpdateReport,
    shown: &str,
    before: Vec<AppMessage>,
    r: Vec<AppMessage>,
)
    requires
        texts(all.warnings@) == texts(front.warnings@).push(warning@),
        call_ensures(without_mark, (warning,), shown),
        call_ensures(check_messages, (front,), before),
        call_ensures(check_messages, (all,), r),
    ensures
        front.warnings@.len() == 0 ==> before@.len() == 1,
        r@.len() == before@.len() + 2,
        forall|i: int| 0 <= i < before@.len() - 1 ==> (#[trigger] r@[i])@ == before@[i]@,
        r@[before@.len() - 1] matches AppMessage::Log(line) && line@ == warning@,
        r@[before@.len() as int] matches AppMessage::Status(line) && line.tone
            == StatusTone::Warning && line.title@ == "Проверка обновлений не завершена"@
            && line.detail@ == shown@ && line.progress is None,
        r@.last() matches AppMessage::UpdateSnapshot(list) && components(list@) == components(
            all.components@,
        ),
{
    let a = messages(before@);
    let b = messages(r@);
    assert(a.len() == before@.len() && b.len() == r@.len());
    assert(texts(all.warnings@).drop_last() =~= texts(front.warnings@));
    assert(texts(front.warnings@).len() == front.warnings@.len());
    let told = warning_messages(texts(front.warnings@));
    assert forall|i: int| 0 <= i < before@.len() - 1 implies (#[trigger] r@[i])@
        == before@[i]@ by {
        assert(a[i] == before@[i]@ && b[i] == r@[i]@);
        assert(a[i] == told[i] && b[i] == told[i]);
    }
    let n = told.len() as int;
    assert(b[n] == r@[n]@);
    assert(b[n + 1] == r@[n + 1]@);
    assert(b[n + 2] == r@[n + 2]@);
}

} // verus!
