//! The downloads of a list of links, one after another.
use crate::status::{
    messages, push_log, push_status, status, AppMessage, FinishModel, FinishState, MessageModel,
    StatusTone,
};
use crate::text::{
    cat, cat3, cat4, copy_texts, decimal, decimal_text, opt_text, push_text, signed_decimal,
    signed_text, texts,
};
use vstd::prelude::*;

verus! {

/// The downloads that are left, and what went wrong so far.
pub struct DownloadRun {
    /// The links.
    pub urls: Vec<String>,
    /// What yt-dlp is given for every link.
    pub config_args: Vec<String>,
    /// Where yt-dlp puts what it downloads.
    pub output_template: String,
    /// How many links are done.
    pub done: usize,
    /// What went wrong last.
    pub last_error: Option<String>,
}

/// What a run of downloads is.
#[verifier::ext_equal]
pub struct RunModel {
    pub urls: Seq<Seq<char>>,
    pub config_args: Seq<Seq<char>>,
    pub output_template: Seq<char>,
    pub done: nat,
    pub last_error: Option<Seq<char>>,
}

impl View for DownloadRun {
    type V = RunModel;

    open spec fn view(&self) -> RunModel {
        RunModel {
            urls: texts(self.urls@),
            config_args: texts(self.config_args@),
            output_template: self.output_template@,
            done: self.done as nat,
            last_error: opt_text(self.last_error),
        }
    }
}

/// How the download of one link ended.
pub enum DownloadOutcome {
    /// Yt-dlp could not be started, for this reason.
    NotStarted(String),
    /// The end of yt-dlp could not be waited for, for this reason.
    NotAwaited(String),
    /// Yt-dlp ended: whether well, with which code, and with which last error.
    Exited { success: bool, code: Option<i32>, stderr_error: Option<String> },
}

/// An exit code in words.
pub open spec fn code_text(code: Option<i32>) -> Seq<char> {
    match code {
        Some(code) => signed_decimal(code as int),
        None => "без кода"@,
    }
}

/// What is said of yt-dlp when it ended badly.
pub open spec fn exit_text(code: Option<i32>) -> Seq<char> {
    "yt-dlp завершился с кодом "@ + code_text(code)
}

impl DownloadOutcome {
    /// What went wrong.
    pub open spec fn failure(self) -> Option<Seq<char>> {
        match self {
            DownloadOutcome::NotStarted(err) => Some("Ошибка запуска yt-dlp: "@ + err@),
            DownloadOutcome::NotAwaited(err) => Some(
                "Не удалось дождаться завершения yt-dlp: "@ + err@,
            ),
            DownloadOutcome::Exited { success, code, stderr_error } => if success {
                None
            } else {
                match stderr_error {
                    Some(error) => Some(error@),
                    None => Some(exit_text(code)),
                }
            },
        }
    }

    /// What is logged of it.
    pub open spec fn failure_log(self) -> Seq<char> {
        match self {
            DownloadOutcome::Exited { code, .. } => "❌ "@ + exit_text(code),
            _ => "❌ "@ + self.failure()->0,
        }
    }

    /// What went wrong, and what is logged of it.
    fn describe(self) -> (r: Option<(String, String)>)
        ensures
            match r {
                Some((detail, log)) => self.failure() == Some(detail@) && log@
                    == self.failure_log(),
                None => self.failure() is None,
            },
    {
        match self {
            DownloadOutcome::NotStarted(err) => {
                let detail = cat("Ошибка запуска yt-dlp: ", err.as_str());
                let log = cat("❌ ", detail.as_str());
                Some((detail, log))
            },
            DownloadOutcome::NotAwaited(err) => {
                let detail = cat("Не удалось дождаться завершения yt-dlp: ", err.as_str());
                let log = cat("❌ ", detail.as_str());
                Some((detail, log))
            },
            DownloadOutcome::Exited { success, code, stderr_error } => {
                if success {
                    return None;
                }
                let exit_code = match code {
                    Some(code) => signed_text(code),
                    None => "без кода".to_owned(),
                };
                let text = cat("yt-dlp завершился с кодом ", exit_code.as_str());
                let log = cat("❌ ", text.as_str());
                match stderr_error {
                    Some(error) => Some((error, log)),
                    None => Some((text, log)),
                }
            },
        }
    }
}

impl RunModel {
    /// Whether the run is under way: not all links are done, and there are no more done than there
    /// are links.
    pub open spec fn has_next(self) -> bool {
        self.done < self.urls.len()
    }

    /// How far the run has come with the next link.
    pub open spec fn progress(self) -> Option<(usize, usize)> {
        Some(((self.done + 1) as usize, self.urls.len() as usize))
    }

    /// What yt-dlp is given for the next link.
    pub open spec fn command(self) -> Seq<Seq<char>> {
        seq!["--newline"@] + self.config_args + seq![
            "-o"@,
            self.output_template,
            self.urls[self.done as int],
        ]
    }

    /// What is told before the next link is downloaded.
    pub open spec fn announcement(self) -> Seq<MessageModel> {
        let url = self.urls[self.done as int];
        let place = decimal(self.done + 1);
        let total = decimal(self.urls.len());
        seq![
            MessageModel::Status(
                status(
                    StatusTone::Running,
                    "Скачивание "@ + place + " из "@ + total,
                    url,
                    self.progress(),
                ),
            ),
            MessageModel::Log(">>> ["@ + place + "/"@ + total + "] "@ + url),
        ]
    }

    /// What is told after the next link was downloaded.
    pub open spec fn report(self, outcome: DownloadOutcome) -> Seq<MessageModel> {
        match outcome.failure() {
            Some(detail) => seq![
                MessageModel::Log(outcome.failure_log()),
                MessageModel::Status(
                    status(StatusTone::Error, "Ошибка загрузки"@, detail, self.progress()),
                ),
            ],
            None => seq![
                MessageModel::Status(
                    status(
                        StatusTone::Success,
                        "Ссылка загружена"@,
                        self.urls[self.done as int],
                        self.progress(),
                    ),
                ),
            ],
        }
    }

    /// The run after the next link was downloaded.
    pub open spec fn recorded(self, outcome: DownloadOutcome) -> RunModel {
        RunModel {
            done: self.done + 1,
            last_error: if outcome.failure() is Some {
                outcome.failure()
            } else {
                self.last_error
            },
            ..self
        }
    }

    /// How the run ended.
    pub open spec fn finished(self) -> FinishModel {
        match self.last_error {
            Some(error) => FinishModel {
                had_error: true,
                restart_required: false,
                title: "Загрузка завершена с ошибкой"@,
                detail: error,
            },
            None => FinishModel {
                had_error: false,
                restart_required: false,
                title: "Загрузка завершена"@,
                detail: "Скачано: "@ + decimal(self.urls.len()) + " файл(ов)"@,
            },
        }
    }
}

impl DownloadRun {
    /// Whether a link is left.
    pub fn has_next(&self) -> (r: bool)
        ensures
            r == self@.has_next(),
    {
        self.done < self.urls.len()
    }

    /// What yt-dlp is given for the next link.
    pub fn next_command(&self) -> (r: Vec<String>)
        requires
            self@.has_next(),
        ensures
            texts(r@) == self@.command(),
    {
        let mut args: Vec<String> = Vec::new();
        push_text(&mut args, "--newline");
        let mut config_args = copy_texts(&self.config_args);
        let ghost front = texts(args@);
        let ghost given = texts(config_args@);
        args.append(&mut config_args);
        assert(texts(args@) =~= front + given);
        push_text(&mut args, "-o");
        push_text(&mut args, self.output_template.as_str());
        push_text(&mut args, self.urls[self.done].as_str());
        assert(texts(args@) =~= self@.command());
        args
    }

    /// What is told before the next link is downloaded.
    pub fn announce_next(&self) -> (r: Vec<AppMessage>)
        requires
            self@.has_next(),
        ensures
            messages(r@) == self@.announcement(),
    {
        let total: usize = self.urls.len();
        let place: usize = self.done + 1;
        let url = self.urls[self.done].as_str();
        let place_text = decimal_text(place as u128);
        let total_text = decimal_text(total as u128);
        let mut list: Vec<AppMessage> = Vec::new();
        let title = cat4("Скачивание ", place_text.as_str(), " из ", total_text.as_str());
        push_status(
            &mut list,
            StatusTone::Running,
            title.as_str(),
            url,
            Some((place, total)),
        );
        let counter = cat4(">>> [", place_text.as_str(), "/", total_text.as_str());
        let line = cat3(counter.as_str(), "] ", url);
        push_log(&mut list, line.as_str());
        assert(messages(list@) =~= self@.announcement());
        list
    }

    /// Takes note of how the download of the next link ended, and tells of it.
    pub fn record(&mut self, outcome: DownloadOutcome) -> (r: Vec<AppMessage>)
        requires
            old(self)@.has_next(),
        ensures
            final(self)@ == old(self)@.recorded(outcome),
            messages(r@) == old(self)@.report(outcome),
    {
        let total: usize = self.urls.len();
        let place: usize = self.done + 1;
        let mut list: Vec<AppMessage> = Vec::new();
        match outcome.describe() {
            Some((detail, log)) => {
                push_log(&mut list, log.as_str());
                push_status(
                    &mut list,
                    StatusTone::Error,
                    "Ошибка загрузки",
                    detail.as_str(),
                    Some((place, total)),
                );
                self.last_error = Some(detail);
            },
            None => {
                push_status(
                    &mut list,
                    StatusTone::Success,
                    "Ссылка загружена",
                    self.urls[self.done].as_str(),
                    Some((place, total)),
                );
            },
        }
        self.done = place;
        assert(messages(list@) =~= old(self)@.report(outcome));
        list
    }

    /// How the run ended.
    pub fn finish(&self) -> (r: FinishState)
        ensures
            r@ == self@.finished(),
    {
        match &self.last_error {
            Some(error) => FinishState {
                had_error: true,
                restart_required: false,
                title: "Загрузка завершена с ошибкой".to_owned(),
                detail: error.clone(),
            },
            None => {
                let total = decimal_text(self.urls.len() as u128);
                FinishState {
                    had_error: false,
                    restart_required: false,
                    title: "Загрузка завершена".to_owned(),
                    detail: cat3("Скачано: ", total.as_str(), " файл(ов)"),
                }
            },
        }
    }
}

/// What is to be done next in a run: the messages are sent, and then yt-dlp is run with the command.
/// Without a command the run is over.
pub struct DownloadStep {
    pub messages: Vec<AppMessage>,
    pub command: Option<Vec<String>>,
}

/// What a step is.
#[verifier::ext_equal]
pub struct StepModel {
    pub messages: Seq<MessageModel>,
    pub command: Option<Seq<Seq<char>>>,
}

impl View for DownloadStep {
    type V = StepModel;

    open spec fn view(&self) -> StepModel {
        StepModel {
            messages: messages(self.messages@),
            command: match self.command {
                Some(args) => Some(texts(args@)),
                None => None,
            },
        }
    }
}

impl RunModel {
    /// The step that follows once `told` is to be sent: the next link is announced and downloaded,
    /// or, where none is left, the end of the run is told.
    pub open spec fn step_after(self, told: Seq<MessageModel>) -> StepModel {
        if self.has_next() {
            StepModel { messages: told + self.announcement(), command: Some(self.command()) }
        } else {
            StepModel {
                messages: told.push(MessageModel::AllFinished(self.finished())),
                command: None,
            }
        }
    }
}

impl DownloadRun {
    /// The step that follows once `told` is to be sent.
    fn go_on(&self, told: Vec<AppMessage>) -> (r: DownloadStep)
        ensures
            r@ == self@.step_after(messages(told@)),
    {
        let ghost before = messages(told@);
        let mut list = told;
        if self.has_next() {
            let mut announcement = self.announce_next();
            let ghost more = messages(announcement@);
            list.append(&mut announcement);
            assert(messages(list@) =~= before + more);
            DownloadStep { messages: list, command: Some(self.next_command()) }
        } else {
            let finish = self.finish();
            list.push(AppMessage::AllFinished(finish));
            assert(messages(list@) =~= before.push(MessageModel::AllFinished(finish@)));
            DownloadStep { messages: list, command: None }
        }
    }

    /// What a run begins with.
    pub fn start(&self) -> (r: DownloadStep)
        ensures
            r@ == self@.step_after(Seq::empty()),
    {
        let told: Vec<AppMessage> = Vec::new();
        assert(messages(told@) =~= Seq::<MessageModel>::empty());
        self.go_on(told)
    }

    /// Goes on after the download of a link ended.
    pub fn advance(&mut self, outcome: DownloadOutcome) -> (r: DownloadStep)
        requires
            old(self)@.has_next(),
        ensures
            final(self)@ == old(self)@.recorded(outcome),
            r@ == old(self)@.recorded(outcome).step_after(old(self)@.report(outcome)),
    {
        let told = self.record(outcome);
        self.go_on(told)
    }
}

/// The run after the downloads ended as `outcomes` tells.
pub open spec fn run_after(run: RunModel, outcomes: Seq<DownloadOutcome>) -> RunModel
    decreases outcomes.len(),
{
    if outcomes.len() == 0 {
        run
    } else {
        run_after(run, outcomes.drop_last()).recorded(outcomes.last())
    }
}

/// What went wrong last among `outcomes`.
pub open spec fn last_failure(outcomes: Seq<DownloadOutcome>) -> Option<Seq<char>>
    decreases outcomes.len(),
{
    if outcomes.len() == 0 {
        None
    } else if outcomes.last().failure() is Some {
        outcomes.last().failure()
    } else {
        last_failure(outcomes.drop_last())
    }
}

/// Each outcome brings a run one link further; the links and the arguments stay.
proof fn lemma_run_after(run: RunModel, outcomes: Seq<DownloadOutcome>)
    ensures
        ({
            let after = run_after(run, outcomes);
            &&& after.done == run.done + outcomes.len()
            &&& after.urls == run.urls
            &&& after.config_args == run.config_args
            &&& after.output_template == run.output_template
            &&& after.last_error == if last_failure(outcomes) is Some {
                last_failure(outcomes)
            } else {
                run.last_error
            }
        }),
    decreases outcomes.len(),
{
    if outcomes.len() > 0 {
        lemma_run_after(run, outcomes.drop_last());
    }
}

/// Nothing went wrong exactly where no outcome is a failure.
proof fn lemma_no_failure(outcomes: Seq<DownloadOutcome>)
    ensures
        last_failure(outcomes) is None <==> forall|i: int|
            0 <= i < outcomes.len() ==> (#[trigger] outcomes[i]).failure() is None,
    decreases outcomes.len(),
{
    if outcomes.len() > 0 {
        let front = outcomes.drop_last();
        let last = outcomes.len() - 1;
        lemma_no_failure(front);
        assert(outcomes[last] == outcomes.last());
        if last_failure(outcomes) is None {
            assert forall|i: int| 0 <= i < outcomes.len() implies (
            #[trigger] outcomes[i]).failure() is None by {
                if i < last {
                    assert(front[i] == outcomes[i]);
                }
            }
        } else if outcomes.last().failure() is None {
            let i = choose|i: int| 0 <= i < front.len() && (#[trigger] front[i]).failure() is Some;
            assert(outcomes[i] == front[i]);
        }
    }
}

/// The failure that no other follows is the last one.
proof fn lemma_last_failure(outcomes: Seq<DownloadOutcome>, i: int)
    requires
        0 <= i < outcomes.len(),
        outcomes[i].failure() is Some,
        forall|j: int| i < j < outcomes.len() ==> (#[trigger] outcomes[j]).failure() is None,
    ensures
        last_failure(outcomes) == outcomes[i].failure(),
    decreases outcomes.len(),
{
    let last = outcomes.len() - 1;
    if i < last {
        let front = outcomes.drop_last();
        assert(outcomes[last].failure() is None);
        assert forall|j: int| i < j < front.len() implies (
        #[trigger] front[j]).failure() is None by {
            assert(front[j] == outcomes[j]);
        }
        assert(front[i] == outcomes[i]);
        lemma_last_failure(front, i);
    }
}

/// Each outcome brings a run one link further, and the links and the arguments stay what they were.
pub proof fn law_run_goes_on(run: RunModel, outcomes: Seq<DownloadOutcome>)
    ensures
        run_after(run, outcomes).done == run.done + outcomes.len(),
        run_after(run, outcomes).urls == run.urls,
        run_after(run, outcomes).config_args == run.config_args,
        run_after(run, outcomes).output_template == run.output_template,
{
    lemma_run_after(run, outcomes);
}

/// A run ends with an error exactly where the download of one of its links went wrong.
pub proof fn law_run_reports_failure(run: RunModel, outcomes: Seq<DownloadOutcome>)
    requires
        run.last_error is None,
    ensures
        run_after(run, outcomes).finished().had_error <==> exists|i: int|
            0 <= i < outcomes.len() && (#[trigger] outcomes[i]).failure() is Some,
{
    lemma_run_after(run, outcomes);
    lemma_no_failure(outcomes);
}

/// What a run reports at its end is what went wrong last.
pub proof fn law_run_reports_last_failure(run: RunModel, outcomes: Seq<DownloadOutcome>, i: int)
    requires
        0 <= i < outcomes.len(),
        outcomes[i].failure() is Some,
        forall|j: int| i < j < outcomes.len() ==> (#[trigger] outcomes[j]).failure() is None,
    ensures
        run_after(run, outcomes).last_error == outcomes[i].failure(),
        run_after(run, outcomes).finished().had_error,
        run_after(run, outcomes).finished().detail == outcomes[i].failure()->0,
{
    lemma_run_after(run, outcomes);
    lemma_last_failure(outcomes, i);
}

/// What was sent from the start of a run until after the last of `outcomes`.
pub open spec fn sent(run: RunModel, outcomes: Seq<DownloadOutcome>) -> Seq<MessageModel>
    decreases outcomes.len(),
{
    if outcomes.len() == 0 {
        run.step_after(Seq::empty()).messages
    } else {
        let before = run_after(run, outcomes.drop_last());
        let told = before.report(outcomes.last());
        sent(run, outcomes.drop_last()) + before.recorded(outcomes.last()).step_after(
            told,
        ).messages
    }
}

/// What is told of the links that ended as `outcomes` tells: the announcement of each, and how it
/// ended, in order.
pub open spec fn link_messages(run: RunModel, outcomes: Seq<DownloadOutcome>) -> Seq<MessageModel>
    decreases outcomes.len(),
{
    if outcomes.len() == 0 {
        Seq::empty()
    } else {
        let before = run_after(run, outcomes.drop_last());
        link_messages(run, outcomes.drop_last()) + before.announcement() + before.report(
            outcomes.last(),
        )
    }
}

/// Up to any link, a run has told of the links before, and then announced the link or told its end.
proof fn lemma_sent(run: RunModel, outcomes: Seq<DownloadOutcome>)
    requires
        run.done + outcomes.len() <= run.urls.len(),
    ensures
        sent(run, outcomes) == run_after(run, outcomes).step_after(
            link_messages(run, outcomes),
        ).messages,
    decreases outcomes.len(),
{
    if outcomes.len() > 0 {
        let front = outcomes.drop_last();
        lemma_sent(run, front);
        lemma_run_after(run, front);
        lemma_run_after(run, outcomes);
        assert(sent(run, outcomes) =~= run_after(run, outcomes).step_after(
            link_messages(run, outcomes),
        ).messages);
    }
}

/// What is told of links never tells the end of the run.
proof fn lemma_links_tell_no_end(run: RunModel, outcomes: Seq<DownloadOutcome>)
    ensures
        forall|i: int|
            0 <= i < link_messages(run, outcomes).len() ==> !((#[trigger] link_messages(
                run,
                outcomes,
            )[i]) is AllFinished),
    decreases outcomes.len(),
{
    if outcomes.len() > 0 {
        let front = outcomes.drop_last();
        lemma_links_tell_no_end(run, front);
        let before = run_after(run, front);
        let all = link_messages(run, outcomes);
        let a = link_messages(run, front);
        let b = before.announcement();
        let c = before.report(outcomes.last());
        assert forall|i: int| 0 <= i < all.len() implies !((#[trigger] all[i]) is AllFinished) by {
            if i < a.len() {
                assert(all[i] == a[i]);
            } else if i < a.len() + b.len() {
                assert(all[i] == b[i - a.len()]);
            } else {
                assert(all[i] == c[i - a.len() - b.len()]);
            }
        }
    }
}

/// A run whose links all ended has told of each link in order, first its announcement and then how
/// it ended; the end of the run comes last, and only once. Until then yt-dlp is run for the next
/// link, and after it no more.
pub proof fn law_run_tells_in_order(run: RunModel, outcomes: Seq<DownloadOutcome>)
    requires
        run.done + outcomes.len() == run.urls.len(),
    ensures
        sent(run, outcomes) == link_messages(run, outcomes).push(
            MessageModel::AllFinished(run_after(run, outcomes).finished()),
        ),
        forall|i: int|
            0 <= i < sent(run, outcomes).len() - 1 ==> !((#[trigger] sent(
                run,
                outcomes,
            )[i]) is AllFinished),
        forall|n: int, told: Seq<MessageModel>|
            0 <= n <= outcomes.len() ==> ((#[trigger] run_after(run, outcomes.take(n)).step_after(
                told,
            )).command is Some <==> n < outcomes.len()),
{
    lemma_sent(run, outcomes);
    lemma_run_after(run, outcomes);
    lemma_links_tell_no_end(run, outcomes);
    let all = link_messages(run, outcomes);
    assert forall|i: int| 0 <= i < sent(run, outcomes).len() - 1 implies !((#[trigger] sent(
        run,
        outcomes,
    )[i]) is AllFinished) by {
        assert(sent(run, outcomes)[i] == all[i]);
    }
    assert forall|n: int, told: Seq<MessageModel>| 0 <= n <= outcomes.len() implies ((
    #[trigger] run_after(run, outcomes.take(n)).step_after(told)).command is Some <==> n
        < outcomes.len()) by {
        lemma_run_after(run, outcomes.take(n));
    }
}

/// The link that is next is the last thing that yt-dlp is given for it, after where to put the
/// download; before these stand the arguments of the run, in their order.
pub proof fn law_command_downloads_the_next_link(run: &DownloadRun, r: Vec<String>)
    requires
        run.done < run.urls@.len(),
        call_ensures(DownloadRun::next_command, (run,), r),
    ensures
        r@.len() == run.config_args@.len() + 4,
        r@[0]@ == "--newline"@,
        forall|i: int|
            0 <= i < run.config_args@.len() ==> (#[trigger] r@[i + 1])@ == run.config_args@[i]@,
        r@[r@.len() - 3]@ == "-o"@,
        r@[r@.len() - 2]@ == run.output_template@,
        r@[r@.len() - 1]@ == run.urls@[run.done as int]@,
{
    let list = texts(r@);
    let n = r@.len() as int;
    assert(list.len() == run.config_args@.len() + 4);
    assert(list[0] == r@[0]@);
    assert forall|i: int| 0 <= i < run.config_args@.len() implies (#[trigger] r@[i + 1])@
        == run.config_args@[i]@ by {
        assert(list[i + 1] == r@[i + 1]@);
        assert(run@.config_args[i] == run.config_args@[i]@);
    }
    assert(list[n - 3] == r@[n - 3]@);
    assert(list[n - 2] == r@[n - 2]@);
    assert(list[n - 1] == r@[n - 1]@);
    assert(run@.urls[run.done as int] == run.urls@[run.done as int]@);
}

/// Whether the link after the first `done` of `run` is announced by the last two messages of `told`,
/// and downloaded by `command`.
pub open spec fn goes_on_with_link(
    run: DownloadRun,
    told: Seq<AppMessage>,
    command: Option<Vec<String>>,
) -> bool {
    let n = told.len() as int;
    let url = run.urls@[run.done as int]@;
    &&& n >= 2
    &&& told[n - 2] matches AppMessage::Status(line) && {
        &&& line.tone == StatusTone::Running
        &&& line.title@ == "Скачивание "@ + decimal((run.done + 1) as nat) + " из "@ + decimal(
            run.urls@.len(),
        )
        &&& line.detail@ == url
        &&& line.progress == Some(((run.done + 1) as usize, run.urls@.len() as usize))
    }
    &&& told[n - 1] matches AppMessage::Log(line) && line@ == ">>> ["@ + decimal(
        (run.done + 1) as nat,
    ) + "/"@ + decimal(run.urls@.len()) + "] "@ + url
    &&& command matches Some(args) && {
        &&& args@.len() == run.config_args@.len() + 4
        &&& args@[args@.len() - 1]@ == url
        &&& args@[args@.len() - 2]@ == run.output_template@
    }
}

/// Whether the last message of `told` is that `run` is over, and nothing is downloaded any more.
pub open spec fn ends_run(
    run: DownloadRun,
    told: Seq<AppMessage>,
    command: Option<Vec<String>>,
) -> bool {
    &&& told.len() > 0
    &&& told.last() matches AppMessage::AllFinished(end) && {
        &&& end.had_error <==> run.last_error is Some
        &&& !end.restart_required
        &&& end.title@ == if run.last_error is Some {
            "Загрузка завершена с ошибкой"@
        } else {
            "Загрузка завершена"@
        }
        &&& run.last_error matches Some(error) ==> end.detail@ == error@
        &&& run.last_error is None ==> end.detail@ == "Скачано: "@ + decimal(run.urls@.len())
            + " файл(ов)"@
    }
    &&& command is None
}

/// What a step tells of the run that it was made of.
proof fn lemma_step(run: DownloadRun, told: Seq<MessageModel>, step: DownloadStep)
    requires
        step@ == run@.step_after(told),
    ensures
        run.done < run.urls@.len() ==> step.messages@.len() == told.len() + 2 && goes_on_with_link(
            run,
            step.messages@,
            step.command,
        ),
        run.done >= run.urls@.len() ==> step.messages@.len() == told.len() + 1 && ends_run(
            run,
            step.messages@,
            step.command,
        ),
        forall|i: int| 0 <= i < told.len() ==> (#[trigger] step.messages@[i])@ == told[i],
{
    let list = messages(step.messages@);
    let n = list.len() as int;
    assert(step@.messages == list);
    assert forall|i: int| 0 <= i < told.len() implies (#[trigger] step.messages@[i])@
        == told[i] by {
        assert(list[i] == step.messages@[i]@);
    }
    assert(list[n - 1] == step.messages@[n - 1]@);
    if run.done < run.urls@.len() {
        assert(list[n - 2] == step.messages@[n - 2]@);
        assert(list[n - 2] == run@.announcement()[0]);
        assert(list[n - 1] == run@.announcement()[1]);
        let args = step.command->0;
        let texts_of = texts(args@);
        let m = args@.len() as int;
        assert(step@.command == Some(run@.command()));
        assert(step.command is Some && step@.command == Some(texts_of));
        assert(texts_of.len() == m);
        assert(run@.config_args.len() == run.config_args@.len());
        assert(texts_of[m - 1] == args@[m - 1]@);
        assert(texts_of[m - 2] == args@[m - 2]@);
        assert(run@.urls[run.done as int] == run.urls@[run.done as int]@);
    }
}

/// A run begins with the first link that is not done, and is over where there is none.
pub proof fn law_run_begins(run: &DownloadRun, step: DownloadStep)
    requires
        call_ensures(DownloadRun::start, (run,), step),
    ensures
        run.done < run.urls@.len() ==> goes_on_with_link(*run, step.messages@, step.command),
        run.done >= run.urls@.len() ==> ends_run(*run, step.messages@, step.command),
{
    lemma_step(*run, Seq::empty(), step);
}

/// After a link comes the next one, and after the last one the end of the run. The links, the
/// arguments and the place for downloads stay the same.
pub proof fn law_next_link_follows(
    run: &mut DownloadRun,
    outcome: DownloadOutcome,
    step: DownloadStep,
)
    requires
        old(run).done < old(run).urls@.len(),
        call_ensures(DownloadRun::advance, (run, outcome), step),
    ensures
        final(run).done == old(run).done + 1,
        final(run).urls@.len() == old(run).urls@.len(),
        forall|i: int|
            0 <= i < old(run).urls@.len() ==> (#[trigger] final(run).urls@[i])@ == old(run).urls@[i]@,
        final(run).config_args@.len() == old(run).config_args@.len(),
        forall|i: int|
            0 <= i < old(run).config_args@.len() ==> (#[trigger] final(run).config_args@[i])@
                == old(run).config_args@[i]@,
        final(run).output_template@ == old(run).output_template@,
        old(run).done + 1 < old(run).urls@.len() ==> goes_on_with_link(
            *final(run),
            step.messages@,
            step.command,
        ),
        old(run).done + 1 == old(run).urls@.len() ==> ends_run(
            *final(run),
            step.messages@,
            step.command,
        ),
{
    let a = *old(run);
    let b = *final(run);
    assert(b@.urls == a@.urls);
    assert(texts(b.urls@).len() == texts(a.urls@).len());
    assert(texts(b.config_args@).len() == texts(a.config_args@).len());
    assert forall|i: int| 0 <= i < a.urls@.len() implies (#[trigger] b.urls@[i])@
        == a.urls@[i]@ by {
        assert(texts(b.urls@)[i] == b.urls@[i]@);
        assert(texts(a.urls@)[i] == a.urls@[i]@);
    }
    assert forall|i: int| 0 <= i < a.config_args@.len() implies (#[trigger] b.config_args@[i])@
        == a.config_args@[i]@ by {
        assert(texts(b.config_args@)[i] == b.config_args@[i]@);
        assert(texts(a.config_args@)[i] == a.config_args@[i]@);
    }
    lemma_step(b, a@.report(outcome), step);
}

/// A link is downloaded exactly where yt-dlp was started, ended and ended well; then the error of an
/// earlier link, if any, stays. Otherwise the run remembers what went wrong: the last error that
/// yt-dlp gave, or else its exit code, or why it was not started or not awaited.
pub proof fn law_failed_link_is_remembered(
    run: &mut DownloadRun,
    outcome: DownloadOutcome,
    step: DownloadStep,
)
    requires
        old(run).done < old(run).urls@.len(),
        call_ensures(DownloadRun::advance, (run, outcome), step),
    ensures
        outcome matches DownloadOutcome::Exited { success, .. } ==> success ==> opt_text(
            final(run).last_error,
        ) == opt_text(old(run).last_error),
        outcome matches DownloadOutcome::NotStarted(err) ==> (final(run).last_error matches Some(
            text,
        ) && text@ == "Ошибка запуска yt-dlp: "@ + err@),
        outcome matches DownloadOutcome::NotAwaited(err) ==> (final(run).last_error matches Some(
            text,
        ) && text@ == "Не удалось дождаться завершения yt-dlp: "@ + err@),
        outcome matches DownloadOutcome::Exited { success, stderr_error, .. } ==> !success
            && stderr_error is Some ==> (final(run).last_error matches Some(text) && text@
            == stderr_error->0@),
        outcome matches DownloadOutcome::Exited { success, code, stderr_error } ==> !success
            && stderr_error is None && code is Some ==> (final(run).last_error matches Some(text)
            && text@ == "yt-dlp завершился с кодом "@ + signed_decimal(code->0 as int)),
        outcome matches DownloadOutcome::Exited { success, code, stderr_error } ==> !success
            && stderr_error is None && code is None ==> (final(run).last_error matches Some(text)
            && text@ == "yt-dlp завершился с кодом "@ + "без кода"@),
{
}

/// What a run tells of a link that ended comes before anything else: that it was downloaded, or the
/// log and then the error that the run remembers of it; each with the place of the link.
pub proof fn law_link_is_reported(
    run: &mut DownloadRun,
    outcome: DownloadOutcome,
    step: DownloadStep,
)
    requires
        old(run).done < old(run).urls@.len(),
        call_ensures(DownloadRun::advance, (run, outcome), step),
    ensures
        ({
            let place = Some(((old(run).done + 1) as usize, old(run).urls@.len() as usize));
            let told = step.messages@;
            let well = outcome matches DownloadOutcome::Exited { success, .. } && success;
            &&& well ==> (told[0] matches AppMessage::Status(line) && line.tone
                == StatusTone::Success && line.title@ == "Ссылка загружена"@ && line.detail@ == old(run).urls@[old(run).done as int]@ && line.progress == place)
            &&& !well ==> told[0] is Log && (told[1] matches AppMessage::Status(line) && line.tone
                == StatusTone::Error && line.title@ == "Ошибка загрузки"@ && line.detail@ == final(run).last_error->0@ && line.progress == place)
        }),
{
    let a = *old(run);
    let b = *final(run);
    lemma_step(b, a@.report(outcome), step);
    assert(a@.urls[a.done as int] == a.urls@[a.done as int]@);
    assert(step.messages@[0]@ == a@.report(outcome)[0]);
    if outcome.failure() is Some {
        assert(step.messages@[1]@ == a@.report(outcome)[1]);
    }
}

/// What is logged of a failure names the exit code where yt-dlp ended, and the cause where not.
pub proof fn law_failure_is_logged(
    run: &mut DownloadRun,
    outcome: DownloadOutcome,
    step: DownloadStep,
)
    requires
        old(run).done < old(run).urls@.len(),
        call_ensures(DownloadRun::advance, (run, outcome), step),
    ensures
        outcome matches DownloadOutcome::NotStarted(err) ==> (step.messages@[0] matches AppMessage::Log(
            line,
        ) && line@ == "❌ "@ + ("Ошибка запуска yt-dlp: "@ + err@)),
        outcome matches DownloadOutcome::NotAwaited(err) ==> (step.messages@[0] matches AppMessage::Log(
            line,
        ) && line@ == "❌ "@ + ("Не удалось дождаться завершения yt-dlp: "@ + err@)),
        outcome matches DownloadOutcome::Exited { success, code, .. } ==> !success && code is Some
            ==> (step.messages@[0] matches AppMessage::Log(line) && line@ == "❌ "@
            + ("yt-dlp завершился с кодом "@ + signed_decimal(code->0 as int))),
        outcome matches DownloadOutcome::Exited { success, code, .. } ==> !success && code is None
            ==> (step.messages@[0] matches AppMessage::Log(line) && line@ == "❌ "@
            + ("yt-dlp завершился с кодом "@ + "без кода"@)),
{
    let a = *old(run);
    lemma_step(*final(run), a@.report(outcome), step);
    assert(step.messages@[0]@ == a@.report(outcome)[0]);
}

} // verus!
