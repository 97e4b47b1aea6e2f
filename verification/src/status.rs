//! What the program says: the status line, and the messages of its background work.
use crate::text::{cat3, decimal, decimal_text, opt_text};
use crate::theme::Rgb;
use crate::updater::{components, ComponentInfo, ComponentKind, ComponentModel};
use vstd::prelude::*;

verus! {

/// The tone of a status.
#[derive(Clone, Copy, Debug, PartialEq, Eq, Structural)]
pub enum StatusTone {
    Idle,
    Running,
    Success,
    Warning,
    Error,
}

/// A color by its purpose.
#[derive(Clone, Copy, Debug, PartialEq, Eq, Structural)]
pub enum ColorRole {
    /// The palette's color of secondary text.
    Secondary,
    /// The palette's color of success.
    Success,
    /// The toolkit's color of warnings.
    Warning,
    /// The toolkit's color of errors.
    Error,
    /// This color.
    Fixed(Rgb),
}

impl StatusTone {
    /// The color of a status in this tone.
    pub open spec fn role(self) -> ColorRole {
        match self {
            StatusTone::Idle => ColorRole::Secondary,
            StatusTone::Running => ColorRole::Fixed(Rgb { r: 245, g: 184, b: 82 }),
            StatusTone::Success => ColorRole::Success,
            StatusTone::Warning => ColorRole::Warning,
            StatusTone::Error => ColorRole::Error,
        }
    }

    /// The color of a status in this tone.
    pub fn status_color(self) -> (r: ColorRole)
        ensures
            r == self.role(),
    {
        match self {
            StatusTone::Idle => ColorRole::Secondary,
            StatusTone::Running => ColorRole::Fixed(Rgb::from_rgb(245, 184, 82)),
            StatusTone::Success => ColorRole::Success,
            StatusTone::Warning => ColorRole::Warning,
            StatusTone::Error => ColorRole::Error,
        }
    }
}

/// The status line.
#[derive(Debug)]
pub struct StatusMessage {
    pub tone: StatusTone,
    pub title: String,
    pub detail: String,
    pub progress: Option<(usize, usize)>,
}

/// What the status line says.
#[verifier::ext_equal]
pub struct StatusModel {
    pub tone: StatusTone,
    pub title: Seq<char>,
    pub detail: Seq<char>,
    pub progress: Option<(usize, usize)>,
}

impl View for StatusMessage {
    type V = StatusModel;

    open spec fn view(&self) -> StatusModel {
        StatusModel {
            tone: self.tone,
            title: self.title@,
            detail: self.detail@,
            progress: self.progress,
        }
    }
}

/// The status with the given parts.
pub open spec fn status(
    tone: StatusTone,
    title: Seq<char>,
    detail: Seq<char>,
    progress: Option<(usize, usize)>,
) -> StatusModel {
    StatusModel { tone, title, detail, progress }
}

impl StatusMessage {
    /// What the status line says before anything was done.
    pub open spec fn idle_model() -> StatusModel {
        status(
            StatusTone::Idle,
            "Готов к загрузке"@,
            "Добавьте ссылку и нажмите Скачать"@,
            None,
        )
    }

    /// The status before anything was done.
    pub fn idle() -> (r: Self)
        ensures
            r@ == Self::idle_model(),
    {
        Self::new(
            StatusTone::Idle,
            "Готов к загрузке",
            "Добавьте ссылку и нажмите Скачать",
            None,
        )
    }

    /// The status with the given parts.
    pub fn new(
        tone: StatusTone,
        title: &str,
        detail: &str,
        progress: Option<(usize, usize)>,
    ) -> (r: Self)
        ensures
            r@ == status(tone, title@, detail@, progress),
    {
        StatusMessage { tone, title: title.to_owned(), detail: detail.to_owned(), progress }
    }

    /// Whether a spinner is shown in place of a dot.
    pub fn spins(&self) -> (r: bool)
        ensures
            r == (self@.tone == StatusTone::Running),
    {
        self.tone == StatusTone::Running
    }

    /// How far the work has come, in words.
    pub fn progress_text(&self) -> (r: Option<String>)
        ensures
            opt_text(r) == match self@.progress {
                Some(progress) => Some(
                    decimal(progress.0 as nat) + " из "@ + decimal(progress.1 as nat),
                ),
                None => None,
            },
    {
        match self.progress {
            Some(progress) => {
                let current = decimal_text(progress.0 as u128);
                let total = decimal_text(progress.1 as u128);
                Some(cat3(current.as_str(), " из ", total.as_str()))
            },
            None => None,
        }
    }
}

/// How background work ended.
#[derive(Debug)]
pub struct FinishState {
    pub had_error: bool,
    pub restart_required: bool,
    pub title: String,
    pub detail: String,
}

/// How background work ended.
#[verifier::ext_equal]
pub struct FinishModel {
    pub had_error: bool,
    pub restart_required: bool,
    pub title: Seq<char>,
    pub detail: Seq<char>,
}

impl View for FinishState {
    type V = FinishModel;

    open spec fn view(&self) -> FinishModel {
        FinishModel {
            had_error: self.had_error,
            restart_required: self.restart_required,
            title: self.title@,
            detail: self.detail@,
        }
    }
}

/// What background work tells the window.
#[derive(Debug)]
pub enum AppMessage {
    Log(String),
    Status(StatusMessage),
    UpdateSnapshot(Vec<ComponentInfo>),
    UpdatingComponent(Option<ComponentKind>),
    AllFinished(FinishState),
}

/// What a message tells.
#[verifier::ext_equal]
pub enum MessageModel {
    Log(Seq<char>),
    Status(StatusModel),
    UpdateSnapshot(Seq<ComponentModel>),
    UpdatingComponent(Option<ComponentKind>),
    AllFinished(FinishModel),
}

impl View for AppMessage {
    type V = MessageModel;

    open spec fn view(&self) -> MessageModel {
        match self {
            AppMessage::Log(text) => MessageModel::Log(text@),
            AppMessage::Status(status) => MessageModel::Status(status@),
            AppMessage::UpdateSnapshot(list) => MessageModel::UpdateSnapshot(components(list@)),
            AppMessage::UpdatingComponent(kind) => MessageModel::UpdatingComponent(*kind),
            AppMessage::AllFinished(finish) => MessageModel::AllFinished(finish@),
        }
    }
}

/// What the messages of `list` tell.
pub open spec fn messages(list: Seq<AppMessage>) -> Seq<MessageModel> {
    list.map_values(|message: AppMessage| message@)
}

/// Adds a line of the log.
pub fn push_log(list: &mut Vec<AppMessage>, text: &str)
    ensures
        messages(final(list)@) == messages(old(list)@).push(MessageModel::Log(text@)),
{
    list.push(AppMessage::Log(text.to_owned()));
    assert(messages(list@) =~= messages(old(list)@).push(MessageModel::Log(text@)));
}

/// Adds a status.
pub fn push_status(
    list: &mut Vec<AppMessage>,
    tone: StatusTone,
    title: &str,
    detail: &str,
    progress: Option<(usize, usize)>,
)
    ensures
        messages(final(list)@) == messages(old(list)@).push(
            MessageModel::Status(status(tone, title@, detail@, progress)),
        ),
{
    list.push(AppMessage::Status(StatusMessage::new(tone, title, detail, progress)));
    assert(messages(list@) =~= messages(old(list)@).push(
        MessageModel::Status(status(tone, title@, detail@, progress)),
    ));
}

/// Each tone has a color of its own, and only running work spins.
pub proof fn law_tones_differ(a: StatusTone, b: StatusTone, r: ColorRole, s: ColorRole)
    requires
        call_ensures(StatusTone::status_color, (a,), r),
        call_ensures(StatusTone::status_color, (b,), s),
    ensures
        r == s <==> a == b,
        a == StatusTone::Idle <==> r == ColorRole::Secondary,
        a == StatusTone::Success <==> r == ColorRole::Success,
        a == StatusTone::Warning <==> r == ColorRole::Warning,
        a == StatusTone::Error <==> r == ColorRole::Error,
        a == StatusTone::Running <==> r == ColorRole::Fixed(Rgb { r: 245, g: 184, b: 82 }),
{
}

/// A status holds the parts that it was made of, spins exactly where its tone is that of running
/// work, and tells its progress exactly where it has one: the first number, and then the second.
pub proof fn law_status_tells_its_parts(
    tone: StatusTone,
    title: &str,
    detail: &str,
    progress: Option<(usize, usize)>,
    made: StatusMessage,
    spins: bool,
    told: Option<String>,
)
    requires
        call_ensures(StatusMessage::new, (tone, title, detail, progress), made),
        call_ensures(StatusMessage::spins, (&made,), spins),
        call_ensures(StatusMessage::progress_text, (&made,), told),
    ensures
        made.tone == tone,
        made.title@ == title@,
        made.detail@ == detail@,
        made.progress == progress,
        spins <==> tone == StatusTone::Running,
        told is Some <==> progress is Some,
        progress matches Some((current, total)) ==> told->0@ == decimal(current as nat) + " из "@
            + decimal(total as nat),
{
}

/// Before anything was done the status says that links can be added.
pub proof fn law_idle_status(r: StatusMessage)
    requires
        call_ensures(StatusMessage::idle, (), r),
    ensures
        r.tone == StatusTone::Idle,
        r.title@ == "Готов к загрузке"@,
        r.detail@ == "Добавьте ссылку и нажмите Скачать"@,
        r.progress is None,
{
}

} // verus!
