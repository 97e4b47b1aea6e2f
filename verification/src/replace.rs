//! Putting a new file in place of an old one, so that one of the two is always there.
use crate::paths::{extended_path, with_extension};
use vstd::prelude::*;

verus! {

/// What is to be done with files next.
pub enum FileAction {
    /// Tell whether the file is there.
    Check(String),
    /// Remove the file.
    Remove(String),
    /// Give the file `from` the path `to`.
    Rename { from: String, to: String },
    /// Nothing more; this is how it ended.
    Finish(Result<(), String>),
}

/// What a file action is.
#[verifier::ext_equal]
pub enum ActionModel {
    Check(Seq<char>),
    Remove(Seq<char>),
    Rename { from: Seq<char>, to: Seq<char> },
    Finish(Result<(), Seq<char>>),
}

impl View for FileAction {
    type V = ActionModel;

    open spec fn view(&self) -> ActionModel {
        match self {
            FileAction::Check(path) => ActionModel::Check(path@),
            FileAction::Remove(path) => ActionModel::Remove(path@),
            FileAction::Rename { from, to } => ActionModel::Rename { from: from@, to: to@ },
            FileAction::Finish(Ok(_)) => ActionModel::Finish(Ok(())),
            FileAction::Finish(Err(err)) => ActionModel::Finish(Err(err@)),
        }
    }
}

/// How a file action ended: for a check, whether the file is there; for anything else, whether it
/// was done, or why not.
pub enum FileReply {
    Done(bool),
    Failed(String),
}

impl FileReply {
    /// Whether a check found the file. A file that could not be looked for is not there.
    pub open spec fn found(self) -> bool {
        self == FileReply::Done(true)
    }
}

/// How far a replacement has come.
pub enum ReplaceStep {
    /// Whether there is an old file is being checked.
    CheckTarget,
    /// What is left of an earlier replacement is being removed.
    DropBackup,
    /// The old file is being moved out of the way.
    MoveAway,
    /// The new file is being moved into place.
    MoveIn,
    /// The old file is being removed.
    RemoveBackup,
    /// The new file could not be moved, for this reason; whether there is an old file to bring
    /// back is being checked.
    CheckBackup(String),
    /// The old file is being brought back.
    Restore(String),
    /// All is over.
    Over(Result<(), String>),
}

/// The replacement of the file `target` by the file `staged`. Meanwhile the old file is `backup`.
pub struct Replacement {
    pub staged: String,
    pub target: String,
    pub backup: String,
    pub step: ReplaceStep,
}

impl Replacement {
    /// What is to be done next.
    pub open spec fn action_model(self) -> ActionModel {
        match self.step {
            ReplaceStep::CheckTarget => ActionModel::Check(self.target@),
            ReplaceStep::DropBackup => ActionModel::Remove(self.backup@),
            ReplaceStep::MoveAway => ActionModel::Rename { from: self.target@, to: self.backup@ },
            ReplaceStep::MoveIn => ActionModel::Rename { from: self.staged@, to: self.target@ },
            ReplaceStep::RemoveBackup => ActionModel::Remove(self.backup@),
            ReplaceStep::CheckBackup(_) => ActionModel::Check(self.backup@),
            ReplaceStep::Restore(_) => ActionModel::Rename { from: self.backup@, to: self.target@ },
            ReplaceStep::Over(Ok(_)) => ActionModel::Finish(Ok(())),
            ReplaceStep::Over(Err(err)) => ActionModel::Finish(Err(err@)),
        }
    }

    /// The step after `reply`.
    pub open spec fn next_step(self, reply: FileReply) -> ReplaceStep {
        match (self.step, reply) {
            (ReplaceStep::CheckTarget, _) => if reply.found() {
                ReplaceStep::DropBackup
            } else {
                ReplaceStep::MoveIn
            },
            (ReplaceStep::DropBackup, _) => ReplaceStep::MoveAway,
            (ReplaceStep::MoveAway, FileReply::Done(_)) => ReplaceStep::MoveIn,
            (ReplaceStep::MoveAway, FileReply::Failed(err)) => ReplaceStep::Over(Err(err)),
            (ReplaceStep::MoveIn, FileReply::Done(_)) => ReplaceStep::RemoveBackup,
            (ReplaceStep::MoveIn, FileReply::Failed(err)) => ReplaceStep::CheckBackup(err),
            (ReplaceStep::RemoveBackup, _) => ReplaceStep::Over(Ok(())),
            (ReplaceStep::CheckBackup(err), _) => if reply.found() {
                ReplaceStep::Restore(err)
            } else {
                ReplaceStep::Over(Err(err))
            },
            (ReplaceStep::Restore(err), _) => ReplaceStep::Over(Err(err)),
            (ReplaceStep::Over(result), _) => ReplaceStep::Over(result),
        }
    }

    /// The replacement after `reply`.
    pub open spec fn after(self, reply: FileReply) -> Replacement {
        Replacement { step: self.next_step(reply), ..self }
    }

    /// Begins to replace `target_path` by `staged_path`.
    pub fn atomic_replace(staged_path: &str, target_path: &str) -> (r: Self)
        ensures
            r.staged@ == staged_path@,
            r.target@ == target_path@,
            r.backup@ == extended_path(target_path@, "bak"@),
            r.step == ReplaceStep::CheckTarget,
    {
        Replacement {
            staged: staged_path.to_owned(),
            target: target_path.to_owned(),
            backup: with_extension(target_path, "bak"),
            step: ReplaceStep::CheckTarget,
        }
    }

    /// What is to be done next.
    pub fn action(&self) -> (r: FileAction)
        ensures
            r@ == self.action_model(),
    {
        match &self.step {
            ReplaceStep::CheckTarget => FileAction::Check(self.target.clone()),
            ReplaceStep::DropBackup => FileAction::Remove(self.backup.clone()),
            ReplaceStep::MoveAway => FileAction::Rename {
                from: self.target.clone(),
                to: self.backup.clone(),
            },
            ReplaceStep::MoveIn => FileAction::Rename {
                from: self.staged.clone(),
                to: self.target.clone(),
            },
            ReplaceStep::RemoveBackup => FileAction::Remove(self.backup.clone()),
            ReplaceStep::CheckBackup(_) => FileAction::Check(self.backup.clone()),
            ReplaceStep::Restore(_) => FileAction::Rename {
                from: self.backup.clone(),
                to: self.target.clone(),
            },
            ReplaceStep::Over(Ok(_)) => FileAction::Finish(Ok(())),
            ReplaceStep::Over(Err(err)) => FileAction::Finish(Err(err.clone())),
        }
    }

    /// Takes note of how the last action ended.
    pub fn reply(self, reply: FileReply) -> (r: Self)
        ensures
            r == self.after(reply),
    {
        let step = match (self.step, reply) {
            (ReplaceStep::CheckTarget, FileReply::Done(true)) => ReplaceStep::DropBackup,
            (ReplaceStep::CheckTarget, _) => ReplaceStep::MoveIn,
            (ReplaceStep::DropBackup, _) => ReplaceStep::MoveAway,
            (ReplaceStep::MoveAway, FileReply::Done(_)) => ReplaceStep::MoveIn,
            (ReplaceStep::MoveAway, FileReply::Failed(err)) => ReplaceStep::Over(Err(err)),
            (ReplaceStep::MoveIn, FileReply::Done(_)) => ReplaceStep::RemoveBackup,
            (ReplaceStep::MoveIn, FileReply::Failed(err)) => ReplaceStep::CheckBackup(err),
            (ReplaceStep::RemoveBackup, _) => ReplaceStep::Over(Ok(())),
            (ReplaceStep::CheckBackup(err), FileReply::Done(true)) => ReplaceStep::Restore(err),
            (ReplaceStep::CheckBackup(err), _) => ReplaceStep::Over(Err(err)),
            (ReplaceStep::Restore(err), _) => ReplaceStep::Over(Err(err)),
            (ReplaceStep::Over(result), _) => ReplaceStep::Over(result),
        };
        Replacement { staged: self.staged, target: self.target, backup: self.backup, step }
    }

    /// How many actions are left at most.
    pub open spec fn actions_left(self) -> nat {
        match self.step {
            ReplaceStep::CheckTarget => 6,
            ReplaceStep::DropBackup => 5,
            ReplaceStep::MoveAway => 4,
            ReplaceStep::MoveIn => 3,
            ReplaceStep::CheckBackup(_) => 2,
            ReplaceStep::RemoveBackup => 1,
            ReplaceStep::Restore(_) => 1,
            ReplaceStep::Over(_) => 0,
        }
    }

    /// Whether the three paths are different.
    pub open spec fn has_distinct_paths(self) -> bool {
        &&& self.staged@ != self.target@
        &&& self.staged@ != self.backup@
        &&& self.target@ != self.backup@
    }

    /// Whether `files`, which are the contents of files by path, are as this step has them, where
    /// the old file, if there was one, held `before` and the new one held `after`.
    pub open spec fn stands(
        self,
        files: Map<Seq<char>, Seq<u8>>,
        before: Option<Seq<u8>>,
        after: Seq<u8>,
    ) -> bool {
        let at_target = files.dom().contains(self.target@);
        let old_at_target = before is Some ==> at_target && files[self.target@] == before->0;
        let old_at_backup = before is Some ==> files.dom().contains(self.backup@)
            && files[self.backup@] == before->0;
        let new_staged = files.dom().contains(self.staged@) && files[self.staged@] == after;
        match self.step {
            ReplaceStep::CheckTarget => {
                &&& new_staged
                &&& at_target <==> before is Some
                &&& old_at_target
            },
            ReplaceStep::DropBackup | ReplaceStep::MoveAway => {
                &&& new_staged
                &&& before is Some
                &&& old_at_target
            },
            ReplaceStep::MoveIn => {
                &&& new_staged
                &&& !at_target
                &&& old_at_backup
            },
            ReplaceStep::RemoveBackup => at_target && files[self.target@] == after,
            ReplaceStep::CheckBackup(_) | ReplaceStep::Restore(_) => new_staged && old_at_backup,
            ReplaceStep::Over(Ok(_)) => at_target && files[self.target@] == after,
            ReplaceStep::Over(Err(_)) => {
                &&& new_staged
                &&& before is Some ==> at_target && files[self.target@] == before->0
                    || files.dom().contains(self.backup@) && files[self.backup@] == before->0
            },
        }
    }
}

/// Whether files that were `files` are `changed` after an action that got `reply`: a check tells
/// the truth and changes nothing; what is done is done, and what fails changes nothing.
pub open spec fn carries_out(
    files: Map<Seq<char>, Seq<u8>>,
    action: ActionModel,
    reply: FileReply,
    changed: Map<Seq<char>, Seq<u8>>,
) -> bool {
    match action {
        ActionModel::Check(path) => {
            &&& changed == files
            &&& reply.found() <==> files.dom().contains(path)
        },
        ActionModel::Remove(path) => match reply {
            FileReply::Done(_) => changed == files.remove(path),
            FileReply::Failed(_) => changed == files,
        },
        ActionModel::Rename { from, to } => match reply {
            FileReply::Done(_) => files.dom().contains(from) && changed == files.remove(
                from,
            ).insert(to, files[from]),
            FileReply::Failed(_) => changed == files,
        },
        ActionModel::Finish(_) => changed == files,
    }
}

/// Whatever fails on the way, the old file is never lost before the new one is in its place: after
/// each action the files are as the next step has them. So a replacement that ends well has put
/// the new file in place, and one that ends badly has left the new file where it was and the old
/// one at its own path or at that of the backup.
pub proof fn law_replacement_keeps_a_file(
    replacement: Replacement,
    files: Map<Seq<char>, Seq<u8>>,
    before: Option<Seq<u8>>,
    after: Seq<u8>,
    reply: FileReply,
    changed: Map<Seq<char>, Seq<u8>>,
)
    requires
        replacement.has_distinct_paths(),
        replacement.stands(files, before, after),
        carries_out(files, replacement.action_model(), reply, changed),
    ensures
        replacement.after(reply).stands(changed, before, after),
{
}

/// A replacement ends after six actions at most.
pub proof fn law_replacement_ends(replacement: Replacement, reply: FileReply)
    ensures
        replacement.actions_left() <= 6,
        replacement.actions_left() > 0 ==> replacement.after(reply).actions_left()
            < replacement.actions_left(),
        replacement.actions_left() == 0 <==> replacement.step is Over,
{
}

/// Where the new file could not be moved into place and the old one can be brought back, the
/// replacement ends with the old file at its own path, and reports why the new one was not moved.
pub proof fn law_failed_replacement_restores(
    replacement: Replacement,
    files: Map<Seq<char>, Seq<u8>>,
    before: Seq<u8>,
    after: Seq<u8>,
    err: String,
    changed: Map<Seq<char>, Seq<u8>>,
)
    requires
        replacement.has_distinct_paths(),
        replacement.step == ReplaceStep::Restore(err),
        replacement.stands(files, Some(before), after),
        carries_out(files, replacement.action_model(), FileReply::Done(true), changed),
    ensures
        changed.dom().contains(replacement.target@),
        changed[replacement.target@] == before,
        replacement.after(FileReply::Done(true)).step == ReplaceStep::Over(Err(err)),
{
}

/// Whether a replacement went on in this way from its start: each action was carried out on the files
/// and got its reply, and the next step follows from that reply.
pub open spec fn is_replacement_course(
    steps: Seq<Replacement>,
    actions: Seq<FileAction>,
    replies: Seq<FileReply>,
    disks: Seq<Map<Seq<char>, Seq<u8>>>,
) -> bool {
    &&& steps.len() == replies.len() + 1
    &&& disks.len() == replies.len() + 1
    &&& actions.len() == replies.len()
    &&& forall|i: int|
        0 <= i < replies.len() ==> {
            &&& call_ensures(Replacement::action, (&#[trigger] steps[i],), actions[i])
            &&& carries_out(disks[i], actions[i]@, replies[i], disks[i + 1])
            &&& call_ensures(Replacement::reply, (steps[i], replies[i]), steps[i + 1])
        }
}

/// What a file holds, where it is there.
pub open spec fn held(files: Map<Seq<char>, Seq<u8>>, path: Seq<char>) -> Option<Seq<u8>> {
    if files.dom().contains(path) {
        Some(files[path])
    } else {
        None
    }
}

/// What holds of the files after `n` actions of a replacement.
spec fn is_on_its_way(
    start: Replacement,
    before: Map<Seq<char>, Seq<u8>>,
    step: Replacement,
    files: Map<Seq<char>, Seq<u8>>,
    all_done: bool,
) -> bool {
    &&& step.staged@ == start.staged@
    &&& step.target@ == start.target@
    &&& step.backup@ == start.backup@
    &&& step.stands(files, held(before, start.target@), before[start.staged@])
    &&& forall|path: Seq<char>|
        path != start.staged@ && path != start.target@ && path != start.backup@
            ==> #[trigger] held(files, path) == held(before, path)
    &&& step.step is RemoveBackup || step.step == ReplaceStep::Over(Ok::<(), String>(()))
        ==> !files.dom().contains(start.staged@)
    &&& all_done ==> !(step.step is CheckBackup || step.step is Restore) && !(step.step matches
        ReplaceStep::Over(Err(_)))
    &&& all_done && step.step == ReplaceStep::Over(Ok::<(), String>(()))
        ==> !files.dom().contains(start.backup@)
}

/// One action of a replacement.
proof fn lemma_on_its_way(
    start: Replacement,
    before: Map<Seq<char>, Seq<u8>>,
    step: Replacement,
    files: Map<Seq<char>, Seq<u8>>,
    reply: FileReply,
    changed: Map<Seq<char>, Seq<u8>>,
    all_done: bool,
)
    requires
        start.has_distinct_paths(),
        is_on_its_way(start, before, step, files, all_done),
        carries_out(files, step.action_model(), reply, changed),
    ensures
        is_on_its_way(start, before, step.after(reply), changed, all_done && reply is Done),
{
    law_replacement_keeps_a_file(
        step,
        files,
        held(before, start.target@),
        before[start.staged@],
        reply,
        changed,
    );
    let next = step.after(reply);
    assert forall|path: Seq<char>|
        path != start.staged@ && path != start.target@ && path != start.backup@ implies #[trigger] held(
        changed,
        path,
    ) == held(before, path) by {
        assert(held(files, path) == held(before, path));
    }
}

/// The course of a replacement up to any of its steps.
proof fn lemma_replacement_course(
    steps: Seq<Replacement>,
    actions: Seq<FileAction>,
    replies: Seq<FileReply>,
    disks: Seq<Map<Seq<char>, Seq<u8>>>,
    n: int,
)
    requires
        is_replacement_course(steps, actions, replies, disks),
        steps[0].step == ReplaceStep::CheckTarget,
        steps[0].has_distinct_paths(),
        disks[0].dom().contains(steps[0].staged@),
        0 <= n < steps.len(),
    ensures
        is_on_its_way(
            steps[0],
            disks[0],
            steps[n],
            disks[n],
            forall|i: int| 0 <= i < n ==> (#[trigger] replies[i]) is Done,
        ),
    decreases n,
{
    if n > 0 {
        let k = n - 1;
        lemma_replacement_course(steps, actions, replies, disks, k);
        let all = forall|i: int| 0 <= i < k ==> (#[trigger] replies[i]) is Done;
        assert(call_ensures(Replacement::action, (&steps[k],), actions[k]));
        lemma_on_its_way(steps[0], disks[0], steps[k], disks[k], replies[k], disks[n], all);
        let more = forall|i: int| 0 <= i < n ==> (#[trigger] replies[i]) is Done;
        assert(more ==> all && replies[k] is Done);
        assert(all && replies[k] is Done ==> more);
    }
}

/// Whatever is on the disk and whatever fails, a replacement touches the three files that it is about
/// and no other. Where it ends well, the file at the target holds what the new file held, and the new
/// file is no longer where it was. Where it ends badly, the new file is still there, and the old one,
/// if there was one, is there too, at the target or at the backup. Where no action fails, it ends
/// well, and no backup is left.
pub proof fn law_whole_replacement(
    staged: &str,
    target: &str,
    steps: Seq<Replacement>,
    actions: Seq<FileAction>,
    replies: Seq<FileReply>,
    disks: Seq<Map<Seq<char>, Seq<u8>>>,
)
    requires
        is_replacement_course(steps, actions, replies, disks),
        call_ensures(Replacement::atomic_replace, (staged, target), steps[0]),
        steps[0].has_distinct_paths(),
        disks[0].dom().contains(staged@),
        steps.last().step is Over,
    ensures
        ({
            let before = disks[0];
            let after = disks.last();
            let backup = steps[0].backup@;
            let ended_well = steps.last().step == ReplaceStep::Over(Ok::<(), String>(()));
            &&& forall|path: Seq<char>|
                path != staged@ && path != target@ && path != backup ==> #[trigger] held(after, path)
                    == held(before, path)
            &&& ended_well ==> held(after, target@) == Some(before[staged@])
            &&& ended_well ==> held(after, staged@) is None
            &&& !ended_well ==> held(after, staged@) == Some(before[staged@])
            &&& !ended_well && before.dom().contains(target@) ==> held(after, target@) == Some(
                before[target@],
            ) || held(after, backup) == Some(before[target@])
            &&& (forall|i: int| 0 <= i < replies.len() ==> (#[trigger] replies[i]) is Done)
                ==> ended_well && held(after, backup) is None
        }),
{
    lemma_replacement_course(steps, actions, replies, disks, steps.len() - 1);
    if let ReplaceStep::Over(result) = steps.last().step {
        if let Ok(unit) = result {
            assert(steps.last().step == ReplaceStep::Over(Ok::<(), String>(())));
        }
    }
}

/// A replacement that fails reports why: the reason for which the old file could not be moved away, or
/// the new one could not be moved in.
pub proof fn law_replacement_reports_the_reason(
    replacement: Replacement,
    err: String,
    later: FileReply,
    next: Replacement,
    after: Replacement,
)
    requires
        call_ensures(Replacement::reply, (replacement, FileReply::Failed(err)), next),
        call_ensures(Replacement::reply, (next, later), after),
    ensures
        replacement.step is MoveAway ==> next.step == ReplaceStep::Over(Err::<(), String>(err)),
        replacement.step is MoveIn ==> next.step == ReplaceStep::CheckBackup(err),
        replacement.step is MoveIn ==> after.step == ReplaceStep::Restore(err) || after.step
            == ReplaceStep::Over(Err::<(), String>(err)),
        replacement.step is DropBackup ==> next.step is MoveAway,
        replacement.step is RemoveBackup ==> next.step == ReplaceStep::Over(Ok::<(), String>(())),
{
}

/// A replacement begins with a look for the old file, and its backup has the path of the old file with
/// the extension `bak`.
pub proof fn law_replacement_begins(staged: &str, target: &str, backup: String, r: Replacement)
    requires
        call_ensures(with_extension, (target, "bak"), backup),
        call_ensures(Replacement::atomic_replace, (staged, target), r),
    ensures
        r.staged@ == staged@,
        r.target@ == target@,
        r.backup@ == backup@,
        r.action_model() == ActionModel::Check(target@),
{
}

} // verus!
