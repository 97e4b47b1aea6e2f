//! What a whole installation does to the files on the disk.
use crate::archive::{
    is_last_of, is_program, lemma_plan_last, plan_of, zip_content, zip_entries, zip_len, zip_plan,
    EntryModel, FfmpegTool, UnpackModel,
};
use crate::checksum::verdict;
use crate::install::{
    after_creation, after_inspection, after_replacing, after_writing, goes_on, unpack_models,
    AfterReplace, InstallAction, InstallTarget, Unpacking,
};
use crate::paths::{
    extended_path, file_name_of, joined_path, lemma_file_in_folder, lemma_last_is, stem_of,
};
use crate::replace::{
    carries_out, held, law_replacement_keeps_a_file, FileReply, ReplaceStep, Replacement,
};
use crate::text::CharClass;
use crate::updater::ComponentKind;
use vstd::prelude::*;

verus! {

/// The file of an ffmpeg program.
pub open spec fn program_file(tool: FfmpegTool) -> Seq<char> {
    match tool {
        FfmpegTool::Ffmpeg => "ffmpeg.exe"@,
        FfmpegTool::Ffprobe => "ffprobe.exe"@,
    }
}

/// Where an ffmpeg program is installed.
#[verifier::opaque]
pub open spec fn program_path(dir: Seq<char>, tool: FfmpegTool) -> Seq<char> {
    joined_path(dir, program_file(tool))
}

/// Where an ffmpeg program is while it is being replaced.
#[verifier::opaque]
pub open spec fn backup_path(dir: Seq<char>, tool: FfmpegTool) -> Seq<char> {
    extended_path(program_path(dir, tool), "bak"@)
}

/// Where an ffmpeg program is unpacked to.
#[verifier::opaque]
spec fn unpacked_path(dir: Seq<char>, tool: FfmpegTool) -> Seq<char> {
    joined_path(dir, tool.staged_text())
}

/// Whether the two ffmpeg programs are files in the folder. They are not in a folder such as
/// `\\server`, where a name after it is read as a share.
pub open spec fn holds_programs(dir: Seq<char>) -> bool {
    forall|tool: FfmpegTool| file_name_of(#[trigger] program_path(dir, tool)) is Some
}

/// Whether files that were `files` are `changed` after an action of an installation that got `reply`:
/// a file that was created is empty, one that was written holds what was to be written, and what
/// failed has touched that file at most. A replacement does what its own action says.
pub open spec fn does(
    files: Map<Seq<char>, Seq<u8>>,
    action: InstallAction,
    reply: FileReply,
    changed: Map<Seq<char>, Seq<u8>>,
) -> bool {
    match action {
        InstallAction::Create(unpacking) => match reply {
            FileReply::Done(_) => changed == files.insert(unpacking.staged_text(), Seq::empty()),
            FileReply::Failed(_) => is_same_but(files, changed, unpacking.staged_text()),
        },
        InstallAction::Write(unpacking) => match reply {
            FileReply::Done(_) => unpacking.unpacks@[0].content is Ok && changed == files.insert(
                unpacking.staged_text(),
                unpacking.unpacks@[0].content->Ok_0@,
            ),
            FileReply::Failed(_) => is_same_but(files, changed, unpacking.staged_text()),
        },
        InstallAction::Replace { replacement, .. } => carries_out(
            files,
            replacement.action_model(),
            reply,
            changed,
        ),
        _ => changed == files,
    }
}

/// Whether the files are the same but for the one at `path`.
pub open spec fn is_same_but(
    files: Map<Seq<char>, Seq<u8>>,
    changed: Map<Seq<char>, Seq<u8>>,
    path: Seq<char>,
) -> bool {
    forall|other: Seq<char>| other != path ==> #[trigger] held(changed, other) == held(files, other)
}

/// Whether `next` is what an installation goes on with after an action that got `reply`.
pub open spec fn goes_on_with(action: InstallAction, reply: FileReply, next: InstallAction) -> bool {
    match action {
        InstallAction::Create(unpacking) => call_ensures(after_creation, (unpacking, reply), next),
        InstallAction::Write(unpacking) => call_ensures(after_writing, (unpacking, reply), next),
        InstallAction::Replace { replacement, rest } => call_ensures(
            after_replacing,
            (replacement, rest, reply),
            next,
        ),
        _ => false,
    }
}

/// Whether an installation went on in this way: each action was carried out on the files and got its
/// reply, and the next action follows from that reply.
pub open spec fn is_course(
    actions: Seq<InstallAction>,
    replies: Seq<FileReply>,
    disks: Seq<Map<Seq<char>, Seq<u8>>>,
) -> bool {
    &&& actions.len() == replies.len() + 1
    &&& disks.len() == replies.len() + 1
    &&& forall|i: int|
        0 <= i < replies.len() ==> does(disks[i], #[trigger] actions[i], replies[i], disks[i + 1])
            && goes_on_with(actions[i], replies[i], actions[i + 1])
}

/// How the paths of a program end.
proof fn lemma_program_names(dir: Seq<char>, tool: FfmpegTool)
    requires
        file_name_of(program_path(dir, tool)) is Some,
    ensures
        ({
            let p = program_path(dir, tool);
            let b = backup_path(dir, tool);
            let staged = unpacked_path(dir, tool);
            let c = if tool == FfmpegTool::Ffmpeg {
                'g'
            } else {
                'e'
            };
            &&& p.len() >= 5 && p.last() == 'e' && p[p.len() - 5] == c
            &&& b.len() >= 5 && b.last() == 'k' && b[b.len() - 5] == c
            &&& staged.len() > 0 && staged.last() == 'p'
        }),
{
    reveal_strlit("ffmpeg.exe");
    reveal_strlit("ffprobe.exe");
    reveal_strlit("ffmpeg.exe.tmp");
    reveal_strlit("ffprobe.exe.tmp");
    reveal_strlit("bak");
    reveal(program_path);
    reveal(backup_path);
    reveal(unpacked_path);
    let name = program_file(tool);
    let tmp = tool.staged_text();
    let p = program_path(dir, tool);
    let staged = joined_path(dir, tmp);
    lemma_file_in_folder(dir, name);
    lemma_file_in_folder(dir, tmp);
    let n = name.len() as int;
    let k = p.len() - n;
    assert(p.skip(k)[n - 1] == p[k + n - 1]);
    assert(p.skip(k)[n - 5] == p[k + n - 5]);
    let m = tmp.len() as int;
    assert(staged.skip(staged.len() - m)[m - 1] == staged.last());
    lemma_stem(name);
    let b = backup_path(dir, tool);
    assert(b == p.take(k) + stem_of(name) + seq!['.'] + "bak"@);
    assert(b.last() == "bak"@[2]);
    assert(b[b.len() - 5] == name[n - 5]);
}

/// The part of the name of a program before its extension.
proof fn lemma_stem(name: Seq<char>)
    requires
        name == "ffmpeg.exe"@ || name == "ffprobe.exe"@,
    ensures
        stem_of(name) == name.take(name.len() - 4),
{
    reveal_strlit("ffmpeg.exe");
    reveal_strlit("ffprobe.exe");
    let dot = CharClass::Only('.');
    let n = name.len() as int;
    let head = name.take(n - 3);
    let ext = name.skip(n - 3);
    assert(head.last() == '.');
    assert forall|i: int| 0 <= i < ext.len() implies !dot.has(#[trigger] ext[i]) by {
        assert(ext[i] == name[n - 3 + i]);
    }
    lemma_last_is(head, ext, dot);
    assert(head + ext =~= name);
}

/// Whether the paths of the programs, of what they are unpacked to and of their backups differ.
spec fn paths_differ(dir: Seq<char>) -> bool {
    forall|a: FfmpegTool, b: FfmpegTool|
        #![trigger program_path(dir, a), unpacked_path(dir, b)]
        {
            &&& program_path(dir, a) != unpacked_path(dir, b)
            &&& backup_path(dir, a) != unpacked_path(dir, b)
            &&& program_path(dir, a) != backup_path(dir, b)
            &&& a != b ==> program_path(dir, a) != program_path(dir, b)
        }
}

/// The paths differ in a folder that holds the programs.
proof fn lemma_paths_differ(dir: Seq<char>)
    requires
        holds_programs(dir),
    ensures
        paths_differ(dir),
{
    assert forall|a: FfmpegTool, b: FfmpegTool|
        #![trigger program_path(dir, a), unpacked_path(dir, b)]
        {
            &&& program_path(dir, a) != unpacked_path(dir, b)
            &&& backup_path(dir, a) != unpacked_path(dir, b)
            &&& program_path(dir, a) != backup_path(dir, b)
            &&& a != b ==> program_path(dir, a) != program_path(dir, b)
        } by {
        assert(file_name_of(program_path(dir, a)) is Some);
        assert(file_name_of(program_path(dir, b)) is Some);
        lemma_program_names(dir, a);
        lemma_program_names(dir, b);
    }
}

/// Whether, of the first `n` programs that are unpacked, the one at `i` is the last that is `tool`.
spec fn is_last_of_first(whole: Unpacking, tool: FfmpegTool, i: int, n: int) -> bool {
    &&& 0 <= i < n
    &&& whole.unpacks@[i].tool == tool
    &&& forall|k: int| i < k < n ==> (#[trigger] whole.unpacks@[k]).tool != tool
}

/// Whether, of the first `n` programs that are unpacked, what was unpacked last of `tool` is in its
/// place.
spec fn is_in_place(
    files: Map<Seq<char>, Seq<u8>>,
    whole: Unpacking,
    n: int,
    tool: FfmpegTool,
) -> bool {
    forall|i: int| #[trigger]
        is_last_of_first(whole, tool, i, n) ==> whole.unpacks@[i].content is Ok && held(
            files,
            program_path(whole.app_dir@, tool),
        ) == Some(whole.unpacks@[i].content->Ok_0@)
}

/// Whether a program that was there before is still there.
spec fn is_kept(
    files: Map<Seq<char>, Seq<u8>>,
    before: Map<Seq<char>, Seq<u8>>,
    dir: Seq<char>,
    tool: FfmpegTool,
) -> bool {
    before.dom().contains(program_path(dir, tool)) ==> files.dom().contains(program_path(dir, tool))
}

/// Whether `unpacking` is what is left of `whole` after the first `n` programs.
spec fn is_left(unpacking: Unpacking, whole: Unpacking, n: int) -> bool {
    &&& 0 <= n <= whole.unpacks@.len()
    &&& unpacking.app_dir@ == whole.app_dir@
    &&& unpacking.unpacks@ == whole.unpacks@.skip(n)
}

/// What holds of the files at an action of an installation, where `n` programs are in place.
spec fn is_under_way(
    action: InstallAction,
    files: Map<Seq<char>, Seq<u8>>,
    before: Map<Seq<char>, Seq<u8>>,
    whole: Unpacking,
    n: int,
) -> bool {
    let dir = whole.app_dir@;
    match action {
        InstallAction::Create(unpacking) => {
            &&& is_left(unpacking, whole, n)
            &&& n < whole.unpacks@.len()
            &&& is_all_in_place(files, before, whole, n)
        },
        InstallAction::Write(unpacking) => {
            &&& is_left(unpacking, whole, n)
            &&& n < whole.unpacks@.len()
            &&& whole.unpacks@[n].content is Ok
            &&& is_all_in_place(files, before, whole, n)
        },
        InstallAction::Replace { replacement, rest } => {
            &&& rest matches AfterReplace::Ffmpeg(unpacking) && is_left(unpacking, whole, n + 1)
            &&& 0 <= n < whole.unpacks@.len()
            &&& whole.unpacks@[n].content is Ok
            &&& !(replacement.step is Over)
            &&& is_replacing(replacement, files, before, whole, n)
        },
        InstallAction::Finish { result, .. } => {
            &&& result is Ok ==> forall|tool: FfmpegTool|
                #![trigger program_path(dir, tool)]
                is_in_place(files, whole, whole.unpacks@.len() as int, tool)
            &&& forall|tool: FfmpegTool|
                before.dom().contains(#[trigger] program_path(dir, tool)) ==> files.dom().contains(
                    program_path(dir, tool),
                ) || files.dom().contains(backup_path(dir, tool))
        },
        _ => false,
    }
}

/// What holds of the files while the program after the first `n` is put in its place.
spec fn is_replacing(
    replacement: Replacement,
    files: Map<Seq<char>, Seq<u8>>,
    before: Map<Seq<char>, Seq<u8>>,
    whole: Unpacking,
    n: int,
) -> bool {
    let dir = whole.app_dir@;
    let tool = whole.unpacks@[n].tool;
    &&& replacement.staged@ == unpacked_path(dir, tool)
    &&& replacement.target@ == program_path(dir, tool)
    &&& replacement.backup@ == backup_path(dir, tool)
    &&& exists|old: Option<Seq<u8>>|
        #[trigger] replacement.stands(files, old, whole.unpacks@[n].content->Ok_0@) && (
        before.dom().contains(program_path(dir, tool)) ==> old is Some)
    &&& forall|other: FfmpegTool|
        #![trigger program_path(dir, other)]
        other != tool ==> is_in_place(files, whole, n, other) && is_kept(files, before, dir, other)
}

/// Whether the first `n` programs are in place and nothing that was there is missing.
spec fn is_all_in_place(
    files: Map<Seq<char>, Seq<u8>>,
    before: Map<Seq<char>, Seq<u8>>,
    whole: Unpacking,
    n: int,
) -> bool {
    forall|tool: FfmpegTool|
        #![trigger program_path(whole.app_dir@, tool)]
        is_in_place(files, whole, n, tool) && is_kept(files, before, whole.app_dir@, tool)
}

/// A change to what is unpacked leaves the programs in place.
proof fn lemma_still_in_place(
    files: Map<Seq<char>, Seq<u8>>,
    changed: Map<Seq<char>, Seq<u8>>,
    before: Map<Seq<char>, Seq<u8>>,
    whole: Unpacking,
    n: int,
    tool: FfmpegTool,
)
    requires
        paths_differ(whole.app_dir@),
        is_all_in_place(files, before, whole, n),
        is_same_but(files, changed, unpacked_path(whole.app_dir@, tool)),
    ensures
        is_all_in_place(changed, before, whole, n),
{
    let dir = whole.app_dir@;
    assert forall|other: FfmpegTool|
        #![trigger program_path(dir, other)]
        is_in_place(changed, whole, n, other) && is_kept(changed, before, dir, other) by {
        assert(program_path(dir, other) != unpacked_path(dir, tool));
        assert(held(changed, program_path(dir, other)) == held(files, program_path(dir, other)));
    }
}

/// What the actions of an unpacking do to the files.
proof fn lemma_unpacked(unpacking: Unpacking, dir: Seq<char>, tool: FfmpegTool)
    requires
        unpacking.app_dir@ == dir,
        unpacking.unpacks@[0].tool == tool,
    ensures
        unpacking.staged_text() == unpacked_path(dir, tool),
        unpacking.target_text() == program_path(dir, tool),
        extended_path(unpacking.target_text(), "bak"@) == backup_path(dir, tool),
{
    reveal(program_path);
    reveal(backup_path);
    reveal(unpacked_path);
}

/// The creation of a file.
proof fn lemma_creation(
    unpacking: Unpacking,
    files: Map<Seq<char>, Seq<u8>>,
    before: Map<Seq<char>, Seq<u8>>,
    whole: Unpacking,
    n: int,
    reply: FileReply,
    changed: Map<Seq<char>, Seq<u8>>,
    next: InstallAction,
)
    requires
        holds_programs(whole.app_dir@),
        is_under_way(InstallAction::Create(unpacking), files, before, whole, n),
        does(files, InstallAction::Create(unpacking), reply, changed),
        goes_on_with(InstallAction::Create(unpacking), reply, next),
    ensures
        is_under_way(next, changed, before, whole, n),
{
    let dir = whole.app_dir@;
    let tool = whole.unpacks@[n].tool;
    assert(whole.unpacks@.skip(n)[0] == whole.unpacks@[n]);
    lemma_unpacked(unpacking, dir, tool);
    lemma_paths_differ(dir);
    lemma_still_in_place(files, changed, before, whole, n, tool);
}

/// The writing of a program.
proof fn lemma_writing(
    unpacking: Unpacking,
    files: Map<Seq<char>, Seq<u8>>,
    before: Map<Seq<char>, Seq<u8>>,
    whole: Unpacking,
    n: int,
    reply: FileReply,
    changed: Map<Seq<char>, Seq<u8>>,
    next: InstallAction,
)
    requires
        holds_programs(whole.app_dir@),
        is_under_way(InstallAction::Write(unpacking), files, before, whole, n),
        does(files, InstallAction::Write(unpacking), reply, changed),
        goes_on_with(InstallAction::Write(unpacking), reply, next),
    ensures
        is_under_way(next, changed, before, whole, n),
{
    let dir = whole.app_dir@;
    let tool = whole.unpacks@[n].tool;
    assert(whole.unpacks@.skip(n)[0] == whole.unpacks@[n]);
    lemma_unpacked(unpacking, dir, tool);
    lemma_paths_differ(dir);
    lemma_still_in_place(files, changed, before, whole, n, tool);
    if let InstallAction::Replace { replacement, rest } = next {
        assert(whole.unpacks@.skip(n).drop_first() =~= whole.unpacks@.skip(n + 1));
        let old = held(changed, program_path(dir, tool));
        assert(program_path(dir, tool) != unpacked_path(dir, tool));
        assert(replacement.stands(changed, old, whole.unpacks@[n].content->Ok_0@));
    }
}

/// What an action of a replacement does to the other program.
proof fn lemma_other_program(
    replacement: Replacement,
    files: Map<Seq<char>, Seq<u8>>,
    before: Map<Seq<char>, Seq<u8>>,
    whole: Unpacking,
    n: int,
    reply: FileReply,
    changed: Map<Seq<char>, Seq<u8>>,
    other: FfmpegTool,
)
    requires
        paths_differ(whole.app_dir@),
        is_replacing(replacement, files, before, whole, n),
        carries_out(files, replacement.action_model(), reply, changed),
        other != whole.unpacks@[n].tool,
    ensures
        is_in_place(changed, whole, n, other),
        is_kept(changed, before, whole.app_dir@, other),
{
    let dir = whole.app_dir@;
    let tool = whole.unpacks@[n].tool;
    let there = program_path(dir, other);
    assert(there != unpacked_path(dir, tool));
    assert(there != program_path(dir, tool));
    assert(there != backup_path(dir, tool));
    assert(is_in_place(files, whole, n, other));
    assert(held(changed, there) == held(files, there));
}

/// A program that was put in its place is one program more.
proof fn lemma_one_more_in_place(
    files: Map<Seq<char>, Seq<u8>>,
    whole: Unpacking,
    n: int,
    tool: FfmpegTool,
)
    requires
        0 <= n < whole.unpacks@.len(),
        whole.unpacks@[n].content is Ok,
        tool == whole.unpacks@[n].tool ==> held(files, program_path(whole.app_dir@, tool)) == Some(
            whole.unpacks@[n].content->Ok_0@,
        ),
        tool != whole.unpacks@[n].tool ==> is_in_place(files, whole, n, tool),
    ensures
        is_in_place(files, whole, n + 1, tool),
{
    assert forall|i: int| #[trigger] is_last_of_first(whole, tool, i, n + 1) implies {
        &&& whole.unpacks@[i].content is Ok
        &&& held(files, program_path(whole.app_dir@, tool)) == Some(
            whole.unpacks@[i].content->Ok_0@,
        )
    } by {
        let at = whole.unpacks@[n];
        if at.tool != tool {
            assert(i < n);
            assert(is_last_of_first(whole, tool, i, n));
        } else {
            assert(i == n);
        }
    }
}

/// An action of a replacement.
proof fn lemma_replacing(
    replacement: Replacement,
    rest: AfterReplace,
    files: Map<Seq<char>, Seq<u8>>,
    before: Map<Seq<char>, Seq<u8>>,
    whole: Unpacking,
    n: int,
    reply: FileReply,
    changed: Map<Seq<char>, Seq<u8>>,
    next: InstallAction,
) -> (m: int)
    requires
        holds_programs(whole.app_dir@),
        is_under_way((InstallAction::Replace { replacement, rest }), files, before, whole, n),
        does(files, (InstallAction::Replace { replacement, rest }), reply, changed),
        goes_on_with((InstallAction::Replace { replacement, rest }), reply, next),
    ensures
        is_under_way(next, changed, before, whole, m),
{
    let dir = whole.app_dir@;
    let tool = whole.unpacks@[n].tool;
    let new = whole.unpacks@[n].content->Ok_0@;
    let after = replacement.after(reply);
    lemma_paths_differ(dir);
    let here = program_path(dir, tool);
    let staged = unpacked_path(dir, tool);
    let old = choose|old: Option<Seq<u8>>|
        #[trigger] replacement.stands(files, old, new) && (before.dom().contains(here)
            ==> old is Some);
    law_replacement_keeps_a_file(replacement, files, old, new, reply, changed);
    assert forall|other: FfmpegTool|
        #![trigger program_path(dir, other)]
        other != tool implies is_in_place(changed, whole, n, other) && is_kept(
        changed,
        before,
        dir,
        other,
    ) by {
        lemma_other_program(replacement, files, before, whole, n, reply, changed, other);
    }
    assert(after.stands(changed, old, new));
    match after.step {
        ReplaceStep::Over(Ok(_)) => {
            assert(held(changed, here) == Some(new));
            assert forall|other: FfmpegTool|
                #![trigger program_path(dir, other)]
                is_in_place(changed, whole, n + 1, other) && is_kept(changed, before, dir, other) by {
                lemma_one_more_in_place(changed, whole, n, other);
            }
            assert(is_all_in_place(changed, before, whole, n + 1));
            n + 1
        },
        ReplaceStep::Over(Err(_)) => {
            assert forall|other: FfmpegTool|
                before.dom().contains(#[trigger] program_path(dir, other)) implies changed.dom().contains(
            program_path(dir, other)) || changed.dom().contains(backup_path(dir, other)) by {
                if other != tool {
                    assert(is_kept(changed, before, dir, other));
                }
            }
            n
        },
        _ => {
            assert(is_replacing(after, changed, before, whole, n));
            n
        },
    }
}

/// The course of an installation up to any of its actions.
proof fn lemma_course(
    actions: Seq<InstallAction>,
    replies: Seq<FileReply>,
    disks: Seq<Map<Seq<char>, Seq<u8>>>,
    whole: Unpacking,
    at: int,
) -> (n: int)
    requires
        is_course(actions, replies, disks),
        actions[0] == InstallAction::Create(whole),
        whole.unpacks@.len() > 0,
        holds_programs(whole.app_dir@),
        0 <= at < actions.len(),
    ensures
        is_under_way(actions[at], disks[at], disks[0], whole, n),
    decreases at,
{
    if at == 0 {
        assert(whole.unpacks@.skip(0) =~= whole.unpacks@);
        assert(is_all_in_place(disks[0], disks[0], whole, 0));
        0
    } else {
        let k = at - 1;
        let n = lemma_course(actions, replies, disks, whole, k);
        assert(does(disks[k], actions[k], replies[k], disks[k + 1]));
        match actions[k] {
            InstallAction::Create(unpacking) => {
                lemma_creation(
                    unpacking,
                    disks[k],
                    disks[0],
                    whole,
                    n,
                    replies[k],
                    disks[at],
                    actions[at],
                );
                n
            },
            InstallAction::Write(unpacking) => {
                lemma_writing(
                    unpacking,
                    disks[k],
                    disks[0],
                    whole,
                    n,
                    replies[k],
                    disks[at],
                    actions[at],
                );
                n
            },
            InstallAction::Replace { replacement, rest } => lemma_replacing(
                replacement,
                rest,
                disks[k],
                disks[0],
                whole,
                n,
                replies[k],
                disks[at],
                actions[at],
            ),
            _ => n,
        }
    }
}

/// Whatever is on the disk, an unpacking that ends well leaves each program that it unpacked at its
/// own path, with the content that was unpacked last of it: ffmpeg at `ffmpeg.exe` and ffprobe at
/// `ffprobe.exe` of the folder.
pub proof fn law_unpacked_programs_end_in_their_places(
    actions: Seq<InstallAction>,
    replies: Seq<FileReply>,
    disks: Seq<Map<Seq<char>, Seq<u8>>>,
    whole: Unpacking,
    tool: FfmpegTool,
    at: int,
)
    requires
        is_course(actions, replies, disks),
        actions[0] == InstallAction::Create(whole),
        whole.unpacks@.len() > 0,
        holds_programs(whole.app_dir@),
        actions.last() matches InstallAction::Finish { result, .. } && result is Ok,
        is_last_of(unpack_models(whole.unpacks@), tool, at),
    ensures
        whole.unpacks@[at].content is Ok,
        held(disks.last(), program_path(whole.app_dir@, tool)) == Some(
            whole.unpacks@[at].content->Ok_0@,
        ),
{
    let n = lemma_course(actions, replies, disks, whole, actions.len() - 1);
    let list = unpack_models(whole.unpacks@);
    let here = program_path(whole.app_dir@, tool);
    assert(is_in_place(disks.last(), whole, whole.unpacks@.len() as int, tool));
    assert(list[at] == whole.unpacks@[at]@);
    assert forall|k: int| at < k < whole.unpacks@.len() implies (
    #[trigger] whole.unpacks@[k]).tool != tool by {
        assert(list[k] == whole.unpacks@[k]@);
        assert(list[k].tool != tool);
    }
    assert(is_last_of_first(whole, tool, at, whole.unpacks@.len() as int));
}

/// However an unpacking ends, a program that was installed before is still there: at its path, or, if
/// it could not be brought back there, at the path of its backup.
pub proof fn law_installed_programs_are_not_lost(
    actions: Seq<InstallAction>,
    replies: Seq<FileReply>,
    disks: Seq<Map<Seq<char>, Seq<u8>>>,
    whole: Unpacking,
    tool: FfmpegTool,
)
    requires
        is_course(actions, replies, disks),
        actions[0] == InstallAction::Create(whole),
        whole.unpacks@.len() > 0,
        holds_programs(whole.app_dir@),
        actions.last() is Finish,
        disks[0].dom().contains(program_path(whole.app_dir@, tool)),
    ensures
        disks.last().dom().contains(program_path(whole.app_dir@, tool))
            || disks.last().dom().contains(backup_path(whole.app_dir@, tool)),
{
    let n = lemma_course(actions, replies, disks, whole, actions.len() - 1);
}

/// An archive that was downloaded and passed is installed so that, where all ends well, the file at
/// `ffmpeg.exe` holds what the last entry of the archive holds whose name ends with `bin/ffmpeg.exe`,
/// and the file at `ffprobe.exe` what the last one holds whose name ends with `bin/ffprobe.exe`, each
/// where it was asked for and whatever files were there before.
pub proof fn law_archive_programs_end_in_their_places(
    kind: ComponentKind,
    app_dir: String,
    zip_path: String,
    checksum_url: Option<String>,
    asset_name: Option<String>,
    manifest: Option<Result<String, String>>,
    bytes: Vec<u8>,
    len: nat,
    tool: FfmpegTool,
    j: int,
    actions: Seq<InstallAction>,
    replies: Seq<FileReply>,
    disks: Seq<Map<Seq<char>, Seq<u8>>>,
)
    requires
        zip_len(bytes@) == Ok::<nat, Seq<char>>(len),
        0 <= j < len,
        is_program(zip_entries(bytes@, len)[j], kind, tool),
        forall|k: int|
            j < k < len ==> !is_program(#[trigger] zip_entries(bytes@, len)[k], kind, tool),
        is_course(actions, replies, disks),
        call_ensures(
            after_inspection,
            (
                (InstallTarget::Ffmpeg { kind, app_dir, zip_path, checksum_url, asset_name }),
                &manifest,
                Ok(bytes),
            ),
            actions[0],
        ),
        holds_programs(app_dir@),
        actions.last() matches InstallAction::Finish { result, .. } && result is Ok,
    ensures
        zip_content(bytes@, j as nat) is Ok,
        held(disks.last(), program_path(app_dir@, tool)) == Some(
            zip_content(bytes@, j as nat)->Ok_0,
        ),
{
    let list = zip_entries(bytes@, len);
    let plan = zip_plan(bytes@, kind);
    let target = InstallTarget::Ffmpeg { kind, app_dir, zip_path, checksum_url, asset_name };
    lemma_something_is_unpacked(list, kind, Seq::empty(), tool, j);
    if actions.len() == 1 {
        assert(actions.last() == actions[0]);
    }
    match target.verdict_on(manifest, Ok(bytes)) {
        Err(_) => {
            assert(actions[0] is Finish);
            if actions.len() > 1 {
                assert(does(disks[0], actions[0], replies[0], disks[1]));
            }
        },
        Ok(_) => {
            let whole = choose|unpacking: Unpacking|
                {
                    &&& #[trigger] goes_on(actions[0], unpacking)
                    &&& unpacking.kind == kind
                    &&& unpacking.app_dir == app_dir
                    &&& unpacking.zip_path == zip_path
                    &&& unpack_models(unpacking.unpacks@) == plan.unpacks
                    &&& verdict(unpacking.outcome) == plan.outcome
                };
            assert(unpack_models(whole.unpacks@).len() == whole.unpacks@.len());
            lemma_outcome_is_kept(actions, replies, disks, whole, actions.len() - 1);
            assert(plan.outcome is Ok);
            let at = lemma_plan_last(list, kind, Seq::empty(), tool, j);
            law_unpacked_programs_end_in_their_places(actions, replies, disks, whole, tool, at);
            assert(unpack_models(whole.unpacks@)[at] == whole.unpacks@[at]@);
        },
    }
}

/// The outcome that an unpacking has after its last program is that of the plan.
proof fn lemma_outcome_is_kept(
    actions: Seq<InstallAction>,
    replies: Seq<FileReply>,
    disks: Seq<Map<Seq<char>, Seq<u8>>>,
    whole: Unpacking,
    at: int,
)
    requires
        is_course(actions, replies, disks),
        actions[0] == InstallAction::Create(whole),
        whole.unpacks@.len() > 0,
        0 <= at < actions.len(),
    ensures
        match actions[at] {
            InstallAction::Create(unpacking) => unpacking.outcome == whole.outcome
                && unpacking.unpacks@.len() > 0,
            InstallAction::Write(unpacking) => unpacking.outcome == whole.outcome
                && unpacking.unpacks@.len() > 0,
            InstallAction::Replace { rest: AfterReplace::Ffmpeg(unpacking), .. } => unpacking.outcome
                == whole.outcome,
            InstallAction::Finish { result, .. } => result is Ok ==> whole.outcome is Ok,
            _ => false,
        },
    decreases at,
{
    if at > 0 {
        let k = at - 1;
        lemma_outcome_is_kept(actions, replies, disks, whole, k);
        assert(does(disks[k], actions[k], replies[k], disks[k + 1]));
    }
}

/// A plan for entries among which a wanted program can be reached unpacks something, or ends badly.
proof fn lemma_something_is_unpacked(
    list: Seq<EntryModel>,
    kind: ComponentKind,
    done: Seq<UnpackModel>,
    tool: FfmpegTool,
    j: int,
)
    requires
        0 <= j < list.len(),
        is_program(list[j], kind, tool),
        forall|k: int| j < k < list.len() ==> !is_program(#[trigger] list[k], kind, tool),
    ensures
        plan_of(list, kind, done).outcome is Ok ==> plan_of(
            list,
            kind,
            done,
        ).unpacks.len() > 0,
{
    if plan_of(list, kind, done).outcome is Ok {
        let at = lemma_plan_last(list, kind, done, tool, j);
    }
}

} // verus!
