//! The ffmpeg archive: which of its entries are installed.
use crate::text::{ends, ends_with, lower};
use crate::updater::ComponentKind;
use std::io::Read;
use vstd::prelude::*;

verus! {

/// How many entries the zip archive in `bytes` has, or why it is none.
pub uninterp spec fn zip_len(bytes: Seq<u8>) -> Result<nat, Seq<char>>;

/// The name of an entry of the zip archive in `bytes`, or why there is none.
pub uninterp spec fn zip_name(bytes: Seq<u8>, index: nat) -> Result<Seq<char>, Seq<char>>;

/// What an entry of the zip archive in `bytes` holds, or why it cannot be read.
pub uninterp spec fn zip_content(bytes: Seq<u8>, index: nat) -> Result<Seq<u8>, Seq<char>>;

/// A text in lower case.
pub uninterp spec fn lowercase(text: Seq<char>) -> Seq<char>;

/// What a number of entries, or the lack of one, is.
pub open spec fn len_result(r: Result<usize, String>) -> Result<nat, Seq<char>> {
    match r {
        Ok(n) => Ok(n as nat),
        Err(err) => Err(err@),
    }
}

/// What a name, or the lack of one, is.
pub open spec fn name_result(r: Result<String, String>) -> Result<Seq<char>, Seq<char>> {
    match r {
        Ok(name) => Ok(name@),
        Err(err) => Err(err@),
    }
}

/// What a content, or the lack of one, is.
pub open spec fn content_result(r: Result<Vec<u8>, String>) -> Result<Seq<u8>, Seq<char>> {
    match r {
        Ok(content) => Ok(content@),
        Err(err) => Err(err@),
    }
}

/// `zip::ZipArchive::new` and `zip::ZipArchive::len`: whether the bytes are a zip archive, how many
/// entries it has, and what is wrong with one that is none, depends on the bytes alone.
#[verifier::external_body]
fn entry_count(bytes: &Vec<u8>) -> (r: Result<usize, String>)
    ensures
        len_result(r) == zip_len(bytes@),
{
    match zip::ZipArchive::new(std::io::Cursor::new(bytes.as_slice())) {
        Ok(archive) => Ok(archive.len()),
        Err(err) => Err(err.to_string()),
    }
}

/// `zip::ZipArchive::by_index` and `zip::read::ZipFile::name`: the name of an entry, or why the
/// entry cannot be opened, depends on the bytes of the archive and the position of the entry alone.
#[verifier::external_body]
fn entry_name(bytes: &Vec<u8>, index: usize) -> (r: Result<String, String>)
    ensures
        name_result(r) == zip_name(bytes@, index as nat),
{
    let mut archive = match zip::ZipArchive::new(std::io::Cursor::new(bytes.as_slice())) {
        Ok(archive) => archive,
        Err(err) => return Err(err.to_string()),
    };
    let name = match archive.by_index(index) {
        Ok(entry) => Ok(entry.name().to_string()),
        Err(err) => Err(err.to_string()),
    };
    name
}

/// `zip::ZipArchive::by_index` and reading the entry to its end: what the entry holds, or why it
/// cannot be read, depends on the bytes of the archive and the position of the entry alone.
#[verifier::external_body]
fn entry_content(bytes: &Vec<u8>, index: usize) -> (r: Result<Vec<u8>, String>)
    ensures
        content_result(r) == zip_content(bytes@, index as nat),
{
    let mut content = Vec::new();
    let mut archive = match zip::ZipArchive::new(std::io::Cursor::new(bytes.as_slice())) {
        Ok(archive) => archive,
        Err(err) => return Err(err.to_string()),
    };
    let mut entry = match archive.by_index(index) {
        Ok(entry) => entry,
        Err(err) => return Err(err.to_string()),
    };
    match entry.read_to_end(&mut content) {
        Ok(_) => Ok(content),
        Err(err) => Err(err.to_string()),
    }
}

/// `str::to_lowercase`: the text is a function of the given one. Of an ASCII text only the ASCII
/// letters change.
#[verifier::external_body]
fn to_lowercase(text: &str) -> (r: String)
    ensures
        r@ == lowercase(text@),
        vstd::utf8::is_ascii_chars(text@) ==> r@ == lower(text@),
{
    text.to_lowercase()
}

/// One of the two ffmpeg programs.
#[derive(Clone, Copy, Debug, PartialEq, Eq, Structural)]
pub enum FfmpegTool {
    Ffmpeg,
    Ffprobe,
}

impl FfmpegTool {
    /// The file that the program is installed as.
    pub open spec fn file_text(self) -> Seq<char> {
        match self {
            FfmpegTool::Ffmpeg => "ffmpeg.exe"@,
            FfmpegTool::Ffprobe => "ffprobe.exe"@,
        }
    }

    /// The file that the program is unpacked to.
    pub open spec fn staged_text(self) -> Seq<char> {
        match self {
            FfmpegTool::Ffmpeg => "ffmpeg.exe.tmp"@,
            FfmpegTool::Ffprobe => "ffprobe.exe.tmp"@,
        }
    }

    /// What the name of its entry ends with.
    pub open spec fn entry_text(self) -> Seq<char> {
        match self {
            FfmpegTool::Ffmpeg => "bin/ffmpeg.exe"@,
            FfmpegTool::Ffprobe => "bin/ffprobe.exe"@,
        }
    }

    /// The file that the program is installed as.
    pub fn file(self) -> (r: &'static str)
        ensures
            r@ == self.file_text(),
    {
        match self {
            FfmpegTool::Ffmpeg => "ffmpeg.exe",
            FfmpegTool::Ffprobe => "ffprobe.exe",
        }
    }

    /// The file that the program is unpacked to.
    pub fn staged(self) -> (r: &'static str)
        ensures
            r@ == self.staged_text(),
    {
        match self {
            FfmpegTool::Ffmpeg => "ffmpeg.exe.tmp",
            FfmpegTool::Ffprobe => "ffprobe.exe.tmp",
        }
    }

    /// Whether the program is part of what is to be installed.
    pub open spec fn is_part_of(self, kind: ComponentKind) -> bool {
        kind == ComponentKind::FfmpegBundle || kind == match self {
            FfmpegTool::Ffmpeg => ComponentKind::Ffmpeg,
            FfmpegTool::Ffprobe => ComponentKind::Ffprobe,
        }
    }

    /// Whether the program is part of what is to be installed.
    pub fn belongs_to(self, kind: ComponentKind) -> (r: bool)
        ensures
            r == self.is_part_of(kind),
    {
        kind == ComponentKind::FfmpegBundle || kind == match self {
            FfmpegTool::Ffmpeg => ComponentKind::Ffmpeg,
            FfmpegTool::Ffprobe => ComponentKind::Ffprobe,
        }
    }
}

/// An entry of an archive, or why it cannot be opened or read.
pub struct ArchiveEntry {
    /// The name, in lower case.
    pub name: Result<String, String>,
    /// The content, where it was asked for.
    pub content: Result<Vec<u8>, String>,
}

/// A program that is to be unpacked, and its content, or why that cannot be read.
pub struct Unpack {
    pub tool: FfmpegTool,
    pub content: Result<Vec<u8>, String>,
}

/// What an unpacking is.
#[verifier::ext_equal]
pub struct UnpackModel {
    pub tool: FfmpegTool,
    pub content: Result<Seq<u8>, Seq<char>>,
}

impl View for Unpack {
    type V = UnpackModel;

    open spec fn view(&self) -> UnpackModel {
        UnpackModel { tool: self.tool, content: content_result(self.content) }
    }
}

/// What is unpacked, in order, and how it ends once all of it was.
pub struct UnpackPlan {
    pub unpacks: Vec<Unpack>,
    pub outcome: Result<(), String>,
}

/// What a plan is.
#[verifier::ext_equal]
pub struct PlanModel {
    pub unpacks: Seq<UnpackModel>,
    pub outcome: Result<(), Seq<char>>,
}

impl View for UnpackPlan {
    type V = PlanModel;

    open spec fn view(&self) -> PlanModel {
        PlanModel {
            unpacks: self.unpacks@.map_values(|unpack: Unpack| unpack@),
            outcome: crate::checksum::verdict(self.outcome),
        }
    }
}

/// What an archive holds: the name of each entry in lower case and its content, or why they cannot
/// be had.
#[verifier::ext_equal]
pub struct EntryModel {
    pub name: Result<Seq<char>, Seq<char>>,
    pub content: Result<Seq<u8>, Seq<char>>,
}

/// The program of `kind` that an entry with the given name is.
pub open spec fn entry_tool(name: Seq<char>, kind: ComponentKind) -> Option<FfmpegTool> {
    if FfmpegTool::Ffmpeg.is_part_of(kind) && ends(name, FfmpegTool::Ffmpeg.entry_text()) {
        Some(FfmpegTool::Ffmpeg)
    } else if FfmpegTool::Ffprobe.is_part_of(kind) && ends(
        name,
        FfmpegTool::Ffprobe.entry_text(),
    ) {
        Some(FfmpegTool::Ffprobe)
    } else {
        None
    }
}

/// Whether the program is among what was unpacked.
pub open spec fn has_unpacked(unpacks: Seq<UnpackModel>, tool: FfmpegTool) -> bool {
    exists|i: int| 0 <= i < unpacks.len() && (#[trigger] unpacks[i]).tool == tool
}

/// How it ends where every entry was looked at: each program that is to be installed must have
/// been found.
pub open spec fn final_outcome(unpacks: Seq<UnpackModel>, kind: ComponentKind) -> Result<
    (),
    Seq<char>,
> {
    if (FfmpegTool::Ffmpeg.is_part_of(kind) && !has_unpacked(unpacks, FfmpegTool::Ffmpeg)) || (
    FfmpegTool::Ffprobe.is_part_of(kind) && !has_unpacked(unpacks, FfmpegTool::Ffprobe)) {
        Err("Выбранные компоненты ffmpeg не найдены в архиве"@)
    } else {
        Ok(())
    }
}

/// What is unpacked after `done` from the entries of `list`, which come in the order of the
/// archive, and how it ends. Every entry that is a program to be installed is unpacked; an entry
/// that cannot be opened ends it, and so does one that cannot be read.
pub open spec fn plan_of(
    list: Seq<EntryModel>,
    kind: ComponentKind,
    done: Seq<UnpackModel>,
) -> PlanModel
    decreases list.len(),
{
    if list.len() == 0 {
        PlanModel { unpacks: done, outcome: final_outcome(done, kind) }
    } else {
        match list[0].name {
            Err(err) => PlanModel { unpacks: done, outcome: Err(err) },
            Ok(name) => match entry_tool(name, kind) {
                None => plan_of(list.drop_first(), kind, done),
                Some(tool) => {
                    let unpacked = done.push(UnpackModel { tool, content: list[0].content });
                    match list[0].content {
                        Err(err) => PlanModel { unpacks: unpacked, outcome: Err(err) },
                        Ok(_) => plan_of(list.drop_first(), kind, unpacked),
                    }
                },
            },
        }
    }
}

/// The entries of the zip archive in `bytes`, with their names in lower case.
pub open spec fn zip_entries(bytes: Seq<u8>, len: nat) -> Seq<EntryModel> {
    Seq::new(
        len,
        |i: int|
            EntryModel {
                name: match zip_name(bytes, i as nat) {
                    Ok(name) => Ok(lowercase(name)),
                    Err(err) => Err(err),
                },
                content: zip_content(bytes, i as nat),
            },
    )
}

/// What is unpacked from the zip archive in `bytes`, and how it ends.
pub open spec fn zip_plan(bytes: Seq<u8>, kind: ComponentKind) -> PlanModel {
    match zip_len(bytes) {
        Ok(len) => plan_of(zip_entries(bytes, len), kind, Seq::empty()),
        Err(err) => PlanModel { unpacks: Seq::empty(), outcome: Err(err) },
    }
}

/// The program of `kind` that an entry with the given name is.
pub fn tool_of_entry(name: &str, kind: ComponentKind) -> (r: Option<FfmpegTool>)
    ensures
        r == entry_tool(name@, kind),
{
    if FfmpegTool::Ffmpeg.belongs_to(kind) && ends_with(name, "bin/ffmpeg.exe") {
        Some(FfmpegTool::Ffmpeg)
    } else if FfmpegTool::Ffprobe.belongs_to(kind) && ends_with(name, "bin/ffprobe.exe") {
        Some(FfmpegTool::Ffprobe)
    } else {
        None
    }
}

impl UnpackPlan {
    /// Whether the program is among what is unpacked.
    fn unpacks_tool(&self, tool: FfmpegTool) -> (r: bool)
        ensures
            r == has_unpacked(self@.unpacks, tool),
    {
        let mut i: usize = 0;
        while i < self.unpacks.len()
            invariant
                i <= self.unpacks.len(),
                forall|j: int| 0 <= j < i ==> (#[trigger] self@.unpacks[j]).tool != tool,
            decreases self.unpacks.len() - i,
        {
            assert(self@.unpacks[i as int].tool == self.unpacks@[i as int].tool);
            if self.unpacks[i].tool == tool {
                return true;
            }
            i = i + 1;
        }
        false
    }

    /// Ends a plan for which every entry was looked at.
    fn conclude(self, kind: ComponentKind) -> (r: Self)
        ensures
            r@ == (PlanModel {
                unpacks: self@.unpacks,
                outcome: final_outcome(self@.unpacks, kind),
            }),
    {
        let lacks_ffmpeg = FfmpegTool::Ffmpeg.belongs_to(kind) && !self.unpacks_tool(
            FfmpegTool::Ffmpeg,
        );
        let lacks_ffprobe = FfmpegTool::Ffprobe.belongs_to(kind) && !self.unpacks_tool(
            FfmpegTool::Ffprobe,
        );
        let outcome = if lacks_ffmpeg || lacks_ffprobe {
            Err("Выбранные компоненты ffmpeg не найдены в архиве".to_owned())
        } else {
            Ok(())
        };
        UnpackPlan { unpacks: self.unpacks, outcome }
    }
}

impl View for ArchiveEntry {
    type V = EntryModel;

    open spec fn view(&self) -> EntryModel {
        EntryModel { name: name_result(self.name), content: content_result(self.content) }
    }
}

/// What the entries of `list` are.
pub open spec fn entries(list: Seq<ArchiveEntry>) -> Seq<EntryModel> {
    list.map_values(|entry: ArchiveEntry| entry@)
}

/// What is unpacked from the entries of an archive, and how it ends.
pub fn plan_unpacking(list: Vec<ArchiveEntry>, kind: ComponentKind) -> (r: UnpackPlan)
    ensures
        r@ == plan_of(entries(list@), kind, Seq::empty()),
{
    let mut rest = list;
    let mut plan = UnpackPlan { unpacks: Vec::new(), outcome: Ok(()) };
    assert(plan@.unpacks =~= Seq::<UnpackModel>::empty());
    while rest.len() > 0
        invariant
            plan_of(entries(list@), kind, Seq::empty()) == plan_of(
                entries(rest@),
                kind,
                plan@.unpacks,
            ),
        decreases rest.len(),
    {
        let ghost left = entries(rest@);
        let ghost done = plan@.unpacks;
        let entry = rest.remove(0);
        assert(left[0] == entry@);
        assert(entries(rest@) =~= left.drop_first());
        match entry.name {
            Err(err) => {
                return UnpackPlan { unpacks: plan.unpacks, outcome: Err(err) };
            },
            Ok(name) => {
                if let Some(tool) = tool_of_entry(name.as_str(), kind) {
                    let failure = match &entry.content {
                        Err(err) => Some(err.clone()),
                        Ok(_) => None,
                    };
                    plan.unpacks.push(Unpack { tool, content: entry.content });
                    assert(plan@.unpacks =~= done.push(
                        UnpackModel { tool, content: left[0].content },
                    ));
                    if let Some(err) = failure {
                        return UnpackPlan { unpacks: plan.unpacks, outcome: Err(err) };
                    }
                }
            },
        }
    }
    plan.conclude(kind)
}

/// Whether two entries are unpacked in the same way: they have the same name, and the same content
/// where it matters.
pub open spec fn same_entry(a: EntryModel, b: EntryModel, kind: ComponentKind) -> bool {
    &&& a.name == b.name
    &&& a.name is Ok && entry_tool(a.name->Ok_0, kind) is Some ==> a.content == b.content
}

/// What is unpacked depends on the content of the entries that are unpacked alone, and on nothing
/// after an entry that cannot be opened.
proof fn lemma_plan_of_same(
    a: Seq<EntryModel>,
    b: Seq<EntryModel>,
    kind: ComponentKind,
    done: Seq<UnpackModel>,
)
    requires
        a.len() <= b.len(),
        forall|i: int| 0 <= i < a.len() ==> same_entry(#[trigger] a[i], b[i], kind),
        a.len() < b.len() ==> a.len() > 0 && a.last().name is Err,
    ensures
        plan_of(a, kind, done) == plan_of(b, kind, done),
    decreases a.len(),
{
    if a.len() > 0 {
        assert(same_entry(a[0], b[0], kind));
        let x = a.drop_first();
        let y = b.drop_first();
        if a[0].name is Ok {
            assert(a.len() < b.len() ==> x.last() == a.last());
            assert forall|i: int| 0 <= i < x.len() implies same_entry(
                #[trigger] x[i],
                y[i],
                kind,
            ) by {
                assert(x[i] == a[i + 1]);
                assert(y[i] == b[i + 1]);
            }
            match entry_tool(a[0].name->Ok_0, kind) {
                None => lemma_plan_of_same(x, y, kind, done),
                Some(tool) => lemma_plan_of_same(
                    x,
                    y,
                    kind,
                    done.push(UnpackModel { tool, content: a[0].content }),
                ),
            }
        }
    }
}

/// What is unpacked from the zip archive in `bytes`, and how it ends. Only the entries that are
/// unpacked are read.
pub fn install_ffmpeg_from_zip(bytes: &Vec<u8>, kind: ComponentKind) -> (r: UnpackPlan)
    ensures
        r@ == zip_plan(bytes@, kind),
{
    let len = match entry_count(bytes) {
        Ok(len) => len,
        Err(err) => {
            let plan = UnpackPlan { unpacks: Vec::new(), outcome: Err(err) };
            assert(plan@.unpacks =~= Seq::<UnpackModel>::empty());
            return plan;
        },
    };
    let ghost all = zip_entries(bytes@, len as nat);
    let mut list: Vec<ArchiveEntry> = Vec::new();
    let mut i: usize = 0;
    let mut opened = true;
    while i < len && opened
        invariant
            i <= len,
            len as nat == all.len(),
            all == zip_entries(bytes@, len as nat),
            list@.len() == i,
            forall|j: int| 0 <= j < i ==> same_entry(#[trigger] entries(list@)[j], all[j], kind),
            !opened ==> i > 0 && entries(list@).last().name is Err,
        decreases len - i,
    {
        let ghost before = entries(list@);
        let name = match entry_name(bytes, i) {
            Ok(name) => Ok(to_lowercase(name.as_str())),
            Err(err) => Err(err),
        };
        let wanted = match &name {
            Ok(name) => tool_of_entry(name.as_str(), kind).is_some(),
            Err(_) => {
                opened = false;
                false
            },
        };
        let content = if wanted {
            entry_content(bytes, i)
        } else {
            Ok(Vec::new())
        };
        let entry = ArchiveEntry { name, content };
        assert(same_entry(entry@, all[i as int], kind));
        list.push(entry);
        assert(entries(list@) =~= before.push(entry@));
        assert forall|j: int| 0 <= j < i + 1 implies same_entry(
            #[trigger] entries(list@)[j],
            all[j],
            kind,
        ) by {
            if j < i {
                assert(entries(list@)[j] == before[j]);
            }
        }
        i = i + 1;
    }
    proof {
        lemma_plan_of_same(entries(list@), all, kind, Seq::empty());
    }
    plan_unpacking(list, kind)
}

/// An installation from an archive that ends well unpacks every program that was asked for, and
/// reads all of them.
pub proof fn law_unpacked_is_complete(
    list: Seq<EntryModel>,
    kind: ComponentKind,
    tool: FfmpegTool,
)
    requires
        plan_of(list, kind, Seq::empty()).outcome is Ok,
    ensures
        tool.is_part_of(kind) <==> has_unpacked(plan_of(list, kind, Seq::empty()).unpacks, tool),
        forall|i: int|
            0 <= i < plan_of(list, kind, Seq::empty()).unpacks.len() ==> (
            #[trigger] plan_of(list, kind, Seq::empty()).unpacks[i]).content is Ok,
{
    lemma_plan_of(list, kind, Seq::empty());
}

/// Nothing is unpacked but programs that were asked for, and only the last thing can be one that
/// cannot be read.
proof fn lemma_plan_of(list: Seq<EntryModel>, kind: ComponentKind, done: Seq<UnpackModel>)
    requires
        forall|i: int|
            0 <= i < done.len() ==> (#[trigger] done[i]).tool.is_part_of(kind)
                && done[i].content is Ok,
    ensures
        ({
            let plan = plan_of(list, kind, done);
            &&& forall|i: int|
                0 <= i < plan.unpacks.len() ==> (#[trigger] plan.unpacks[i]).tool.is_part_of(kind)
            &&& plan.outcome is Ok ==> (forall|i: int|
                0 <= i < plan.unpacks.len() ==> (#[trigger] plan.unpacks[i]).content is Ok)
            &&& plan.outcome is Ok ==> final_outcome(plan.unpacks, kind) is Ok
        }),
    decreases list.len(),
{
    if list.len() > 0 && list[0].name is Ok {
        match entry_tool(list[0].name->Ok_0, kind) {
            None => lemma_plan_of(list.drop_first(), kind, done),
            Some(tool) => {
                let unpacked = done.push(UnpackModel { tool, content: list[0].content });
                if list[0].content is Ok {
                    lemma_plan_of(list.drop_first(), kind, unpacked);
                }
            },
        }
    }
}

/// What the name of an entry of an archive, in lower case, has to end with for the entry to be the
/// program.
pub open spec fn entry_ending(tool: FfmpegTool) -> Seq<char> {
    match tool {
        FfmpegTool::Ffmpeg => "bin/ffmpeg.exe"@,
        FfmpegTool::Ffprobe => "bin/ffprobe.exe"@,
    }
}

/// Whether the program is wanted where a component of the kind is installed.
pub open spec fn is_wanted(tool: FfmpegTool, kind: ComponentKind) -> bool {
    match kind {
        ComponentKind::Ffmpeg => tool == FfmpegTool::Ffmpeg,
        ComponentKind::Ffprobe => tool == FfmpegTool::Ffprobe,
        ComponentKind::FfmpegBundle => true,
        _ => false,
    }
}

/// Whether a text is something and then `ending`.
pub open spec fn has_ending(s: Seq<char>, ending: Seq<char>) -> bool {
    exists|start: Seq<char>| s == #[trigger] (start + ending)
}

/// Whether the entry is the program, and the program is wanted.
pub open spec fn is_program(entry: EntryModel, kind: ComponentKind, tool: FfmpegTool) -> bool {
    &&& is_wanted(tool, kind)
    &&& entry.name is Ok
    &&& has_ending(entry.name->Ok_0, entry_ending(tool))
}

/// A text ends with another exactly where it is something and that other text.
proof fn lemma_ends(s: Seq<char>, suffix: Seq<char>)
    ensures
        ends(s, suffix) <==> has_ending(s, suffix),
{
    let at = s.len() - suffix.len();
    if ends(s, suffix) {
        let a = s.take(at);
        assert(s =~= a + suffix) by {
            assert forall|i: int| at <= i < s.len() implies s[i] == suffix[i - at] by {
                assert(s.subrange(at, at + suffix.len() as int)[i - at] == s[i]);
            }
        }
    }
    if has_ending(s, suffix) {
        let a = choose|a: Seq<char>| s == #[trigger] (a + suffix);
        assert(s.subrange(at, at + suffix.len() as int) =~= suffix);
    }
}

/// An entry is one program at most, and which one it is follows from its name and what is wanted.
proof fn lemma_entry_tool(name: Seq<char>, kind: ComponentKind, tool: FfmpegTool)
    ensures
        entry_tool(name, kind) == Some(tool) <==> is_wanted(tool, kind) && has_ending(
            name,
            entry_ending(tool),
        ),
{
    lemma_ends(name, "bin/ffmpeg.exe"@);
    lemma_ends(name, "bin/ffprobe.exe"@);
    reveal_strlit("bin/ffmpeg.exe");
    reveal_strlit("bin/ffprobe.exe");
    if ends(name, "bin/ffmpeg.exe"@) && ends(name, "bin/ffprobe.exe"@) {
        let a = choose|a: Seq<char>| name == #[trigger] (a + "bin/ffmpeg.exe"@);
        let b = choose|b: Seq<char>| name == #[trigger] (b + "bin/ffprobe.exe"@);
        assert(name[name.len() - 5] == "bin/ffmpeg.exe"@[9]);
        assert(name[name.len() - 5] == "bin/ffprobe.exe"@[10]);
    }
}

/// An entry of an archive is ffmpeg exactly where its name ends with `bin/ffmpeg.exe` and ffmpeg is
/// to be installed, alone or with ffprobe; in the same way it is ffprobe.
pub proof fn law_entry_is_the_program_it_is_named_for(
    name: &str,
    kind: ComponentKind,
    r: Option<FfmpegTool>,
)
    requires
        call_ensures(tool_of_entry, (name, kind), r),
    ensures
        r == Some(FfmpegTool::Ffmpeg) <==> (kind == ComponentKind::Ffmpeg || kind
            == ComponentKind::FfmpegBundle) && has_ending(name@, "bin/ffmpeg.exe"@),
        r == Some(FfmpegTool::Ffprobe) <==> (kind == ComponentKind::Ffprobe || kind
            == ComponentKind::FfmpegBundle) && has_ending(name@, "bin/ffprobe.exe"@),
{
    lemma_entry_tool(name@, kind, FfmpegTool::Ffmpeg);
    lemma_entry_tool(name@, kind, FfmpegTool::Ffprobe);
}

/// Whether what is unpacked last of the program, if anything, is in `unpacks` at `at`.
pub open spec fn is_last_of(unpacks: Seq<UnpackModel>, tool: FfmpegTool, at: int) -> bool {
    &&& 0 <= at < unpacks.len()
    &&& unpacks[at].tool == tool
    &&& forall|k: int| at < k < unpacks.len() ==> (#[trigger] unpacks[k]).tool != tool
}

/// What follows in a plan comes after what was done, and each of it is from an entry.
proof fn lemma_plan_sources(list: Seq<EntryModel>, kind: ComponentKind, done: Seq<UnpackModel>)
    ensures
        ({
            let plan = plan_of(list, kind, done);
            &&& plan.unpacks.len() >= done.len()
            &&& plan.unpacks.take(done.len() as int) == done
            &&& forall|i: int|
                done.len() <= i < plan.unpacks.len() ==> exists|j: int|
                    0 <= j < list.len() && is_program(
                        #[trigger] list[j],
                        kind,
                        (#[trigger] plan.unpacks[i]).tool,
                    ) && plan.unpacks[i].content == list[j].content
        }),
    decreases list.len(),
{
    let plan = plan_of(list, kind, done);
    if list.len() > 0 && list[0].name is Ok {
        let rest = list.drop_first();
        let name = list[0].name->Ok_0;
        lemma_entry_tool(name, kind, FfmpegTool::Ffmpeg);
        lemma_entry_tool(name, kind, FfmpegTool::Ffprobe);
        let unpacked = match entry_tool(name, kind) {
            None => done,
            Some(tool) => done.push(UnpackModel { tool, content: list[0].content }),
        };
        if entry_tool(name, kind) is None || list[0].content is Ok {
            lemma_plan_sources(rest, kind, unpacked);
            assert(plan == plan_of(rest, kind, unpacked));
            assert(plan.unpacks.take(done.len() as int) =~= unpacked.take(done.len() as int)) by {
                assert(plan.unpacks.take(unpacked.len() as int).take(done.len() as int)
                    =~= plan.unpacks.take(done.len() as int));
            }
        } else {
            assert(plan.unpacks == unpacked);
        }
        assert(unpacked.take(done.len() as int) =~= done);
        assert forall|i: int| done.len() <= i < plan.unpacks.len() implies exists|j: int|
            0 <= j < list.len() && is_program(
                #[trigger] list[j],
                kind,
                (#[trigger] plan.unpacks[i]).tool,
            ) && plan.unpacks[i].content == list[j].content by {
            if i < unpacked.len() {
                assert(plan.unpacks.take(unpacked.len() as int)[i] == plan.unpacks[i]);
                assert(plan.unpacks[i] == unpacked[i]);
                assert(is_program(list[0], kind, plan.unpacks[i].tool));
            } else {
                let j = choose|j: int|
                    0 <= j < rest.len() && is_program(
                        #[trigger] rest[j],
                        kind,
                        plan.unpacks[i].tool,
                    ) && plan.unpacks[i].content == rest[j].content;
                assert(list[j + 1] == rest[j]);
            }
        }
    } else {
        assert(plan.unpacks.take(done.len() as int) =~= done);
    }
}

/// In a plan that ends well, the last entry that is a program is the last thing that is unpacked of
/// that program.
pub proof fn lemma_plan_last(
    list: Seq<EntryModel>,
    kind: ComponentKind,
    done: Seq<UnpackModel>,
    tool: FfmpegTool,
    j: int,
) -> (at: int)
    requires
        plan_of(list, kind, done).outcome is Ok,
        0 <= j < list.len(),
        is_program(list[j], kind, tool),
        forall|k: int| j < k < list.len() ==> !is_program(#[trigger] list[k], kind, tool),
    ensures
        done.len() <= at,
        is_last_of(plan_of(list, kind, done).unpacks, tool, at),
        plan_of(list, kind, done).unpacks[at].content == list[j].content,
    decreases list.len(),
{
    let plan = plan_of(list, kind, done);
    let rest = list.drop_first();
    let name = list[0].name->Ok_0;
    lemma_entry_tool(name, kind, FfmpegTool::Ffmpeg);
    lemma_entry_tool(name, kind, FfmpegTool::Ffprobe);
    let unpacked = match entry_tool(name, kind) {
        None => done,
        Some(tool) => done.push(UnpackModel { tool, content: list[0].content }),
    };
    assert(plan == plan_of(rest, kind, unpacked));
    assert forall|k: int| j - 1 < k < rest.len() implies !is_program(
        #[trigger] rest[k],
        kind,
        tool,
    ) by {
        assert(rest[k] == list[k + 1]);
    }
    if j > 0 {
        assert(rest[j - 1] == list[j]);
        lemma_plan_last(rest, kind, unpacked, tool, j - 1)
    } else {
        assert(entry_tool(name, kind) == Some(tool));
        lemma_plan_sources(rest, kind, unpacked);
        let at = done.len() as int;
        assert(plan.unpacks.take(unpacked.len() as int)[at] == unpacked[at]);
        assert forall|k: int| at < k < plan.unpacks.len() implies (
        #[trigger] plan.unpacks[k]).tool != tool by {
            let i = choose|i: int|
                0 <= i < rest.len() && is_program(#[trigger] rest[i], kind, plan.unpacks[k].tool)
                    && plan.unpacks[k].content == rest[i].content;
            assert(!is_program(rest[i], kind, tool));
        }
        at
    }
}

/// Nothing is unpacked from an archive but its entries that are wanted programs, each with its own
/// content.
pub proof fn law_only_programs_are_unpacked(
    list: Vec<ArchiveEntry>,
    kind: ComponentKind,
    r: UnpackPlan,
    i: int,
)
    requires
        call_ensures(plan_unpacking, (list, kind), r),
        0 <= i < r.unpacks@.len(),
    ensures
        exists|j: int|
            0 <= j < list@.len() && is_program((#[trigger] list@[j])@, kind, r.unpacks@[i].tool)
                && r.unpacks@[i]@.content == list@[j]@.content,
{
    let all = entries(list@);
    lemma_plan_sources(all, kind, Seq::empty());
    assert(r@.unpacks[i] == r.unpacks@[i]@);
    let j = choose|j: int|
        0 <= j < all.len() && is_program(#[trigger] all[j], kind, r@.unpacks[i].tool)
            && r@.unpacks[i].content == all[j].content;
    assert(all[j] == list@[j]@);
}

/// From an archive that is unpacked well, every wanted program is unpacked, and what is unpacked last
/// of it is the last entry of the archive that is that program.
pub proof fn law_last_entry_is_unpacked_last(
    list: Vec<ArchiveEntry>,
    kind: ComponentKind,
    r: UnpackPlan,
    tool: FfmpegTool,
    j: int,
)
    requires
        call_ensures(plan_unpacking, (list, kind), r),
        r.outcome is Ok,
        0 <= j < list@.len(),
        is_program(list@[j]@, kind, tool),
        forall|k: int| j < k < list@.len() ==> !is_program((#[trigger] list@[k])@, kind, tool),
    ensures
        exists|at: int|
            is_last_of(r@.unpacks, tool, at) && (#[trigger] r@.unpacks[at]).content
                == list@[j]@.content,
{
    let all = entries(list@);
    assert(all[j] == list@[j]@);
    assert forall|k: int| j < k < all.len() implies !is_program(#[trigger] all[k], kind, tool) by {
        assert(all[k] == list@[k]@);
    }
    let at = lemma_plan_last(all, kind, Seq::empty(), tool, j);
    assert(r@.unpacks[at].content == list@[j]@.content);
}

/// Whether one of the entries is the program, and the program is wanted.
pub open spec fn has_program(list: Seq<EntryModel>, kind: ComponentKind, tool: FfmpegTool) -> bool {
    exists|j: int| 0 <= j < list.len() && is_program(#[trigger] list[j], kind, tool)
}

/// Unpacking an archive whose entries can all be opened and read ends well exactly where each wanted
/// program is among them.
pub proof fn law_missing_program_is_reported(
    list: Vec<ArchiveEntry>,
    kind: ComponentKind,
    r: UnpackPlan,
)
    requires
        call_ensures(plan_unpacking, (list, kind), r),
        forall|j: int|
            0 <= j < list@.len() ==> (#[trigger] list@[j])@.name is Ok && list@[j]@.content is Ok,
    ensures
        r.outcome is Ok <==> forall|tool: FfmpegTool|
            #[trigger] is_wanted(tool, kind) ==> has_program(entries(list@), kind, tool),
        r.outcome is Err ==> r.outcome->Err_0@
            == "Выбранные компоненты ffmpeg не найдены в архиве"@,
{
    let all = entries(list@);
    assert forall|j: int| 0 <= j < all.len() implies (#[trigger] all[j]).name is Ok
        && all[j].content is Ok by {
        assert(all[j] == list@[j]@);
    }
    let plan = plan_of(all, kind, Seq::empty());
    lemma_readable_plan(all, kind, Seq::empty(), FfmpegTool::Ffmpeg);
    lemma_readable_plan(all, kind, Seq::empty(), FfmpegTool::Ffprobe);
    assert(r@.outcome == crate::checksum::verdict(r.outcome));
    assert(is_wanted(FfmpegTool::Ffmpeg, kind) == FfmpegTool::Ffmpeg.is_part_of(kind));
    assert(is_wanted(FfmpegTool::Ffprobe, kind) == FfmpegTool::Ffprobe.is_part_of(kind));
    if r.outcome is Ok {
        assert forall|tool: FfmpegTool| #[trigger] is_wanted(tool, kind) implies has_program(
            all,
            kind,
            tool,
        ) by {
            match tool {
                FfmpegTool::Ffmpeg => {},
                FfmpegTool::Ffprobe => {},
            }
        }
    }
}

/// From entries that can all be opened and read, each wanted program among them is unpacked.
proof fn lemma_readable_plan(
    list: Seq<EntryModel>,
    kind: ComponentKind,
    done: Seq<UnpackModel>,
    tool: FfmpegTool,
)
    requires
        forall|j: int|
            0 <= j < list.len() ==> (#[trigger] list[j]).name is Ok && list[j].content is Ok,
    ensures
        plan_of(list, kind, done).outcome == final_outcome(plan_of(list, kind, done).unpacks, kind),
        has_unpacked(plan_of(list, kind, done).unpacks, tool) <==> has_unpacked(done, tool)
            || has_program(list, kind, tool),
    decreases list.len(),
{
    if list.len() > 0 {
        let rest = list.drop_first();
        let name = list[0].name->Ok_0;
        lemma_entry_tool(name, kind, FfmpegTool::Ffmpeg);
        lemma_entry_tool(name, kind, FfmpegTool::Ffprobe);
        let unpacked = match entry_tool(name, kind) {
            None => done,
            Some(found) => done.push(UnpackModel { tool: found, content: list[0].content }),
        };
        assert forall|j: int| 0 <= j < rest.len() implies (#[trigger] rest[j]).name is Ok
            && rest[j].content is Ok by {
            assert(rest[j] == list[j + 1]);
        }
        lemma_readable_plan(rest, kind, unpacked, tool);
        assert(list[0].content is Ok);
        assert(plan_of(list, kind, done) == plan_of(rest, kind, unpacked));
        if has_unpacked(done, tool) {
            let i = choose|i: int| 0 <= i < done.len() && (#[trigger] done[i]).tool == tool;
            assert(unpacked[i].tool == tool);
        }
        if is_program(list[0], kind, tool) {
            assert(entry_tool(name, kind) == Some(tool));
            assert(unpacked[done.len() as int].tool == tool);
        }
        if has_unpacked(unpacked, tool) {
            let i = choose|i: int| 0 <= i < unpacked.len() && (#[trigger] unpacked[i]).tool == tool;
            if i < done.len() {
                assert(done[i].tool == tool);
            } else {
                assert(is_program(list[0], kind, tool));
            }
        }
        if has_program(list, kind, tool) {
            let j = choose|j: int| 0 <= j < list.len() && is_program(#[trigger] list[j], kind, tool);
            if j > 0 {
                assert(rest[j - 1] == list[j]);
            }
        }
        if has_program(rest, kind, tool) {
            let j = choose|j: int| 0 <= j < rest.len() && is_program(#[trigger] rest[j], kind, tool);
            assert(list[j + 1] == rest[j]);
        }
    }
}

} // verus!
