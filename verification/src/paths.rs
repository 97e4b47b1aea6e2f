//! Windows paths as text: joining, file names, extensions, and the paths that the program uses.
//!
//! A path may begin with a prefix: a drive (`C:`), a share (`\\server\share`), a device
//! (`\\.\COM1`), or one of the verbatim prefixes, which begin with `\\?\`. Both separators are
//! read, and the backslash is written. After a verbatim prefix only the backslash separates, and a
//! `.` is a component like any other.
use crate::text::{
    after_last, chars_of, fields, lemma_run_before, lemma_run_len, opt_slice, run_end,
    run_len, same, slices, split_fields, suffix_after, CharClass,
};
use vstd::prelude::*;

verus! {

/// The name of the configuration file.
pub const CONFIG_FILE: &'static str = "config.toml";

/// The folder of the configuration file under the user's application data.
pub const APP_CONFIG_DIR: &'static str = "ytdlp-ui";

/// The file that lists what has been downloaded already.
pub const DOWNLOAD_ARCHIVE_FILE: &'static str = "download-archive.txt";

/// What is said where the running program has no name.
pub const NO_PROGRAM_NAME: &'static str = "Не удалось определить имя приложения";

/// Whether `c` separates the components of a path.
pub open spec fn is_separator(c: char) -> bool {
    c == '/' || c == '\\'
}

/// Whether `c` is an ASCII letter.
pub open spec fn is_letter(c: char) -> bool {
    'a' <= c <= 'z' || 'A' <= c <= 'Z'
}

/// Whether `p` begins with a drive letter and its colon.
pub open spec fn has_drive(p: Seq<char>) -> bool {
    p.len() >= 2 && is_letter(p[0]) && p[1] == ':'
}

/// Whether `p` is a drive letter with its colon, and nothing else.
pub open spec fn is_drive(p: Seq<char>) -> bool {
    p.len() == 2 && has_drive(p)
}

/// Whether `p` begins with two separators.
pub open spec fn begins_double(p: Seq<char>) -> bool {
    p.len() >= 2 && is_separator(p[0]) && is_separator(p[1])
}

/// Whether `p` has a verbatim prefix. These are written with backslashes alone.
pub open spec fn is_verbatim(p: Seq<char>) -> bool {
    p.len() >= 4 && p[0] == '\\' && p[1] == '\\' && p[2] == '?' && p[3] == '\\'
}

/// Whether `p` has a verbatim prefix that goes on with a server.
pub open spec fn is_verbatim_share(p: Seq<char>) -> bool {
    is_verbatim(p) && p.len() >= 8 && p[4] == 'U' && p[5] == 'N' && p[6] == 'C' && is_separator(
        p[7],
    )
}

/// Whether `p` has a verbatim prefix that goes on with a drive.
pub open spec fn is_verbatim_drive(p: Seq<char>) -> bool {
    is_verbatim(p) && p.len() >= 6 && is_letter(p[4]) && p[5] == ':' && (p.len() == 6
        || is_separator(p[6]))
}

/// Whether `p` begins with the mark of a device.
pub open spec fn is_device(p: Seq<char>) -> bool {
    begins_double(p) && p.len() >= 4 && p[2] == '.' && is_separator(p[3])
}

/// What separates the components of a path.
pub open spec fn separators(verbatim: bool) -> CharClass {
    if verbatim {
        CharClass::Only('\\')
    } else {
        CharClass::Separator
    }
}

/// The length of the share's name, where `s` begins with a server.
pub open spec fn share_len(s: Seq<char>, class: CharClass) -> nat {
    let server = run_len(s, class);
    if server < s.len() {
        run_len(s.skip(server as int + 1), class)
    } else {
        0
    }
}

/// The length of a server and its share, where `s` begins with them.
pub open spec fn place_len(s: Seq<char>, class: CharClass) -> nat {
    let share = share_len(s, class);
    if share > 0 {
        run_len(s, class) + 1 + share
    } else {
        run_len(s, class)
    }
}

/// The length of the prefix of `p`; zero where it has none.
pub open spec fn prefix_len(p: Seq<char>) -> int {
    if is_verbatim_share(p) {
        8 + place_len(p.skip(8), separators(true)) as int
    } else if is_verbatim_drive(p) {
        6
    } else if is_verbatim(p) {
        4 + run_len(p.skip(4), separators(true)) as int
    } else if is_device(p) {
        4 + run_len(p.skip(4), separators(false)) as int
    } else if begins_double(p) {
        let s = p.skip(2);
        if run_len(s, separators(false)) > 0 && share_len(s, separators(false)) > 0 {
            2 + place_len(s, separators(false)) as int
        } else {
            0
        }
    } else if has_drive(p) {
        2
    } else {
        0
    }
}

/// The length of the prefix of `p` and the root after it.
pub open spec fn root_len(p: Seq<char>) -> int {
    let n = prefix_len(p);
    if n < p.len() && is_separator(p[n]) {
        n + 1
    } else {
        n
    }
}

/// The components of `list`, each after a backslash.
pub open spec fn led(list: Seq<Seq<char>>) -> Seq<char>
    decreases list.len(),
{
    if list.len() == 0 {
        Seq::empty()
    } else {
        seq!['\\'] + list[0] + led(list.drop_first())
    }
}

/// The components of `p` after its prefix and root.
pub open spec fn parts_of(p: Seq<char>) -> Seq<Seq<char>> {
    fields(p.skip(root_len(p)), separators(is_verbatim(p)))
}

/// Whether a component stands for itself, and not for a folder above or for none.
pub open spec fn is_normal_part(part: Seq<char>) -> bool {
    part != seq!['.'] && part != seq!['.', '.']
}

/// The components `parts` after the components of `more` were walked, from the first on: `..` takes
/// back one component that stands for itself, and `.` is passed over.
pub open spec fn walked(parts: Seq<Seq<char>>, more: Seq<Seq<char>>) -> Seq<Seq<char>>
    decreases more.len(),
{
    if more.len() == 0 {
        parts
    } else {
        let next = if is_normal_part(more[0]) {
            parts.push(more[0])
        } else if more[0].len() == 2 && parts.len() > 0 && is_normal_part(parts.last()) {
            parts.drop_last()
        } else {
            parts
        };
        walked(next, more.drop_first())
    }
}

/// The path `name` taken from the folder `dir`, which has a verbatim prefix: it is written anew, with
/// one backslash before each component.
pub open spec fn joined_verbatim(dir: Seq<char>, name: Seq<char>) -> Seq<char> {
    let from_root = root_len(name) > 0;
    let start = if from_root {
        Seq::empty()
    } else {
        parts_of(dir)
    };
    let parts = walked(start, fields(name, separators(false)));
    dir.take(prefix_len(dir)) + (if parts.len() == 0 && (from_root || root_len(dir) > prefix_len(
        dir,
    )) {
        seq!['\\']
    } else {
        led(parts)
    })
}

/// The path `name` taken from the folder `dir`. A name with a prefix is a path of its own, and one
/// that begins with a separator keeps nothing but the prefix of the folder.
pub open spec fn joined_path(dir: Seq<char>, name: Seq<char>) -> Seq<char> {
    if prefix_len(name) > 0 {
        name
    } else if is_verbatim(dir) && name.len() > 0 {
        joined_verbatim(dir, name)
    } else if root_len(name) > 0 {
        dir.take(prefix_len(dir)) + name
    } else if dir.len() == 0 || is_separator(dir.last()) || is_drive(dir) {
        dir + name
    } else {
        dir.push('\\') + name
    }
}

/// `s` without the separators at its end and, unless the path is verbatim, the `.` components; the
/// first `floor` characters stay.
pub open spec fn trimmed_path(s: Seq<char>, floor: int, verbatim: bool) -> Seq<char>
    decreases s.len(),
{
    if s.len() == 0 || s.len() <= floor {
        s
    } else if separators(verbatim).has(s.last()) || !verbatim && s.last() == '.' && s.len() >= 2
        && is_separator(s[s.len() - 2]) {
        trimmed_path(s.drop_last(), floor, verbatim)
    } else {
        s
    }
}

/// `p` without the separators and the `.` components at its end.
pub open spec fn path_body(p: Seq<char>) -> Seq<char> {
    trimmed_path(p, root_len(p), is_verbatim(p))
}

/// The last component of `p`, where it names a file or a folder. Where there is nothing but a
/// prefix and a root, there is none.
pub open spec fn file_name_of(p: Seq<char>) -> Option<Seq<char>> {
    let name = after_last(path_body(p).skip(root_len(p)), separators(is_verbatim(p)));
    if name.len() == 0 || name == seq!['.'] || name == seq!['.', '.'] {
        None
    } else {
        Some(name)
    }
}

/// The folder of the file that `p` names.
pub open spec fn folder_of(p: Seq<char>, name: Seq<char>) -> Seq<char> {
    let s = path_body(p);
    trimmed_path(s.take(s.len() - name.len()), root_len(p), is_verbatim(p))
}

/// The length of the part of a file name before its extension.
pub open spec fn stem_len(name: Seq<char>) -> int {
    let dot = name.len() - after_last(name, CharClass::Only('.')).len() - 1;
    if dot <= 0 {
        name.len() as int
    } else {
        dot
    }
}

/// The part of a file name before its extension.
pub open spec fn stem_of(name: Seq<char>) -> Seq<char> {
    name.take(stem_len(name))
}

/// The extension of a file name.
pub open spec fn extension_of(name: Seq<char>) -> Option<Seq<char>> {
    if stem_len(name) == name.len() {
        None
    } else {
        Some(name.skip(stem_len(name) + 1))
    }
}

/// `p` with its extension replaced by `ext`; unchanged where `p` names no file.
pub open spec fn extended_path(p: Seq<char>, ext: Seq<char>) -> Seq<char> {
    match file_name_of(p) {
        Some(name) => {
            let s = path_body(p);
            s.take(s.len() - name.len()) + stem_of(name) + seq!['.'] + ext
        },
        None => p,
    }
}

/// The name of the file that a new version of the program `name` is downloaded to.
pub open spec fn staged_name(name: Seq<char>) -> Seq<char> {
    stem_of(name) + ".update.exe"@
}

/// The path that a new version of the program `p` is downloaded to: the new name, taken from the
/// folder of the program.
pub open spec fn staged_path(p: Seq<char>) -> Option<Seq<char>> {
    match file_name_of(p) {
        Some(name) => Some(joined_path(folder_of(p, name), staged_name(name))),
        None => None,
    }
}

/// Where a file is: the prefix of its path, whether a root follows that, and the folders.
#[verifier::ext_equal]
pub struct PlaceModel {
    pub prefix: Seq<char>,
    pub rooted: bool,
    pub folders: Seq<Seq<char>>,
}

/// Where the file `name` is that `p` names.
pub open spec fn place_of(p: Seq<char>, name: Seq<char>) -> PlaceModel {
    PlaceModel {
        prefix: p.take(prefix_len(p)),
        rooted: root_len(p) > prefix_len(p),
        folders: fields(folder_of(p, name).skip(root_len(p)), separators(is_verbatim(p))),
    }
}

/// The path of the configuration file. A portable program keeps it in its own folder.
pub open spec fn config_path_of(
    app_dir: Seq<char>,
    portable: bool,
    data_dir: Option<Seq<char>>,
) -> Seq<char> {
    match data_dir {
        Some(dir) if !portable => joined_path(joined_path(dir, APP_CONFIG_DIR@), CONFIG_FILE@),
        _ => joined_path(app_dir, CONFIG_FILE@),
    }
}

/// The prefix and the root are part of the path. What follows a prefix other than a drive is a
/// separator.
proof fn lemma_prefix_len(p: Seq<char>)
    ensures
        0 <= prefix_len(p) <= root_len(p) <= p.len(),
        prefix_len(p) != 0 && prefix_len(p) != 2 && prefix_len(p) < p.len() ==> is_separator(
            p[prefix_len(p)],
        ),
        is_verbatim(p) ==> prefix_len(p) >= 4,
        prefix_len(p) == 2 <==> has_drive(p),
{
    if is_verbatim_share(p) {
        lemma_place_len(p.skip(8), separators(true));
    } else if is_verbatim(p) {
        lemma_run_len(p.skip(4), separators(true));
    } else if is_device(p) {
        lemma_run_len(p.skip(4), separators(false));
    } else if begins_double(p) {
        lemma_place_len(p.skip(2), separators(false));
    }
}

/// A server and its share are part of the text, and a separator follows them.
proof fn lemma_place_len(s: Seq<char>, class: CharClass)
    ensures
        run_len(s, class) <= place_len(s, class) <= s.len(),
        place_len(s, class) < s.len() ==> class.has(s[place_len(s, class) as int]),
        run_len(s, class) < s.len() ==> run_len(s, class) + 1 + share_len(s, class) <= s.len(),
{
    lemma_run_len(s, class);
    let server = run_len(s, class) as int;
    if server < s.len() {
        let rest = s.skip(server + 1);
        lemma_run_len(rest, class);
        let share = run_len(rest, class) as int;
        if share < rest.len() {
            assert(rest[share] == s[server + 1 + share]);
        }
    }
}

/// Trimming at the end leaves a part that begins where the path does.
proof fn lemma_trimmed_path(s: Seq<char>, floor: int, verbatim: bool)
    ensures
        ({
            let t = trimmed_path(s, floor, verbatim);
            &&& t.len() <= s.len()
            &&& t == s.take(t.len() as int)
            &&& floor <= s.len() ==> floor <= t.len()
            &&& t.len() > floor && t.len() > 0 ==> !separators(verbatim).has(t.last())
            &&& trimmed_path(t, floor, verbatim) == t
        }),
    decreases s.len(),
{
    let t = trimmed_path(s, floor, verbatim);
    if t.len() < s.len() {
        lemma_trimmed_path(s.drop_last(), floor, verbatim);
        assert(s.drop_last().take(t.len() as int) =~= s.take(t.len() as int));
    } else if s.len() > 0 && s.len() > floor && (separators(verbatim).has(s.last()) || !verbatim
        && s.last() == '.' && s.len() >= 2 && is_separator(s[s.len() - 2])) {
        lemma_trimmed_path(s.drop_last(), floor, verbatim);
    } else {
        assert(s.take(s.len() as int) =~= s);
    }
}

pub proof fn lemma_after_last(s: Seq<char>, class: CharClass)
    ensures
        after_last(s, class).len() <= s.len(),
        after_last(s, class) == s.skip(s.len() - after_last(s, class).len()),
        after_last(s, class).len() < s.len() ==> class.has(
            s[s.len() - after_last(s, class).len() - 1],
        ),
        forall|i: int|
            0 <= i < after_last(s, class).len() ==> !class.has(#[trigger] after_last(s, class)[i]),
    decreases s.len(),
{
    if s.len() > 0 && !class.has(s.last()) {
        let t = s.drop_last();
        lemma_after_last(t, class);
        let n = after_last(t, class).len() as int;
        assert(after_last(s, class) =~= s.skip(s.len() - n - 1));
    } else {
        assert(s.skip(s.len() as int) =~= Seq::<char>::empty());
    }
}

proof fn lemma_file_name(p: Seq<char>)
    ensures
        root_len(p) <= path_body(p).len() <= p.len(),
        path_body(p) == p.take(path_body(p).len() as int),
        file_name_of(p) is Some ==> {
            let name = file_name_of(p)->0;
            &&& 0 < name.len() <= path_body(p).len() - root_len(p)
            &&& name == path_body(p).skip(path_body(p).len() - name.len())
            &&& forall|i: int|
                0 <= i < name.len() ==> !separators(is_verbatim(p)).has(#[trigger] name[i])
        },
{
    lemma_prefix_len(p);
    lemma_trimmed_path(p, root_len(p), is_verbatim(p));
    let body = path_body(p).skip(root_len(p));
    lemma_after_last(body, separators(is_verbatim(p)));
    if file_name_of(p) is Some {
        let name = file_name_of(p)->0;
        assert(name =~= path_body(p).skip(path_body(p).len() - name.len()));
    }
}

proof fn lemma_stem_len(name: Seq<char>)
    ensures
        0 <= stem_len(name) <= name.len(),
{
    lemma_after_last(name, CharClass::Only('.'));
}

/// Whether the characters are a drive letter with its colon, and nothing else.
fn is_drive_text(cs: &Vec<char>) -> (r: bool)
    ensures
        r == is_drive(cs@),
{
    cs.len() == 2 && is_letter_char(cs[0]) && cs[1] == ':'
}

/// Whether `c` is an ASCII letter.
fn is_letter_char(c: char) -> (r: bool)
    ensures
        r == is_letter(c),
{
    ('a' <= c && c <= 'z') || ('A' <= c && c <= 'Z')
}

/// Whether `c` separates the components of a path.
fn is_separator_char(c: char) -> (r: bool)
    ensures
        r == is_separator(c),
{
    c == '/' || c == '\\'
}

/// What separates the components of a path.
fn separator_class(verbatim: bool) -> (r: CharClass)
    ensures
        r == separators(verbatim),
{
    if verbatim {
        CharClass::Only('\\')
    } else {
        CharClass::Separator
    }
}

/// Whether the path has a verbatim prefix.
fn has_verbatim_prefix(cs: &Vec<char>) -> (r: bool)
    ensures
        r == is_verbatim(cs@),
{
    cs.len() >= 4 && cs[0] == '\\' && cs[1] == '\\' && cs[2] == '?' && cs[3] == '\\'
}

/// Where a server and its share end that begin at `from`.
fn place_end(cs: &Vec<char>, from: usize, class: CharClass) -> (r: usize)
    requires
        from <= cs@.len(),
    ensures
        r == from + place_len(cs@.skip(from as int), class),
        r <= cs@.len(),
{
    let ghost s = cs@.skip(from as int);
    let server = run_end(cs, from, class);
    if server == cs.len() {
        return server;
    }
    let share = run_end(cs, server + 1, class);
    assert(cs@.skip(server + 1) =~= s.skip(server - from + 1));
    if share == server + 1 {
        server
    } else {
        share
    }
}

/// The length of the prefix of the path.
fn prefix_end(cs: &Vec<char>) -> (r: usize)
    ensures
        r == prefix_len(cs@),
        r <= cs@.len(),
{
    let n: usize = cs.len();
    if has_verbatim_prefix(cs) {
        if n >= 8 && cs[4] == 'U' && cs[5] == 'N' && cs[6] == 'C' && is_separator_char(cs[7]) {
            return place_end(cs, 8, separator_class(true));
        }
        if n >= 6 && is_letter_char(cs[4]) && cs[5] == ':' && (n == 6 || is_separator_char(cs[6])) {
            return 6;
        }
        return run_end(cs, 4, separator_class(true));
    }
    if n >= 2 && is_separator_char(cs[0]) && is_separator_char(cs[1]) {
        if n >= 4 && cs[2] == '.' && is_separator_char(cs[3]) {
            return run_end(cs, 4, separator_class(false));
        }
        let server = run_end(cs, 2, separator_class(false));
        let place = place_end(cs, 2, separator_class(false));
        return if server > 2 && place > server {
            place
        } else {
            0
        };
    }
    if n >= 2 && is_letter_char(cs[0]) && cs[1] == ':' {
        2
    } else {
        0
    }
}

/// The length of the prefix of `p`; zero where it has none.
pub fn prefix_length(p: &str) -> (r: usize)
    ensures
        r == prefix_len(p@),
{
    prefix_end(&chars_of(p))
}

/// The length of the prefix of the path and the root after it.
fn root_end(cs: &Vec<char>) -> (r: usize)
    ensures
        r == root_len(cs@),
        r <= cs@.len(),
{
    let n = prefix_end(cs);
    if n < cs.len() && is_separator_char(cs[n]) {
        n + 1
    } else {
        n
    }
}

/// The path `name` taken from the folder `dir`.
pub fn join_path(dir: &str, name: &str) -> (r: String)
    ensures
        r@ == joined_path(dir@, name@),
{
    let cs = chars_of(dir);
    let n: usize = cs.len();
    let name_chars = chars_of(name);
    if prefix_end(&name_chars) > 0 {
        return name.to_owned();
    }
    let from_root = root_end(&name_chars) > 0;
    if has_verbatim_prefix(&cs) && name_chars.len() > 0 {
        return join_verbatim(dir, name, from_root);
    }
    if from_root {
        let prefix = dir.substring_char(0, prefix_end(&cs));
        assert(prefix@ =~= dir@.take(prefix_len(dir@)));
        let mut out = prefix.to_owned();
        out.append(name);
        return out;
    }
    let mut out = dir.to_owned();
    if n > 0 && !is_separator_char(cs[n - 1]) && !is_drive_text(&cs) {
        out.push('\\');
    }
    out.append(name);
    out
}

/// Whether a component stands for itself, and not for a folder above or for none.
fn stands_for_itself(part: &str) -> (r: bool)
    ensures
        r == is_normal_part(part@),
{
    proof {
        reveal_strlit(".");
        reveal_strlit("..");
        assert("."@ =~= seq!['.']);
        assert(".."@ =~= seq!['.', '.']);
    }
    !same(part, ".") && !same(part, "..")
}

/// The path `name` taken from the folder `dir`, which has a verbatim prefix.
fn join_verbatim(dir: &str, name: &str, from_root: bool) -> (r: String)
    requires
        from_root == (root_len(name@) > 0),
        is_verbatim(dir@),
    ensures
        r@ == joined_verbatim(dir@, name@),
{
    let cs = chars_of(dir);
    let start = prefix_end(&cs);
    let root = root_end(&cs);
    let prefix = dir.substring_char(0, start);
    assert(prefix@ =~= dir@.take(start as int));
    let rest = dir.substring_char(root, cs.len());
    assert(rest@ =~= dir@.skip(root_len(dir@)));
    let mut parts: Vec<&str> = Vec::new();
    if !from_root {
        parts = split_fields(rest, separator_class(true));
    }
    let ghost begun = if from_root {
        Seq::empty()
    } else {
        parts_of(dir@)
    };
    assert(slices(parts@) =~= begun);
    let more = split_fields(name, separator_class(false));
    let ghost all = slices(more@);
    assert(all.skip(0) =~= all);
    let mut i: usize = 0;
    while i < more.len()
        invariant
            i <= more.len(),
            all == slices(more@),
            walked(begun, all) == walked(slices(parts@), all.skip(i as int)),
        decreases more.len() - i,
    {
        let ghost before = slices(parts@);
        let part = more[i];
        assert(all.skip(i as int)[0] == part@);
        assert(all.skip(i as int).drop_first() =~= all.skip(i + 1));
        if stands_for_itself(part) {
            parts.push(part);
            assert(slices(parts@) =~= before.push(part@));
        } else if part.unicode_len() == 2 && parts.len() > 0 && stands_for_itself(
            parts[parts.len() - 1],
        ) {
            assert(before.last() == parts@[parts@.len() - 1]@);
            parts.pop();
            assert(slices(parts@) =~= before.drop_last());
        } else {
            assert(parts@.len() > 0 ==> before.last() == parts@[parts@.len() - 1]@);
            assert(before.len() == parts@.len());
        }
        i = i + 1;
    }
    assert(slices(parts@).len() == parts@.len());
    if parts.len() == 0 && (from_root || root > start) {
        let mut out = prefix.to_owned();
        out.push('\\');
        assert(out@ =~= prefix@ + seq!['\\']);
        return out;
    }
    append_led(prefix, &parts)
}

/// `start` and the components, each after a backslash.
fn append_led(start: &str, parts: &Vec<&str>) -> (r: String)
    ensures
        r@ == start@ + led(slices(parts@)),
{
    let mut out = start.to_owned();
    let ghost all = slices(parts@);
    assert(all.skip(0) =~= all);
    let mut i: usize = 0;
    while i < parts.len()
        invariant
            i <= parts.len(),
            all == slices(parts@),
            start@ + led(all) =~= out@ + led(all.skip(i as int)),
        decreases parts.len() - i,
    {
        assert(all.skip(i as int)[0] == parts@[i as int]@);
        assert(all.skip(i as int).drop_first() =~= all.skip(i + 1));
        out.push('\\');
        out.append(parts[i]);
        i = i + 1;
    }
    assert(led(all.skip(i as int)) =~= Seq::<char>::empty());
    out
}

/// `s` without the separators at its end and, unless the path is verbatim, the `.` components; the
/// first `floor` characters stay.
fn trim_path<'a>(s: &'a str, floor: usize, verbatim: bool) -> (r: &'a str)
    ensures
        r@ == trimmed_path(s@, floor as int, verbatim),
{
    let cs = chars_of(s);
    let class = separator_class(verbatim);
    let mut n: usize = cs.len();
    assert(s@.take(n as int) =~= s@);
    while n > floor && (class.contains(cs[n - 1]) || !verbatim && cs[n - 1] == '.' && n >= 2
        && is_separator_char(cs[n - 2]))
        invariant
            cs@ == s@,
            n <= cs.len(),
            class == separators(verbatim),
            trimmed_path(s@, floor as int, verbatim) == trimmed_path(
                s@.take(n as int),
                floor as int,
                verbatim,
            ),
        decreases n,
    {
        assert(s@.take(n as int).drop_last() =~= s@.take(n - 1));
        n = n - 1;
    }
    assert(s@.take(n as int) =~= s@.subrange(0, n as int));
    s.substring_char(0, n)
}

/// The last component of `p`, where it names a file or a folder.
pub fn file_name<'a>(p: &'a str) -> (r: Option<&'a str>)
    ensures
        opt_slice(r) == file_name_of(p@),
{
    proof {
        lemma_file_name(p@);
    }
    let cs = chars_of(p);
    let start = root_end(&cs);
    let verbatim = has_verbatim_prefix(&cs);
    let s = trim_path(p, start, verbatim);
    let body = s.substring_char(start, s.unicode_len());
    assert(body@ =~= path_body(p@).skip(start as int));
    let name = suffix_after(body, separator_class(verbatim));
    proof {
        reveal_strlit(".");
        reveal_strlit("..");
        assert("."@ =~= seq!['.']);
        assert(".."@ =~= seq!['.', '.']);
    }
    if name.is_empty() || same(name, ".") || same(name, "..") {
        None
    } else {
        Some(name)
    }
}

/// The length of the part of a file name before its extension.
fn stem_length(name: &str) -> (r: usize)
    ensures
        r == stem_len(name@),
{
    let ext = suffix_after(name, CharClass::Only('.'));
    proof {
        lemma_after_last(name@, CharClass::Only('.'));
    }
    let n: usize = name.unicode_len();
    let e: usize = ext.unicode_len();
    if n - e <= 1 {
        n
    } else {
        n - e - 1
    }
}

/// The extension of the file that `p` names.
pub fn extension<'a>(p: &'a str) -> (r: Option<&'a str>)
    ensures
        opt_slice(r) == (match file_name_of(p@) {
            Some(name) => extension_of(name),
            None => None,
        }),
{
    match file_name(p) {
        Some(name) => {
            let n: usize = name.unicode_len();
            let k = stem_length(name);
            proof {
                lemma_stem_len(name@);
            }
            if k == n {
                None
            } else {
                assert(name@.skip(k + 1) =~= name@.subrange(k + 1, n as int));
                Some(name.substring_char(k + 1, n))
            }
        },
        None => None,
    }
}

/// `p` with its extension replaced by `ext`; unchanged where `p` names no file.
pub fn with_extension(p: &str, ext: &str) -> (r: String)
    ensures
        r@ == extended_path(p@, ext@),
{
    match file_name(p) {
        Some(name) => {
            proof {
                lemma_file_name(p@);
                lemma_stem_len(name@);
            }
            let cs = chars_of(p);
            let s = trim_path(p, root_end(&cs), has_verbatim_prefix(&cs));
            let k = stem_length(name);
            let end: usize = s.unicode_len() - name.unicode_len() + k;
            let kept = s.substring_char(0, end);
            assert(kept@ =~= s@.take(s@.len() - name@.len()) + name@.take(k as int));
            let mut out = kept.to_owned();
            out.push('.');
            out.append(ext);
            assert(out@ =~= s@.take(s@.len() - name@.len()) + name@.take(k as int) + seq!['.']
                + ext@);
            out
        },
        None => p.to_owned(),
    }
}

/// The path next to the running program that a new version of it is downloaded to.
pub fn staged_app_path(current_exe: &str) -> (r: Result<String, String>)
    ensures
        match (r, staged_path(current_exe@)) {
            (Ok(path), Some(staged)) => path@ == staged,
            (Err(message), None) => message@ == NO_PROGRAM_NAME@,
            _ => false,
        },
{
    match file_name(current_exe) {
        Some(name) => {
            proof {
                lemma_file_name(current_exe@);
                lemma_stem_len(name@);
            }
            let cs = chars_of(current_exe);
            let start = root_end(&cs);
            let verbatim = has_verbatim_prefix(&cs);
            let s = trim_path(current_exe, start, verbatim);
            let head = s.substring_char(0, s.unicode_len() - name.unicode_len());
            assert(head@ =~= s@.take(s@.len() - name@.len()));
            let folder = trim_path(head, start, verbatim);
            let stem = name.substring_char(0, stem_length(name));
            assert(stem@ =~= stem_of(name@));
            let mut file = stem.to_owned();
            file.append(".update.exe");
            assert(file@ == staged_name(name@));
            Ok(join_path(folder, file.as_str()))
        },
        None => Err(NO_PROGRAM_NAME.to_owned()),
    }
}

/// The path of the configuration file. A portable program keeps it in its own folder; any other
/// keeps it under the user's local application data, or else under the roaming data.
pub fn resolve_config_path(
    app_dir: &str,
    portable: bool,
    local_app_data: Option<&str>,
    app_data: Option<&str>,
) -> (r: String)
    ensures
        r@ == config_path_of(
            app_dir@,
            portable,
            if local_app_data is Some {
                opt_slice(local_app_data)
            } else {
                opt_slice(app_data)
            },
        ),
{
    if portable {
        return join_path(app_dir, CONFIG_FILE);
    }
    let base_dir = match local_app_data {
        Some(dir) => Some(dir),
        None => app_data,
    };
    match base_dir {
        Some(dir) => {
            let folder = join_path(dir, APP_CONFIG_DIR);
            join_path(folder.as_str(), CONFIG_FILE)
        },
        None => join_path(app_dir, CONFIG_FILE),
    }
}

/// A list of components that goes on with one more.
proof fn lemma_led_push(list: Seq<Seq<char>>, part: Seq<char>)
    ensures
        led(list.push(part)) == led(list) + seq!['\\'] + part,
    decreases list.len(),
{
    let more = list.push(part);
    if list.len() == 0 {
        assert(more.drop_first() =~= Seq::<Seq<char>>::empty());
        assert(more[0] == part);
        assert(led(more.drop_first()) =~= Seq::<char>::empty());
        assert(led(more) =~= led(list) + seq!['\\'] + part);
    } else {
        assert(more.drop_first() =~= list.drop_first().push(part));
        assert(more[0] == list[0]);
        lemma_led_push(list.drop_first(), part);
        assert(led(more) =~= led(list) + seq!['\\'] + part);
    }
}

/// Whether `name` is a single component that stands for itself.
pub open spec fn is_file_name(name: Seq<char>) -> bool {
    &&& name.len() > 0
    &&& is_normal_part(name)
    &&& forall|i: int| 0 <= i < name.len() ==> !is_separator(#[trigger] name[i])
}

/// A text without separators is its own only field.
proof fn lemma_one_field(name: Seq<char>)
    requires
        name.len() > 0,
        forall|i: int| 0 <= i < name.len() ==> !is_separator(#[trigger] name[i]),
    ensures
        fields(name, separators(false)) == seq![name],
        root_len(name) == prefix_len(name),
{
    let class = separators(false);
    let none = Seq::<char>::empty();
    lemma_run_before(name, none, class);
    assert(name + none =~= name);
    let n = name.len() as int;
    assert(name.take(n) =~= name);
    assert(name.skip(n) =~= none);
    assert(!class.has(name[0]));
    assert(fields(none, class) =~= Seq::<Seq<char>>::empty());
    assert(fields(name, class) =~= seq![name]);
    lemma_prefix_len(name);
}

/// A single component without a prefix is added to the folder as it is.
proof fn lemma_joined_file(dir: Seq<char>, name: Seq<char>)
    requires
        is_file_name(name),
        prefix_len(name) == 0,
    ensures
        is_verbatim(dir) ==> joined_path(dir, name) == dir.take(prefix_len(dir)) + led(
            parts_of(dir).push(name),
        ),
        !is_verbatim(dir) ==> joined_path(dir, name) == if dir.len() == 0 || is_separator(
            dir.last(),
        ) || is_drive(dir) {
            dir + name
        } else {
            dir.push('\\') + name
        },
{
    lemma_one_field(name);
    if is_verbatim(dir) {
        let more = seq![name];
        assert(more.drop_first() =~= Seq::<Seq<char>>::empty());
        assert(more[0] == name);
        reveal_with_fuel(walked, 2);
        assert(walked(parts_of(dir), more) == parts_of(dir).push(name));
    }
}

/// A file in a folder ends with its name.
pub proof fn lemma_joined_end(dir: Seq<char>, name: Seq<char>)
    requires
        is_file_name(name),
    ensures
        joined_path(dir, name).len() >= name.len(),
        joined_path(dir, name).last() == name.last(),
{
    lemma_prefix_len(name);
    if prefix_len(name) == 0 {
        lemma_joined_file(dir, name);
        if is_verbatim(dir) {
            lemma_led_push(parts_of(dir), name);
            lemma_prefix_len(dir);
        }
    }
}

/// Whether `list` holds components: none of them is empty, and none holds a backslash.
spec fn are_parts(list: Seq<Seq<char>>) -> bool {
    forall|i: int| 0 <= i < list.len() ==> (#[trigger] list[i]).len() > 0 && !list[i].contains('\\')
}

/// The fields between backslashes are components.
proof fn lemma_fields_are_parts(s: Seq<char>)
    ensures
        are_parts(fields(s, CharClass::Only('\\'))),
    decreases s.len(),
{
    let class = CharClass::Only('\\');
    if s.len() == 0 {
    } else if class.has(s[0]) {
        lemma_fields_are_parts(s.drop_first());
        assert(fields(s, class) == fields(s.drop_first(), class));
    } else {
        lemma_run_len(s, class);
        let n = run_len(s, class) as int;
        let head = s.take(n);
        assert(!head.contains('\\')) by {
            if head.contains('\\') {
                let k = head.index_of('\\');
                assert(class.has(s[k]));
            }
        }
        lemma_fields_are_parts(s.skip(n));
        let all = fields(s, class);
        let rest = fields(s.skip(n), class);
        assert(all == seq![head] + rest);
        assert forall|i: int| 0 <= i < all.len() implies (#[trigger] all[i]).len() > 0
            && !all[i].contains('\\') by {
            if i > 0 {
                assert(all[i] == rest[i - 1]);
            }
        }
    }
}

/// Components that are written each after a backslash are read back.
proof fn lemma_fields_of_led(list: Seq<Seq<char>>)
    requires
        are_parts(list),
    ensures
        fields(led(list), CharClass::Only('\\')) == list,
        list.len() > 0 ==> fields(led(list).skip(1), CharClass::Only('\\')) == list,
        list.len() > 0 ==> led(list).len() > 1 && led(list).last() != '\\',
    decreases list.len(),
{
    let class = CharClass::Only('\\');
    let s = led(list);
    if list.len() == 0 {
        assert(fields(s, class) =~= list);
    } else {
        let rest = list.drop_first();
        let tail = led(rest);
        let part = list[0];
        assert forall|i: int| 0 <= i < rest.len() implies (#[trigger] rest[i]).len() > 0
            && !rest[i].contains('\\') by {
            assert(rest[i] == list[i + 1]);
        }
        lemma_fields_of_led(rest);
        let body = part + tail;
        assert(s.drop_first() =~= body);
        assert(s.skip(1) =~= body);
        assert forall|i: int| 0 <= i < part.len() implies !class.has(#[trigger] part[i]) by {
            if part[i] == '\\' {
                assert(part.contains('\\'));
            }
        }
        lemma_run_before(part, tail, class);
        let n = part.len() as int;
        assert(body[0] == part[0]);
        assert(body.take(n) =~= part);
        assert(body.skip(n) =~= tail);
        assert(fields(body, class) == seq![part] + rest);
        assert(seq![part] + rest =~= list);
        assert(fields(s, class) == fields(body, class));
        if rest.len() == 0 {
            assert(s.last() == part.last());
            assert(!class.has(part[n - 1]));
        } else {
            assert(s.last() == tail.last());
        }
    }
}

/// The last component of a text that ends with a name after a separator, or is just the name.
pub proof fn lemma_last_is(a: Seq<char>, name: Seq<char>, class: CharClass)
    requires
        a.len() > 0 ==> class.has(a.last()),
        forall|i: int| 0 <= i < name.len() ==> !class.has(#[trigger] name[i]),
    ensures
        after_last(a + name, class) == name,
    decreases name.len(),
{
    let s = a + name;
    if name.len() == 0 {
        assert(s =~= a);
        assert(after_last(s, class) =~= name);
    } else {
        let front = name.drop_last();
        assert forall|i: int| 0 <= i < front.len() implies !class.has(#[trigger] front[i]) by {
            assert(front[i] == name[i]);
        }
        lemma_last_is(a, front, class);
        assert(s.drop_last() =~= a + front);
        assert(s.last() == name[name.len() - 1]);
        assert(after_last(s, class) =~= name);
    }
}

/// Whether `p` has a verbatim prefix with a server, but without a share.
pub open spec fn lacks_share(p: Seq<char>) -> bool {
    is_verbatim_share(p) && share_len(p.skip(8), separators(true)) == 0
}

/// A run of which the end is known.
proof fn lemma_run_is(s: Seq<char>, t: Seq<char>, class: CharClass)
    requires
        run_len(s, class) <= t.len(),
        forall|i: int| 0 <= i < run_len(s, class) ==> s[i] == #[trigger] t[i],
        run_len(s, class) < t.len() ==> class.has(t[run_len(s, class) as int]),
    ensures
        run_len(t, class) == run_len(s, class),
{
    lemma_run_len(s, class);
    let n = run_len(s, class) as int;
    let a = t.take(n);
    let b = t.skip(n);
    assert forall|i: int| 0 <= i < a.len() implies !class.has(#[trigger] a[i]) by {
        assert(a[i] == t[i]);
        assert(!class.has(s[i]));
    }
    lemma_run_before(a, b, class);
    assert(a + b =~= t);
}

/// A server and a share are the same in every text that begins with them.
proof fn lemma_place_is(s: Seq<char>, t: Seq<char>, class: CharClass)
    requires
        place_len(s, class) <= t.len(),
        forall|i: int| 0 <= i < place_len(s, class) ==> s[i] == #[trigger] t[i],
        place_len(s, class) < t.len() ==> class.has(t[place_len(s, class) as int]),
        share_len(s, class) == 0 && place_len(s, class) + 1 < t.len() ==> class.has(
            t[place_len(s, class) as int + 1],
        ),
    ensures
        place_len(t, class) == place_len(s, class),
        run_len(t, class) == run_len(s, class),
        share_len(t, class) == share_len(s, class),
{
    lemma_run_len(s, class);
    lemma_place_len(s, class);
    let server = run_len(s, class) as int;
    let share = share_len(s, class) as int;
    if share > 0 {
        assert(class.has(s[server]));
        assert(t[server] == s[server]);
        lemma_run_is(s, t, class);
        let x = s.skip(server + 1);
        let y = t.skip(server + 1);
        assert forall|i: int| 0 <= i < share implies x[i] == #[trigger] y[i] by {
            assert(s[server + 1 + i] == t[server + 1 + i]);
        }
        if share < y.len() {
            assert(y[share] == t[place_len(s, class) as int]);
        }
        lemma_run_is(x, y, class);
    } else {
        lemma_run_is(s, t, class);
        if server < t.len() {
            let y = t.skip(server + 1);
            if y.len() > 0 {
                assert(y[0] == t[server + 1]);
            }
            assert(run_len(y, class) == 0);
        }
    }
}

/// A prefix is the same in every path that begins with it and goes on with a backslash, or as the
/// path does. After a server without a share, two backslashes have to follow.
proof fn lemma_prefix_is(p: Seq<char>, q: Seq<char>)
    requires
        0 < prefix_len(p) < p.len(),
        prefix_len(p) <= q.len(),
        forall|i: int| 0 <= i < prefix_len(p) ==> p[i] == #[trigger] q[i],
        prefix_len(p) != 2 && prefix_len(p) < q.len() ==> q[prefix_len(p)] == '\\'
            || q[prefix_len(p)] == p[prefix_len(p)],
        lacks_share(p) && prefix_len(p) + 1 < q.len() ==> q[prefix_len(p) + 1] == '\\',
    ensures
        prefix_len(q) == prefix_len(p),
        is_verbatim(q) == is_verbatim(p),
{
    lemma_prefix_len(p);
    let n = prefix_len(p);
    if n == 2 {
        assert(p[0] == q[0] && p[1] == q[1]);
    } else {
        assert(p[0] == q[0] && p[1] == q[1] && p[2] == q[2] && p[3] == q[3]) by {
            if begins_double(p) && !is_verbatim(p) && !is_device(p) {
                lemma_place_len(p.skip(2), separators(false));
            }
        }
        if is_verbatim_share(p) {
            assert(p[4] == q[4] && p[5] == q[5] && p[6] == q[6] && p[7] == q[7]);
            let s = p.skip(8);
            let t = q.skip(8);
            lemma_place_len(s, separators(true));
            lemma_agree(p, q, 8, n);
            lemma_place_is(s, t, separators(true));
        } else if is_verbatim_drive(p) {
            assert(p[4] == q[4] && p[5] == q[5]);
        } else if is_verbatim(p) {
            let s = p.skip(4);
            let t = q.skip(4);
            lemma_run_len(s, separators(true));
            lemma_agree(p, q, 4, n);
            lemma_run_is(s, t, separators(true));
            if is_verbatim_share(q) {
                assert(q[4] == 'U' && q[5] == 'N' && q[6] == 'C');
                assert(n >= 7);
                assert(p[4] == q[4] && p[5] == q[5] && p[6] == q[6]);
                assert(n > 7 ==> p[7] == q[7]);
            }
            if is_verbatim_drive(q) {
                assert(is_letter(q[4]) && q[5] == ':');
                assert(n >= 6);
                assert(p[4] == q[4] && p[5] == q[5]);
                assert(n > 6 ==> p[6] == q[6]);
            }
        } else if is_device(p) {
            let s = p.skip(4);
            let t = q.skip(4);
            lemma_run_len(s, separators(false));
            lemma_agree(p, q, 4, n);
            lemma_run_is(s, t, separators(false));
        } else {
            let s = p.skip(2);
            let t = q.skip(2);
            lemma_place_len(s, separators(false));
            lemma_agree(p, q, 2, n);
            lemma_place_is(s, t, separators(false));
        }
    }
}

/// Two texts that are the same up to `n` are so from `from` on.
proof fn lemma_agree(p: Seq<char>, q: Seq<char>, from: int, n: int)
    requires
        0 <= from <= n <= p.len(),
        n <= q.len(),
        forall|i: int| 0 <= i < n ==> p[i] == #[trigger] q[i],
    ensures
        forall|i: int| 0 <= i < n - from ==> p.skip(from)[i] == #[trigger] q.skip(from)[i],
        n < p.len() ==> p.skip(from)[n - from] == p[n],
        n < q.len() ==> q.skip(from)[n - from] == q[n],
        n + 1 < q.len() ==> q.skip(from)[n - from + 1] == q[n + 1],
{
    assert forall|i: int| 0 <= i < n - from implies p.skip(from)[i] == #[trigger] q.skip(
        from,
    )[i] by {
        assert(p[from + i] == q[from + i]);
    }
}

/// The new name is a component, ends as the name of a program does, and is not the old one.
proof fn lemma_staged_name(name: Seq<char>, class: CharClass)
    requires
        name.len() > 0,
        class == CharClass::Separator || class == CharClass::Only('\\'),
        forall|i: int| 0 <= i < name.len() ==> !class.has(#[trigger] name[i]),
    ensures
        staged_name(name).len() > 2,
        staged_name(name).last() == 'e',
        staged_name(name) != name,
        staged_name(name)[0] == name[0],
        staged_name(name)[1] == '.' || name.len() > 1 && staged_name(name)[1] == name[1],
        forall|i: int| 0 <= i < staged_name(name).len() ==> !class.has(
            #[trigger] staged_name(name)[i],
        ),
{
    reveal_strlit(".update.exe");
    lemma_stem_len(name);
    lemma_after_last(name, CharClass::Only('.'));
    let k = stem_len(name);
    let ext = after_last(name, CharClass::Only('.'));
    let new = staged_name(name);
    assert(k > 0);
    assert forall|i: int| 0 <= i < new.len() implies !class.has(#[trigger] new[i]) by {
        if i < k {
            assert(new[i] == name[i]);
        } else {
            assert(new[i] == ".update.exe"@[i - k]);
        }
    }
    if new == name {
        assert(new[k + 7] == '.');
        assert(ext[6] == name[k + 7]);
    }
}

/// Whether the new name of the program `p` is added to the folder as it is: it does not begin like a
/// path of its own and, after a verbatim prefix, holds no slash, at which it would be taken apart.
pub open spec fn stays_beside(p: Seq<char>, new: Seq<char>) -> bool {
    prefix_len(new) == 0 && (is_verbatim(p) ==> !new.contains('/'))
}

/// A new name that is added as it is, is a single component.
proof fn lemma_staged_is_file_name(p: Seq<char>)
    requires
        file_name_of(p) is Some,
        stays_beside(p, staged_name(file_name_of(p)->0)),
    ensures
        is_file_name(staged_name(file_name_of(p)->0)),
{
    let name = file_name_of(p)->0;
    let new = staged_name(name);
    let class = separators(is_verbatim(p));
    lemma_file_name(p);
    lemma_staged_name(name, class);
    assert(seq!['.'].last() == '.');
    assert(seq!['.', '.'].last() == '.');
    assert forall|i: int| 0 <= i < new.len() implies !is_separator(#[trigger] new[i]) by {
        assert(!class.has(new[i]));
        if new[i] == '/' {
            assert(new.contains('/'));
        }
    }
}

/// The folder of a file is the start of its path, and keeps the prefix and the root.
proof fn lemma_folder(p: Seq<char>)
    requires
        file_name_of(p) is Some,
    ensures
        ({
            let folder = folder_of(p, file_name_of(p)->0);
            &&& root_len(p) <= folder.len() < p.len()
            &&& folder == p.take(folder.len() as int)
            &&& trimmed_path(folder, root_len(p), is_verbatim(p)) == folder
            &&& folder.len() > root_len(p) ==> !separators(is_verbatim(p)).has(folder.last())
        }),
{
    lemma_prefix_len(p);
    lemma_file_name(p);
    let name = file_name_of(p)->0;
    let s = path_body(p);
    let head = s.take(s.len() - name.len());
    lemma_trimmed_path(head, root_len(p), is_verbatim(p));
    let folder = folder_of(p, name);
    assert(folder =~= p.take(folder.len() as int));
}

/// The folder of a file with a verbatim path has the prefix and the root of the path.
proof fn lemma_verbatim_folder(p: Seq<char>)
    requires
        is_verbatim(p),
        file_name_of(p) is Some,
    ensures
        ({
            let folder = folder_of(p, file_name_of(p)->0);
            &&& is_verbatim(folder)
            &&& prefix_len(folder) == prefix_len(p)
            &&& root_len(folder) == root_len(p) == prefix_len(p) + 1
        }),
{
    lemma_prefix_len(p);
    lemma_folder(p);
    let n = prefix_len(p);
    let folder = folder_of(p, file_name_of(p)->0);
    if lacks_share(p) {
        let s = p.skip(8);
        let class = separators(true);
        lemma_place_len(s, class);
        let rest = s.skip(run_len(s, class) as int + 1);
        lemma_run_len(rest, class);
        if n + 1 < p.len() {
            assert(rest[0] == p[n + 1]);
        }
    }
    lemma_prefix_is(p, folder);
}

/// The staged program after a verbatim prefix.
proof fn lemma_staged_verbatim(p: Seq<char>)
    requires
        is_verbatim(p),
        file_name_of(p) is Some,
        stays_beside(p, staged_name(file_name_of(p)->0)),
        prefix_len(staged_path(p)->0) == prefix_len(p),
    ensures
        file_name_of(staged_path(p)->0) == Some(staged_name(file_name_of(p)->0)),
        place_of(staged_path(p)->0, staged_name(file_name_of(p)->0)) == place_of(
            p,
            file_name_of(p)->0,
        ),
{
    let class = separators(true);
    let name = file_name_of(p)->0;
    let new = staged_name(name);
    let folder = folder_of(p, name);
    let q = staged_path(p)->0;
    let n = prefix_len(p);
    lemma_prefix_len(p);
    lemma_file_name(p);
    lemma_folder(p);
    lemma_verbatim_folder(p);
    lemma_staged_name(name, class);
    lemma_staged_is_file_name(p);
    lemma_joined_file(folder, new);
    let parts = parts_of(folder);
    lemma_fields_are_parts(folder.skip(n + 1));
    lemma_fields_of_led(parts);
    lemma_led_push(parts, new);
    let start = folder.take(n);
    let head = start + led(parts) + seq!['\\'];
    assert(q =~= head + new);
    assert(is_verbatim(q)) by {
        assert(q[0] == p[0] && q[1] == p[1] && q[2] == p[2] && q[3] == p[3]);
    }
    assert(q[n] == '\\') by {
        if parts.len() > 0 {
            assert(led(parts)[0] == '\\');
            assert(q[n] == led(parts)[0]);
        } else {
            assert(led(parts).len() == 0);
        }
    }
    assert(root_len(q) == n + 1);
    assert(path_body(q) == q);
    let a = head.skip(n + 1);
    assert(q.skip(n + 1) =~= a + new);
    lemma_last_is(a, new, class);
    assert(seq!['.'].last() == '.');
    assert(seq!['.', '.'].last() == '.');
    assert(q.take(q.len() - new.len()) =~= head);
    assert(q.take(n) =~= p.take(n));
    if parts.len() == 0 {
        assert(led(parts).len() == 0);
        assert(folder_of(q, new) == head);
        assert(head.skip(n + 1) =~= Seq::<char>::empty());
        assert(fields(head.skip(n + 1), class) =~= parts);
    } else {
        let kept = start + led(parts);
        assert(head.drop_last() =~= kept);
        assert(kept.last() == led(parts).last());
        assert(trimmed_path(kept, n + 1, true) == kept);
        assert(folder_of(q, new) == kept);
        assert(kept.skip(n + 1) =~= led(parts).skip(1));
    }
}

/// The staged program where there is no verbatim prefix.
proof fn lemma_staged_plain(p: Seq<char>)
    requires
        !is_verbatim(p),
        file_name_of(p) is Some,
        stays_beside(p, staged_name(file_name_of(p)->0)),
        prefix_len(staged_path(p)->0) == prefix_len(p),
    ensures
        file_name_of(staged_path(p)->0) == Some(staged_name(file_name_of(p)->0)),
        place_of(staged_path(p)->0, staged_name(file_name_of(p)->0)) == place_of(
            p,
            file_name_of(p)->0,
        ),
{
    let class = separators(false);
    let name = file_name_of(p)->0;
    let new = staged_name(name);
    let folder = folder_of(p, name);
    let q = staged_path(p)->0;
    let n = prefix_len(p);
    let r = root_len(p);
    lemma_prefix_len(p);
    lemma_prefix_len(q);
    lemma_file_name(p);
    lemma_folder(p);
    lemma_staged_name(name, class);
    lemma_staged_is_file_name(p);
    lemma_joined_file(folder, new);
    let head = q.take(q.len() - new.len());
    assert(head == if folder.len() == 0 || is_separator(folder.last()) || is_drive(folder) {
        folder
    } else {
        folder.push('\\')
    }) by {
        assert((folder + new).take(folder.len() as int) =~= folder);
        assert((folder.push('\\') + new).take(folder.len() as int + 1) =~= folder.push('\\'));
    }
    assert(q =~= head + new);
    assert(is_drive(folder) ==> n == 2);
    assert(folder.len() == r && r == n ==> head == folder) by {
        if n == 2 && folder.len() == 2 {
            assert(is_drive(folder));
        }
    }
    assert(!is_verbatim(q));
    assert(root_len(q) == r) by {
        if folder.len() > n {
            assert(q[n] == p[n]);
        } else {
            assert(q[n] == new[0]);
        }
    }
    assert(path_body(q) == q);
    let a = head.skip(r);
    assert(q.skip(r) =~= a + new);
    if a.len() > 0 {
        assert(a.last() == head.last());
    }
    lemma_last_is(a, new, class);
    assert(seq!['.'].last() == '.');
    assert(seq!['.', '.'].last() == '.');
    assert(folder_of(q, new) == folder) by {
        if head != folder {
            assert(head.drop_last() =~= folder);
        }
    }
    assert(q.take(n) =~= p.take(n));
}

/// A new version of the program is downloaded to a file beside the running one, named like it with
/// `.update.exe` in place of the extension. This takes that the new name is added to the folder as
/// it is, and that the new path has the prefix of the old one: `\\server\\x.exe`, which has no
/// prefix since no share follows the server, would become `\\server\x.update.exe`, which is all
/// prefix.
pub proof fn law_staged_program_is_beside(p: Seq<char>)
    requires
        staged_path(p) is Some,
        stays_beside(p, staged_name(file_name_of(p)->0)),
        prefix_len(staged_path(p)->0) == prefix_len(p),
    ensures
        file_name_of(staged_path(p)->0) == Some(staged_name(file_name_of(p)->0)),
        place_of(staged_path(p)->0, staged_name(file_name_of(p)->0)) == place_of(
            p,
            file_name_of(p)->0,
        ),
{
    if is_verbatim(p) {
        lemma_staged_verbatim(p);
    } else {
        lemma_staged_plain(p);
    }
}

/// The last field of a text that does not end with a character of the class.
proof fn lemma_fields_end(s: Seq<char>, class: CharClass)
    requires
        s.len() > 0,
        !class.has(s.last()),
    ensures
        fields(s, class).len() > 0,
        fields(s, class).last().len() > 0,
        fields(s, class).last().last() == s.last(),
        forall|i: int|
            0 <= i < fields(s, class).last().len() ==> !class.has(
                #[trigger] fields(s, class).last()[i],
            ),
    decreases s.len(),
{
    if class.has(s[0]) {
        let rest = s.drop_first();
        assert(rest.last() == s.last());
        lemma_fields_end(rest, class);
        assert(fields(s, class) == fields(rest, class));
    } else {
        lemma_run_len(s, class);
        let n = run_len(s, class) as int;
        let head = s.take(n);
        let rest = s.skip(n);
        let all = fields(s, class);
        assert(all == seq![head] + fields(rest, class));
        if n < s.len() {
            assert(rest.last() == s.last());
            lemma_fields_end(rest, class);
            assert(all.last() == fields(rest, class).last());
        } else {
            assert(fields(rest, class).len() == 0);
            assert(all.last() == head);
            assert(head =~= s);
        }
    }
}

/// A walk that ends with a component that stands for itself ends there.
proof fn lemma_walked_end(parts: Seq<Seq<char>>, more: Seq<Seq<char>>)
    requires
        more.len() > 0,
        is_normal_part(more.last()),
    ensures
        walked(parts, more).len() > 0,
        walked(parts, more).last() == more.last(),
    decreases more.len(),
{
    let rest = more.drop_first();
    let next = if is_normal_part(more[0]) {
        parts.push(more[0])
    } else if more[0].len() == 2 && parts.len() > 0 && is_normal_part(parts.last()) {
        parts.drop_last()
    } else {
        parts
    };
    assert(walked(parts, more) == walked(next, rest));
    if rest.len() > 0 {
        assert(rest.last() == more.last());
        lemma_walked_end(next, rest);
    } else {
        assert(more.last() == more[0]);
        assert(walked(next, rest) == next);
    }
}

/// The path of a new version after a verbatim prefix: it has that prefix, and ends with the part of
/// the new name after the last slash.
proof fn lemma_staged_after_verbatim(p: Seq<char>) -> (last: Seq<char>)
    requires
        is_verbatim(p),
        file_name_of(p) is Some,
        prefix_len(staged_name(file_name_of(p)->0)) == 0,
    ensures
        ({
            let q = staged_path(p)->0;
            let n = prefix_len(p);
            &&& n < q.len()
            &&& q[n] == '\\'
            &&& forall|i: int| 0 <= i < n ==> p[i] == #[trigger] q[i]
            &&& last.len() > 0
            &&& last.len() < q.len()
            &&& last.last() == 'e'
            &&& q.skip(q.len() - last.len()) == last
            &&& q[q.len() - last.len() - 1] == '\\'
            &&& forall|i: int| 0 <= i < last.len() ==> !is_separator(#[trigger] last[i])
        }),
{
    let name = file_name_of(p)->0;
    let new = staged_name(name);
    let folder = folder_of(p, name);
    let q = staged_path(p)->0;
    let n = prefix_len(p);
    lemma_prefix_len(p);
    lemma_file_name(p);
    lemma_folder(p);
    lemma_verbatim_folder(p);
    lemma_staged_name(name, separators(true));
    let class = separators(false);
    let more = fields(new, class);
    lemma_fields_end(new, class);
    let last = more.last();
    assert(seq!['.'].last() == '.');
    assert(seq!['.', '.'].last() == '.');
    let start = if root_len(new) > 0 {
        Seq::empty()
    } else {
        parts_of(folder)
    };
    lemma_walked_end(start, more);
    let parts = walked(start, more);
    let front = parts.drop_last();
    assert(front.push(last) =~= parts);
    lemma_led_push(front, last);
    assert(q == folder.take(n) + led(parts));
    assert(led(parts)[0] == '\\');
    assert(q[n] == led(parts)[0]);
    assert forall|i: int| 0 <= i < n implies p[i] == #[trigger] q[i] by {
        assert(q[i] == folder[i]);
    }
    assert(q =~= folder.take(n) + led(front) + seq!['\\'] + last);
    assert(q.skip(q.len() - last.len()) =~= last);
    assert forall|i: int| 0 <= i < last.len() implies !is_separator(#[trigger] last[i]) by {
        assert(!class.has(last[i]));
    }
    last
}

/// A text without backslashes at the end of `p`, whose last component holds no slash, holds none.
proof fn lemma_no_slash(p: Seq<char>, name: Seq<char>, last: Seq<char>)
    requires
        name.len() <= p.len(),
        last.len() < p.len(),
        p.skip(p.len() - name.len()) == name,
        p.skip(p.len() - last.len()) == last,
        p[p.len() - last.len() - 1] == '\\',
        forall|i: int| 0 <= i < name.len() ==> #[trigger] name[i] != '\\',
        forall|i: int| 0 <= i < last.len() ==> #[trigger] last[i] != '/',
    ensures
        !name.contains('/'),
{
    if name.contains('/') {
        let at = name.index_of('/');
        let from = p.len() - name.len();
        let cut = p.len() - last.len();
        assert(p[from + at] == '/');
        if from + at >= cut {
            assert(last[from + at - cut] == p[from + at]);
        } else {
            assert(name[cut - 1 - from] == p[cut - 1]);
        }
    }
}

/// A slash in the new name comes from the old one.
proof fn lemma_slash_is_old(name: Seq<char>)
    requires
        staged_name(name).contains('/'),
    ensures
        name.contains('/'),
{
    reveal_strlit(".update.exe");
    lemma_stem_len(name);
    let new = staged_name(name);
    let k = stem_len(name);
    let at = new.index_of('/');
    if at >= k {
        assert(new[at] == ".update.exe"@[at - k]);
    }
    assert(name[at] == '/');
}

/// A new name that holds a slash after a verbatim prefix does not give the path of the program.
proof fn lemma_taken_apart_is_another(p: Seq<char>)
    requires
        is_verbatim(p),
        file_name_of(p) is Some,
        prefix_len(staged_name(file_name_of(p)->0)) == 0,
        staged_name(file_name_of(p)->0).contains('/'),
    ensures
        staged_path(p) != Some(p),
{
    let name = file_name_of(p)->0;
    let last = lemma_staged_after_verbatim(p);
    lemma_file_name(p);
    if staged_path(p) == Some(p) {
        assert(p.last() == last.last()) by {
            assert(p.skip(p.len() - last.len()).last() == p.last());
        }
        assert(path_body(p) == p);
        assert forall|i: int| 0 <= i < name.len() implies #[trigger] name[i] != '\\' by {
            assert(!separators(true).has(name[i]));
        }
        assert forall|i: int| 0 <= i < last.len() implies #[trigger] last[i] != '/' by {
            assert(!is_separator(last[i]));
        }
        lemma_no_slash(p, name, last);
        lemma_slash_is_old(name);
    }
}

/// A new name that is a path of its own is not the path of the program.
proof fn lemma_own_path_is_another(p: Seq<char>)
    requires
        file_name_of(p) is Some,
        prefix_len(staged_name(file_name_of(p)->0)) > 0,
    ensures
        staged_path(p) != Some(p),
{
    let name = file_name_of(p)->0;
    let new = staged_name(name);
    let class = separators(is_verbatim(p));
    lemma_file_name(p);
    lemma_staged_name(name, class);
    lemma_stem_len(name);
    reveal_strlit(".update.exe");
    if staged_path(p) == Some(p) {
        assert(!class.has(new[0]));
        assert(!class.has(new[2]));
        assert(has_drive(p));
        assert(root_len(p) == 2);
        assert(path_body(p) == p);
        let body = p.skip(2);
        let none = Seq::<char>::empty();
        assert forall|i: int| 0 <= i < body.len() implies !class.has(#[trigger] body[i]) by {
            assert(body[i] == new[i + 2]);
        }
        lemma_last_is(none, body, class);
        assert(none + body =~= body);
        assert(name == body);
        let k = stem_len(name);
        let n = name.len() as int;
        assert(n == k + 9);
        let dot = CharClass::Only('.');
        let a = name.take(n - 3);
        let ext = name.skip(n - 3);
        assert forall|i: int| 0 <= i < ext.len() implies !dot.has(#[trigger] ext[i]) by {
            assert(ext[i] == ".update.exe"@[8 + i]);
        }
        assert(a.last() == ".update.exe"@[7]);
        lemma_last_is(a, ext, dot);
        assert(a + ext =~= name);
        assert(k == n - 4);
    }
}

/// A new version has a path exactly where the program has a name, and that path is never the one
/// of the running program.
pub proof fn law_staged_program_is_another(p: Seq<char>)
    ensures
        staged_path(p) is Some <==> file_name_of(p) is Some,
        staged_path(p) != Some(p),
{
    if staged_path(p) == Some(p) {
        let name = file_name_of(p)->0;
        let new = staged_name(name);
        lemma_prefix_len(new);
        if prefix_len(new) > 0 {
            lemma_own_path_is_another(p);
        } else if is_verbatim(p) && new.contains('/') {
            lemma_taken_apart_is_another(p);
        } else {
            law_staged_program_is_beside(p);
            lemma_file_name(p);
            lemma_staged_name(name, separators(is_verbatim(p)));
        }
    }
}

/// On a drive, on a share, on a device, after a verbatim prefix that does not lack a share, and on
/// any path that does not begin with two separators, the path of the new version has the prefix of
/// the old one, unless the new name has a prefix itself.
pub proof fn law_staged_program_keeps_the_prefix(p: Seq<char>)
    requires
        staged_path(p) is Some,
        prefix_len(staged_name(file_name_of(p)->0)) == 0,
        prefix_len(p) > 0 && !lacks_share(p) || !begins_double(p),
    ensures
        prefix_len(staged_path(p)->0) == prefix_len(p),
{
    let name = file_name_of(p)->0;
    let new = staged_name(name);
    let folder = folder_of(p, name);
    let q = staged_path(p)->0;
    let n = prefix_len(p);
    let class = separators(is_verbatim(p));
    lemma_prefix_len(p);
    lemma_file_name(p);
    lemma_folder(p);
    lemma_staged_name(name, class);
    if is_verbatim(p) {
        lemma_staged_after_verbatim(p);
        lemma_prefix_is(p, q);
    } else {
        lemma_staged_is_file_name(p);
        lemma_joined_file(folder, new);
        if n > 0 {
            assert forall|i: int| 0 <= i < n implies p[i] == #[trigger] q[i] by {
                assert(q[i] == folder[i]);
            }
            if n != 2 {
                assert(q[n] == folder[n]);
            }
            lemma_prefix_is(p, q);
        } else if folder.len() >= 2 {
            assert(q[0] == p[0] && q[1] == p[1]);
        } else if folder.len() == 1 {
            assert(q[0] == p[0]);
            assert(q[1] == '\\' || q[1] == new[0]);
        } else {
            assert(q =~= new);
        }
    }
}

/// A single component without a prefix is the file that it names.
pub proof fn lemma_plain_name(name: Seq<char>)
    requires
        is_file_name(name),
        prefix_len(name) == 0,
    ensures
        file_name_of(name) == Some(name),
{
    let none = Seq::<char>::empty();
    let class = separators(is_verbatim(name));
    lemma_one_field(name);
    let n = name.len() as int;
    assert(!is_separator(name[n - 1]));
    assert(n >= 2 ==> !is_separator(name[n - 2]));
    assert(!is_verbatim(name)) by {
        if is_verbatim(name) {
            assert(is_separator(name[0]));
        }
    }
    assert(path_body(name) == name);
    assert(name.skip(0) =~= name);
    assert forall|i: int| 0 <= i < name.len() implies !class.has(#[trigger] name[i]) by {
        assert(!is_separator(name[i]));
    }
    lemma_last_is(none, name, class);
    assert(none + name =~= name);
}

/// Whether `p` is something that a file name can follow, and then `name`.
spec fn ends_with_file(p: Seq<char>, name: Seq<char>) -> bool {
    let k = p.len() - name.len();
    &&& 0 <= k
    &&& p.skip(k) == name
    &&& k > 0 ==> p[k - 1] == '\\' || p[k - 1] == '/' && !is_verbatim(p) || k == 2 && has_drive(p)
}

/// A file that is taken from a folder ends with its name.
proof fn lemma_joined_ends_with_file(dir: Seq<char>, name: Seq<char>)
    requires
        is_file_name(name),
        prefix_len(name) == 0,
    ensures
        ends_with_file(joined_path(dir, name), name),
{
    let p = joined_path(dir, name);
    let k = p.len() - name.len();
    lemma_joined_file(dir, name);
    if is_verbatim(dir) {
        lemma_prefix_len(dir);
        lemma_led_push(parts_of(dir), name);
        assert(p =~= dir.take(prefix_len(dir)) + led(parts_of(dir)) + seq!['\\'] + name);
        assert(p.skip(k) =~= name);
    } else {
        assert(p.skip(k) =~= name);
        if k > 0 && p[k - 1] == '/' {
            assert(dir.len() == k);
            if is_verbatim(p) {
                assert(k > 3 ==> p[0] == dir[0] && p[1] == dir[1] && p[2] == dir[2] && p[3]
                    == dir[3]);
            }
        }
        if is_drive(dir) {
            assert(p[0] == dir[0] && p[1] == dir[1]);
        }
    }
}

/// The prefix and the root of a path that ends with a file name leave the name alone, unless all of
/// the path is a prefix.
proof fn lemma_root_before_file(p: Seq<char>, name: Seq<char>)
    requires
        is_file_name(name),
        prefix_len(name) == 0,
        ends_with_file(p, name),
        prefix_len(p) < p.len(),
    ensures
        root_len(p) <= p.len() - name.len(),
{
    let k = p.len() - name.len();
    let n = prefix_len(p);
    lemma_prefix_len(p);
    assert forall|i: int| k <= i < p.len() implies !is_separator(#[trigger] p[i]) by {
        assert(p.skip(k)[i - k] == p[i]);
        assert(!is_separator(name[i - k]));
    }
    if n > k {
        assert(!is_separator(p[n]));
        assert(n == 2);
        if k == 1 {
            assert(is_letter(p[0]));
            assert(p[0] == '\\' || p[0] == '/');
        } else {
            assert(p =~= name) by {
                assert(p.skip(0) =~= p);
            }
        }
    }
}

/// A path that ends with a file name names that file, unless all of it is a prefix.
proof fn lemma_ends_with_file(p: Seq<char>, name: Seq<char>)
    requires
        is_file_name(name),
        prefix_len(name) == 0,
        name.last() != '.',
        ends_with_file(p, name),
    ensures
        path_body(p) == p,
        file_name_of(p) == if prefix_len(p) < p.len() {
            Some(name)
        } else {
            None
        },
{
    let k = p.len() - name.len();
    let n = name.len() as int;
    let r = root_len(p);
    lemma_prefix_len(p);
    assert(!is_separator(name[n - 1]));
    assert(p.skip(k)[n - 1] == p[k + n - 1]);
    assert(path_body(p) == p);
    let class = separators(is_verbatim(p));
    if prefix_len(p) == p.len() {
        assert(p.skip(r) =~= Seq::<char>::empty());
    } else {
        lemma_root_before_file(p, name);
        let a = p.subrange(r, k);
        assert(p.skip(r) =~= a + name) by {
            assert forall|i: int| k <= i < p.len() implies p[i] == name[i - k] by {
                assert(p.skip(k)[i - k] == p[i]);
            }
        }
        assert forall|i: int| 0 <= i < n implies !class.has(#[trigger] name[i]) by {
            assert(!is_separator(name[i]));
        }
        if a.len() > 0 {
            assert(a.last() == p[k - 1]);
            assert(class.has(a.last()));
        }
        lemma_last_is(a, name, class);
    }
}

/// A file that is taken from a folder ends with its name, and where it names a file at all, it names
/// that one. It names none where everything belongs to the prefix, as in `\\server\x.exe`.
pub proof fn lemma_file_in_folder(dir: Seq<char>, name: Seq<char>)
    requires
        is_file_name(name),
        prefix_len(name) == 0,
        name.last() != '.',
    ensures
        ({
            let p = joined_path(dir, name);
            &&& p.len() >= name.len()
            &&& p.skip(p.len() - name.len()) == name
            &&& path_body(p) == p
            &&& file_name_of(p) == if prefix_len(p) < p.len() {
                Some(name)
            } else {
                None
            }
        }),
{
    lemma_joined_ends_with_file(dir, name);
    lemma_ends_with_file(joined_path(dir, name), name);
}

/// A file that is taken from a folder is a file by that name in it: where the path names a file, it
/// names that one, and it does so unless all of it is a prefix.
pub proof fn law_joined_path_names_the_file(
    dir: &str,
    name: &str,
    r: String,
    text: &str,
    found: Option<&str>,
)
    requires
        is_file_name(name@),
        prefix_len(name@) == 0,
        name@.last() != '.',
        call_ensures(join_path, (dir, name), r),
        text@ == r@,
        call_ensures(file_name, (text,), found),
    ensures
        found is Some <==> prefix_len(r@) < r@.len(),
        found is Some ==> found->0@ == name@,
        r@.len() >= name@.len(),
        r@.skip(r@.len() - name@.len()) == name@,
{
    lemma_file_in_folder(dir@, name@);
}

/// In a folder on a drive, or in one without a prefix and without a root of two separators, the path
/// of a file is the folder, a backslash unless the folder ends with a separator, and the name.
pub proof fn law_joined_path_is_in_the_folder(dir: &str, name: &str, r: String)
    requires
        is_file_name(name@),
        prefix_len(name@) == 0,
        name@.last() != '.',
        dir@.len() > 0,
        !begins_double(dir@),
        call_ensures(join_path, (dir, name), r),
    ensures
        is_drive(dir@) || dir@.last() == '/' || dir@.last() == '\\' ==> r@ == dir@ + name@,
        !(is_drive(dir@) || dir@.last() == '/' || dir@.last() == '\\') ==> r@ == dir@ + seq!['\\']
            + name@,
        file_name_of(r@) == Some(name@),
{
    lemma_joined_file(dir@, name@);
    assert(!is_verbatim(dir@)) by {
        if is_verbatim(dir@) {
            assert(is_separator(dir@[0]) && is_separator(dir@[1]));
        }
    }
    assert(dir@.push('\\') =~= dir@ + seq!['\\']);
    lemma_prefix_len(r@);
    lemma_file_in_folder(dir@, name@);
    assert(r@[0] == dir@[0]);
    assert(dir@.len() > 1 ==> r@[1] == dir@[1]);
    assert(dir@.len() == 1 ==> r@[1] == '\\' || r@[1] == name@[0]);
    assert(!is_separator(name@[0]));
}

/// Replacing the extension of a file changes nothing before it; a file without one gets it after a
/// dot.
pub proof fn law_extension_is_replaced(
    p: &str,
    stem: Seq<char>,
    old_ext: Option<Seq<char>>,
    ext: &str,
    r: String,
)
    requires
        stem.len() > 0,
        old_ext is Some ==> !old_ext->0.contains('.'),
        old_ext is None ==> !stem.skip(1).contains('.'),
        file_name_of(p@) == Some(
            match old_ext {
                Some(old_ext) => stem + seq!['.'] + old_ext,
                None => stem,
            },
        ),
        path_body(p@) == p@,
        call_ensures(with_extension, (p, ext), r),
    ensures
        r@ == match old_ext {
            Some(old_ext) => p@.take(p@.len() - old_ext.len()) + ext@,
            None => p@ + seq!['.'] + ext@,
        },
{
    let dot = CharClass::Only('.');
    let name = file_name_of(p@)->0;
    let n = p@.len() as int;
    lemma_file_name(p@);
    lemma_after_last(name, dot);
    match old_ext {
        Some(old_ext) => {
            let head = stem + seq!['.'];
            assert forall|i: int| 0 <= i < old_ext.len() implies !dot.has(#[trigger] old_ext[i]) by {
                if old_ext[i] == '.' {
                    assert(old_ext.contains('.'));
                }
            }
            lemma_last_is(head, old_ext, dot);
            assert(head + old_ext =~= name);
            assert(stem_len(name) == stem.len());
            assert(stem_of(name) =~= stem);
            assert(p@.skip(n - name.len()) == name);
            assert(p@.take(n - name.len()) + stem + seq!['.'] =~= p@.take(n - old_ext.len())) by {
                assert forall|i: int| n - name.len() <= i < n implies p@[i] == name[i - (n
                    - name.len())] by {
                    assert(p@.skip(n - name.len())[i - (n - name.len())] == p@[i]);
                }
            }
        },
        None => {
            let tail = after_last(name, dot);
            assert(stem_len(name) == name.len()) by {
                let at = name.len() - tail.len() - 1;
                if at > 0 {
                    assert(dot.has(name[at]));
                    assert(stem.skip(1)[at - 1] == '.');
                }
            }
            assert(stem_of(name) =~= stem);
            assert(p@.take(n - name.len()) + stem =~= p@) by {
                assert forall|i: int| n - name.len() <= i < n implies p@[i] == name[i - (n
                    - name.len())] by {
                    assert(p@.skip(n - name.len())[i - (n - name.len())] == p@[i]);
                }
            }
        },
    }
}

/// The settings are kept beside a portable program; those of any other under the local application
/// data, else under the roaming data, in a folder of their own, and without either beside it.
pub proof fn law_settings_have_their_place(
    app_dir: &str,
    portable: bool,
    local: Option<&str>,
    roaming: Option<&str>,
    beside: String,
    folder: String,
    folder_text: &str,
    under: String,
    r: String,
)
    requires
        call_ensures(join_path, (app_dir, "config.toml"), beside),
        local is Some ==> call_ensures(join_path, (local->0, "ytdlp-ui"), folder),
        local is None && roaming is Some ==> call_ensures(
            join_path,
            (roaming->0, "ytdlp-ui"),
            folder,
        ),
        folder_text@ == folder@,
        call_ensures(join_path, (folder_text, "config.toml"), under),
        call_ensures(resolve_config_path, (app_dir, portable, local, roaming), r),
    ensures
        portable || local is None && roaming is None ==> r@ == beside@,
        !portable && (local is Some || roaming is Some) ==> r@ == under@,
{
}

} // verus!
