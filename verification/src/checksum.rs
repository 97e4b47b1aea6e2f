//! Checksums: where lists and release digests state them, and whether a download has them.
use crate::paths::{file_name, file_name_of, lemma_last_is};
use crate::text::{
    after_last, all_hex, all_white, cat4, is_all_hex, is_hex, is_trim, is_white, lemma_first_line,
    lemma_same_lower, lemma_skipped, lemma_trimmed_is, lines, lower, lower_char, opt_slice, same,
    same_ignoring_case, same_name, skip_class, slices, split_lines, starts, strip_prefix,
    suffix_after, to_lower, trim, trim_start_of, trimmed, CharClass,
};
use sha2::{Digest, Sha256};
use vstd::prelude::*;

verus! {

/// The SHA-256 digest of bytes.
pub uninterp spec fn sha256_digest(content: Seq<u8>) -> Seq<u8>;

/// `sha2::Sha256`: the digest is a function of the bytes that were fed to the hasher, and has 32
/// bytes.
#[verifier::external_body]
fn sha256(content: &Vec<u8>) -> (r: Vec<u8>)
    ensures
        r@ == sha256_digest(content@),
        r@.len() == 32,
{
    let mut hasher = Sha256::new();
    hasher.update(content);
    hasher.finalize().to_vec()
}

/// The hexadecimal digit for a number below sixteen.
pub open spec fn hex_char(d: u8) -> char {
    if d < 10 {
        (48 + d) as char
    } else {
        (87 + d) as char
    }
}

/// The bytes in lower-case hexadecimal, two digits each.
pub open spec fn hex_of(bytes: Seq<u8>) -> Seq<char> {
    Seq::new(
        2 * bytes.len(),
        |i: int|
            if i % 2 == 0 {
                hex_char(bytes[i / 2] / 16)
            } else {
                hex_char(bytes[i / 2] % 16)
            },
    )
}

/// The hexadecimal digit for a number below sixteen.
fn hex_digit(d: u8) -> (r: char)
    requires
        d < 16,
    ensures
        r == hex_char(d),
{
    if d < 10 {
        (48 + d) as char
    } else {
        (87 + d) as char
    }
}

/// The bytes in lower-case hexadecimal, two digits each.
pub fn hex_text(bytes: &Vec<u8>) -> (r: String)
    ensures
        r@ == hex_of(bytes@),
{
    let mut out = String::new();
    let mut i: usize = 0;
    while i < bytes.len()
        invariant
            i <= bytes.len(),
            out@ == hex_of(bytes@).take(2 * i),
        decreases bytes.len() - i,
    {
        out.push(hex_digit(bytes[i] / 16));
        out.push(hex_digit(bytes[i] % 16));
        assert((2 * i) / 2 == i && (2 * i + 1) / 2 == i && (2 * i) % 2 == 0 && (2 * i + 1) % 2
            == 1);
        assert(out@ =~= hex_of(bytes@).take(2 * (i + 1)));
        i = i + 1;
    }
    assert(hex_of(bytes@).take(2 * bytes@.len() as int) =~= hex_of(bytes@));
    out
}

/// Whether `s` begins with the 64 digits of a digest.
pub open spec fn has_hash(s: Seq<char>) -> bool {
    s.len() >= 64 && all_hex(s.take(64))
}

/// The digest that `s` begins with, in lower case.
pub open spec fn hash_of(s: Seq<char>) -> Seq<char> {
    lower(s.take(64))
}

/// The file that a line of a checksum list is about: what follows the digest, without folders.
pub open spec fn listed_name(line: Seq<char>) -> Seq<char> {
    after_last(trimmed(skip_class(line.skip(64), CharClass::WhiteOrStar)), CharClass::Separator)
}

/// The digest that one line of a checksum list states of the file `name`.
pub open spec fn line_hash(line: Seq<char>, name: Seq<char>) -> Option<Seq<char>> {
    let line = trimmed(line);
    if has_hash(line) && lower(listed_name(line)) == lower(name) {
        Some(hash_of(line))
    } else {
        None
    }
}

/// The digest that the first line about the file `name` states.
pub open spec fn listed_hash(list: Seq<Seq<char>>, name: Seq<char>) -> Option<Seq<char>>
    decreases list.len(),
{
    if list.len() == 0 {
        None
    } else if line_hash(list[0], name) is Some {
        line_hash(list[0], name)
    } else {
        listed_hash(list.drop_first(), name)
    }
}

/// Whether the line is long enough for a digest, but its 64th byte ends inside a character.
pub open spec fn cuts_character(line: Seq<char>) -> bool {
    let bytes = vstd::utf8::encode_utf8(trimmed(line));
    bytes.len() >= 64 && !vstd::utf8::is_char_boundary(bytes, 64)
}

/// Whether every line up to the first one about the file `name` can be cut after its 64th byte.
pub open spec fn is_readable(list: Seq<Seq<char>>, name: Seq<char>) -> bool
    decreases list.len(),
{
    list.len() == 0 || !cuts_character(list[0]) && (line_hash(list[0], name) is Some
        || is_readable(list.drop_first(), name))
}

/// The digest that a checksum list states: of the asset that is asked for, or else of the file
/// `fallback_name`, and without a name also the one that the list begins with.
pub open spec fn checksum_of(
    manifest: Seq<char>,
    expected_asset_name: Option<Seq<char>>,
    fallback_name: Seq<char>,
) -> Option<Seq<char>> {
    let list = lines(manifest);
    match expected_asset_name {
        Some(name) => listed_hash(list, name),
        None => if listed_hash(list, fallback_name) is Some {
            listed_hash(list, fallback_name)
        } else if has_hash(trimmed(manifest)) {
            Some(hash_of(trimmed(manifest)))
        } else {
            None
        },
    }
}

/// The digest that `s` begins with, in lower case.
fn leading_hash(s: &str) -> (r: Option<String>)
    ensures
        match r {
            Some(hash) => has_hash(s@) && hash@ == hash_of(s@),
            None => !has_hash(s@),
        },
{
    if s.unicode_len() < 64 {
        return None;
    }
    let hash = s.substring_char(0, 64);
    assert(hash@ =~= s@.take(64));
    if is_all_hex(hash) {
        Some(to_lower(hash))
    } else {
        None
    }
}

/// The digest that one line of a checksum list states of the file `name`.
pub fn hash_in_line(line: &str, name: &str) -> (r: Option<String>)
    ensures
        match r {
            Some(hash) => line_hash(line@, name@) == Some(hash@),
            None => line_hash(line@, name@) is None,
        },
{
    let line = trim(line);
    match leading_hash(line) {
        Some(hash) => {
            let rest = line.substring_char(64, line.unicode_len());
            assert(rest@ =~= line@.skip(64));
            let name_part = trim(trim_start_of(rest, CharClass::WhiteOrStar));
            let listed = suffix_after(name_part, CharClass::Separator);
            if same_ignoring_case(listed, name) {
                Some(hash)
            } else {
                None
            }
        },
        None => None,
    }
}

/// The file whose digest is looked for.
pub open spec fn wanted_name(
    expected_asset_name: Option<Seq<char>>,
    fallback_name: Seq<char>,
) -> Seq<char> {
    match expected_asset_name {
        Some(name) => name,
        None => fallback_name,
    }
}

/// Whether every line up to the first one about the wanted file can be cut after its 64th byte.
pub fn can_parse_checksum(
    manifest: &str,
    expected_asset_name: Option<&str>,
    fallback_name: &str,
) -> (r: bool)
    ensures
        r == is_readable(
            lines(manifest@),
            wanted_name(opt_slice(expected_asset_name), fallback_name@),
        ),
{
    let name = match expected_asset_name {
        Some(name) => name,
        None => fallback_name,
    };
    let list = split_lines(manifest);
    let ghost all = slices(list@);
    assert(all.skip(0) =~= all);
    let mut i: usize = 0;
    while i < list.len()
        invariant
            i <= list.len(),
            all == slices(list@),
            all == lines(manifest@),
            name@ == wanted_name(opt_slice(expected_asset_name), fallback_name@),
            is_readable(all, name@) == is_readable(all.skip(i as int), name@),
        decreases list.len() - i,
    {
        assert(all.skip(i as int)[0] == list@[i as int]@);
        let bytes = trim(list[i]).as_bytes();
        if bytes.len() >= 64 && !trim(list[i]).is_char_boundary(64) {
            return false;
        }
        if hash_in_line(list[i], name).is_some() {
            return true;
        }
        assert(all.skip(i as int).drop_first() =~= all.skip(i + 1));
        i = i + 1;
    }
    true
}

/// The digest that a checksum list states: of the asset that is asked for, or else of the file
/// `fallback_name`, and without a name also the one that the list begins with.
pub fn parse_checksum(
    manifest: &str,
    expected_asset_name: Option<&str>,
    fallback_name: &str,
) -> (r: Option<String>)
    requires
        is_readable(
            lines(manifest@),
            wanted_name(opt_slice(expected_asset_name), fallback_name@),
        ),
    ensures
        match r {
            Some(hash) => checksum_of(manifest@, opt_slice(expected_asset_name), fallback_name@)
                == Some(hash@),
            None => checksum_of(
                manifest@,
                opt_slice(expected_asset_name),
                fallback_name@,
            ) is None,
        },
{
    let name = match expected_asset_name {
        Some(name) => name,
        None => fallback_name,
    };
    let list = split_lines(manifest);
    let ghost all = slices(list@);
    assert(all.skip(0) =~= all);
    let mut i: usize = 0;
    while i < list.len()
        invariant
            i <= list.len(),
            all == slices(list@),
            all == lines(manifest@),
            name@ == wanted_name(opt_slice(expected_asset_name), fallback_name@),
            listed_hash(all, name@) == listed_hash(all.skip(i as int), name@),
        decreases list.len() - i,
    {
        assert(all.skip(i as int)[0] == list@[i as int]@);
        let found = hash_in_line(list[i], name);
        if found.is_some() {
            return found;
        }
        assert(all.skip(i as int).drop_first() =~= all.skip(i + 1));
        i = i + 1;
    }
    if expected_asset_name.is_some() {
        return None;
    }
    leading_hash(trim(manifest))
}

/// The digest in a release digest of the form `sha256:` and 64 hexadecimal digits.
pub open spec fn github_hash(digest: Seq<char>) -> Option<Seq<char>> {
    let hash = digest.skip("sha256:"@.len() as int);
    if starts(digest, "sha256:"@) && hash.len() == 64 && all_hex(hash) {
        Some(hash)
    } else {
        None
    }
}

/// The digest in a release digest of the form `sha256:` and 64 hexadecimal digits.
pub fn parse_github_sha256<'a>(digest: &'a str) -> (r: Option<&'a str>)
    ensures
        opt_slice(r) == github_hash(digest@),
{
    match strip_prefix(digest, "sha256:") {
        Some(hash) => if hash.unicode_len() == 64 && is_all_hex(hash) {
            Some(hash)
        } else {
            None
        },
        None => None,
    }
}

/// How it ends to hold `content` against the digest `expected`, in either case.
pub open spec fn sha256_verdict(content: Seq<u8>, expected: Seq<char>) -> Result<(), Seq<char>> {
    let actual = hex_of(sha256_digest(content));
    if actual == lower(expected) {
        Ok(())
    } else {
        Err("Checksum mismatch: expected "@ + lower(expected) + ", got "@ + actual)
    }
}

/// What a verdict says.
pub open spec fn verdict(r: Result<(), String>) -> Result<(), Seq<char>> {
    match r {
        Ok(_) => Ok(()),
        Err(message) => Err(message@),
    }
}

/// Holds the digest `actual` against the one that is expected, in either case.
pub fn match_digest(actual: &str, expected: &str) -> (r: Result<(), String>)
    ensures
        verdict(r) == if actual@ == lower(expected@) {
            Ok::<(), Seq<char>>(())
        } else {
            Err("Checksum mismatch: expected "@ + lower(expected@) + ", got "@ + actual@)
        },
{
    let expected = to_lower(expected);
    if same(actual, expected.as_str()) {
        Ok(())
    } else {
        Err(cat4("Checksum mismatch: expected ", expected.as_str(), ", got ", actual))
    }
}

/// Holds `content` against the digest `expected`.
pub fn verify_sha256(content: &Vec<u8>, expected: &str) -> (r: Result<(), String>)
    ensures
        verdict(r) == sha256_verdict(content@, expected@),
        sha256_digest(content@).len() == 32,
{
    let actual = hex_text(&sha256(content));
    match_digest(actual.as_str(), expected)
}

/// Holds a download that was read, or the failure to read it, against a digest.
fn verify_download(content: &Result<Vec<u8>, String>, expected: &str) -> (r: Result<(), String>)
    ensures
        verdict(r) == match *content {
            Ok(bytes) => sha256_verdict(bytes@, expected@),
            Err(err) => Err(err@),
        },
{
    match content {
        Ok(bytes) => verify_sha256(bytes, expected),
        Err(err) => Err(err.clone()),
    }
}

/// Holds a download that was read, or the failure to read it, against a release digest.
pub fn verify_github_digest(content: &Result<Vec<u8>, String>, digest: &str) -> (r: Result<
    (),
    String,
>)
    ensures
        verdict(r) == match github_hash(digest@) {
            Some(hash) => match *content {
                Ok(bytes) => sha256_verdict(bytes@, hash),
                Err(err) => Err(err@),
            },
            None => Err("Неподдерживаемый GitHub digest: "@ + digest@),
        },
{
    match parse_github_sha256(digest) {
        Some(hash) => verify_download(content, hash),
        None => Err(crate::text::cat("Неподдерживаемый GitHub digest: ", digest)),
    }
}

/// The name of the file at the end of a path; empty where there is none.
pub open spec fn name_or_empty(path: Seq<char>) -> Seq<char> {
    match file_name_of(path) {
        Some(name) => name,
        None => Seq::empty(),
    }
}

/// The name of the file at the end of a path; empty where there is none.
pub fn fallback_name<'a>(path: &'a str) -> (r: &'a str)
    ensures
        r@ == name_or_empty(path@),
{
    match file_name(path) {
        Some(name) => name,
        None => {
            proof {
                reveal_strlit("");
            }
            assert(""@ =~= Seq::<char>::empty());
            ""
        },
    }
}

/// Holds the download at `file_path` against a checksum list, where there is one. The list comes
/// as it was fetched, or as the failure to fetch it; the download as it was read, or as the
/// failure to read it.
pub fn verify_checksum_if_present(
    manifest: &Option<Result<String, String>>,
    file_path: &str,
    content: &Result<Vec<u8>, String>,
    expected_asset_name: Option<&str>,
) -> (r: Result<(), String>)
    requires
        manifest matches Some(Ok(text)) ==> is_readable(
            lines(text@),
            wanted_name(opt_slice(expected_asset_name), name_or_empty(file_path@)),
        ),
    ensures
        verdict(r) == match *manifest {
            None => Ok::<(), Seq<char>>(()),
            Some(Err(err)) => Err(err@),
            Some(Ok(text)) => match checksum_of(
                text@,
                opt_slice(expected_asset_name),
                name_or_empty(file_path@),
            ) {
                None => Err("Не удалось извлечь checksum"@),
                Some(expected) => match *content {
                    Ok(bytes) => sha256_verdict(bytes@, expected),
                    Err(err) => Err(err@),
                },
            },
        },
{
    match manifest {
        None => Ok(()),
        Some(Err(err)) => Err(err.clone()),
        Some(Ok(text)) => {
            match parse_checksum(text.as_str(), expected_asset_name, fallback_name(file_path)) {
                None => Err("Не удалось извлечь checksum".to_owned()),
                Some(expected) => verify_download(content, expected.as_str()),
            }
        },
    }
}

/// A digest in hexadecimal is made of lower-case hexadecimal digits, two for each byte.
pub proof fn lemma_hex_of(bytes: Seq<u8>)
    ensures
        hex_of(bytes).len() == 2 * bytes.len(),
        all_hex(hex_of(bytes)),
        lower(hex_of(bytes)) == hex_of(bytes),
{
    let s = hex_of(bytes);
    assert forall|i: int| 0 <= i < s.len() implies is_hex(#[trigger] s[i])
        && lower_char(s[i]) == s[i] by {
        let b = bytes[i / 2];
        assert(b / 16 < 16 && b % 16 < 16);
    }
    assert(lower(s) =~= s);
}

/// A download passes exactly where its own digest, in hexadecimal, is the expected one in either
/// case.
pub proof fn law_verified_iff_digest_matches(content: Seq<u8>, expected: Seq<char>)
    ensures
        sha256_verdict(content, expected) is Ok <==> lower(expected) == hex_of(
            sha256_digest(content),
        ),
{
}

/// A release digest that is written as `sha256:` and the digest of a download in hexadecimal is
/// understood, and the download passes.
pub proof fn law_own_digest_passes(content: Seq<u8>)
    requires
        sha256_digest(content).len() == 32,
    ensures
        ({
            let hash = hex_of(sha256_digest(content));
            &&& github_hash("sha256:"@ + hash) == Some(hash)
            &&& sha256_verdict(content, hash) is Ok
        }),
{
    let hash = hex_of(sha256_digest(content));
    lemma_hex_of(sha256_digest(content));
    let digest = "sha256:"@ + hash;
    assert(digest.skip("sha256:"@.len() as int) =~= hash);
    assert(digest.subrange(0, "sha256:"@.len() as int) =~= "sha256:"@);
}

/// A digest that is found in a checksum list for a requested asset stands in a line about that
/// asset, and in no other: without such a line there is none.
pub proof fn law_checksum_is_of_requested_asset(
    manifest: Seq<char>,
    name: Seq<char>,
    fallback_name: Seq<char>,
)
    ensures
        match checksum_of(manifest, Some(name), fallback_name) {
            Some(hash) => exists|i: int|
                0 <= i < lines(manifest).len() && #[trigger] line_hash(lines(manifest)[i], name)
                    == Some(hash),
            None => forall|i: int|
                0 <= i < lines(manifest).len() ==> #[trigger] line_hash(
                    lines(manifest)[i],
                    name,
                ) is None,
        },
{
    lemma_listed_hash(lines(manifest), name);
}

proof fn lemma_listed_hash(list: Seq<Seq<char>>, name: Seq<char>)
    ensures
        match listed_hash(list, name) {
            Some(hash) => exists|i: int|
                0 <= i < list.len() && #[trigger] line_hash(list[i], name) == Some(hash),
            None => forall|i: int|
                0 <= i < list.len() ==> #[trigger] line_hash(list[i], name) is None,
        },
    decreases list.len(),
{
    if list.len() > 0 && line_hash(list[0], name) is None {
        let rest = list.drop_first();
        lemma_listed_hash(rest, name);
        match listed_hash(rest, name) {
            Some(hash) => {
                let i = choose|i: int|
                    0 <= i < rest.len() && #[trigger] line_hash(rest[i], name) == Some(hash);
                assert(line_hash(list[i + 1], name) == Some(hash));
            },
            None => {
                assert forall|i: int| 0 <= i < list.len() implies #[trigger] line_hash(
                    list[i],
                    name,
                ) is None by {
                    if i > 0 {
                        assert(line_hash(rest[i - 1], name) is None);
                    }
                }
            },
        }
    }
}

/// A digest that is found in a checksum list is made of 64 lower-case hexadecimal digits.
pub proof fn law_checksum_is_hexadecimal(
    manifest: Seq<char>,
    expected_asset_name: Option<Seq<char>>,
    fallback_name: Seq<char>,
    hash: Seq<char>,
)
    requires
        checksum_of(manifest, expected_asset_name, fallback_name) == Some(hash),
    ensures
        hash.len() == 64,
        all_hex(hash),
        lower(hash) == hash,
{
    let list = lines(manifest);
    let name = wanted_name(expected_asset_name, fallback_name);
    lemma_listed_hash(list, name);
    assert forall|s: Seq<char>| has_hash(s) implies (#[trigger] hash_of(s)).len() == 64 && all_hex(
        hash_of(s),
    ) && lower(hash_of(s)) == hash_of(s) by {
        let h = hash_of(s);
        assert forall|i: int| 0 <= i < h.len() implies is_hex(#[trigger] h[i])
            && lower_char(h[i]) == h[i] by {
            assert(is_hex(s.take(64)[i]));
        }
        assert(lower(h) =~= h);
    }
    if listed_hash(list, name) is Some {
        let i = choose|i: int|
            0 <= i < list.len() && #[trigger] line_hash(list[i], name) == Some(hash);
        assert(hash == hash_of(trimmed(list[i])));
    } else {
        assert(hash == hash_of(trimmed(manifest)));
    }
}

/// Whether `s` is 64 hexadecimal digits, in either case.
pub open spec fn is_digest(s: Seq<char>) -> bool {
    s.len() == 64 && all_hex(s)
}

/// Whether `s` is the name of a file as checksum lists have it: not empty, without separators,
/// without white space at its ends, without line feeds, and without the mark of binary files before
/// it.
pub open spec fn is_listed_name(s: Seq<char>) -> bool {
    &&& s.len() > 0
    &&& is_trim(s)
    &&& s[0] != '*'
    &&& forall|i: int|
        0 <= i < s.len() ==> #[trigger] s[i] != '/' && s[i] != '\\' && s[i] != '\n'
}

/// Whether `s` can stand between a digest and a file name: white space and the mark of binary files.
pub open spec fn is_gap(s: Seq<char>) -> bool {
    forall|i: int| 0 <= i < s.len() ==> is_white(#[trigger] s[i]) || s[i] == '*'
}

/// Whether `s` can stand before a file name as its folder: nothing, or a text that begins with
/// neither white space nor the mark of binary files and ends with a separator.
pub open spec fn is_folder_text(s: Seq<char>) -> bool {
    s.len() > 0 ==> !is_white(s[0]) && s[0] != '*' && (s.last() == '/' || s.last() == '\\')
}

/// What is stated by a line that is a digest, a gap, a folder and a name, with white space round it.
proof fn lemma_stated_line(
    lead: Seq<char>,
    digest: Seq<char>,
    gap: Seq<char>,
    folder: Seq<char>,
    name: Seq<char>,
    tail: Seq<char>,
    wanted: Seq<char>,
)
    requires
        all_white(lead),
        all_white(tail),
        is_digest(digest),
        is_gap(gap),
        is_folder_text(folder),
        is_listed_name(name),
    ensures
        line_hash(lead + (digest + gap + folder + name) + tail, wanted) == if same_name(
            name,
            wanted,
        ) {
            Some(lower(digest))
        } else {
            None
        },
{
    let line = digest + gap + folder + name;
    let class = CharClass::WhiteOrStar;
    assert(is_hex(digest[0]));
    assert(line[0] == digest[0]);
    assert(line.last() == name[name.len() - 1]);
    lemma_trimmed_is(lead, line, tail);
    assert(line.take(64) =~= digest);
    let rest = line.skip(64);
    let file = folder + name;
    assert(rest =~= gap + file);
    assert(folder.len() > 0 ==> file[0] == folder[0]);
    assert(folder.len() == 0 ==> file[0] == name[0]);
    lemma_skipped(gap, file, class);
    let none = Seq::<char>::empty();
    assert(file.last() == name[name.len() - 1]);
    lemma_trimmed_is(none, file, none);
    assert(none + file + none =~= file);
    let separator = CharClass::Separator;
    assert forall|i: int| 0 <= i < name.len() implies !separator.has(#[trigger] name[i]) by {}
    lemma_last_is(folder, name, separator);
    lemma_same_lower(name, wanted);
}

/// A line of a checksum list that is 64 hexadecimal digits, white space or the mark of binary files,
/// and a file name, with folders before it or not, states the digest of exactly the file that goes by
/// this name, whatever the case of its letters; of no other file does it state anything. The digest
/// is the one on the line, in lower case. A list of one such line gives just that.
pub proof fn law_line_states_its_own_file(
    lead: Seq<char>,
    digest: Seq<char>,
    gap: Seq<char>,
    folder: Seq<char>,
    name: Seq<char>,
    tail: Seq<char>,
    line: &str,
    wanted: &str,
    r: Option<String>,
)
    requires
        all_white(lead),
        all_white(tail),
        is_digest(digest),
        is_gap(gap),
        is_folder_text(folder),
        is_listed_name(name),
        line@ == lead + (digest + gap + folder + name) + tail,
        call_ensures(hash_in_line, (line, wanted), r),
    ensures
        r is Some <==> same_name(name, wanted@),
        r is Some ==> r->0@.len() == 64 && same_name(r->0@, digest) && lower(r->0@) == r->0@,
{
    lemma_stated_line(lead, digest, gap, folder, name, tail, wanted@);
    lemma_lower_again(digest);
    lemma_same_lower(lower(digest), digest);
}

/// A text in lower case is the same in lower case.
proof fn lemma_lower_again(s: Seq<char>)
    ensures
        lower(lower(s)) == lower(s),
{
    assert forall|i: int| 0 <= i < s.len() implies lower_char(lower_char(#[trigger] s[i]))
        == lower_char(s[i]) by {}
    assert(lower(lower(s)) =~= lower(s));
}

/// A line of a checksum list: a digest, two spaces, and the name of the file.
pub open spec fn list_line(entry: (Seq<char>, Seq<char>)) -> Seq<char> {
    entry.0 + seq![' ', ' '] + entry.1
}

/// A checksum list: a line for each file, each ended by a line feed.
pub open spec fn list_text(entries: Seq<(Seq<char>, Seq<char>)>) -> Seq<char>
    decreases entries.len(),
{
    if entries.len() == 0 {
        Seq::empty()
    } else {
        list_line(entries[0]) + seq!['\n'] + list_text(entries.drop_first())
    }
}

/// Whether each line of a checksum list has a digest and a name.
pub open spec fn is_list(entries: Seq<(Seq<char>, Seq<char>)>) -> bool {
    forall|i: int|
        0 <= i < entries.len() ==> is_digest((#[trigger] entries[i]).0) && is_listed_name(
            entries[i].1,
        )
}

/// The lines of a checksum list are the ones that it was made of, and the wanted one is found.
proof fn lemma_list_text(entries: Seq<(Seq<char>, Seq<char>)>, wanted: Seq<char>, at: int)
    requires
        is_list(entries),
        0 <= at <= entries.len(),
        forall|i: int| 0 <= i < at ==> !same_name((#[trigger] entries[i]).1, wanted),
        at < entries.len() ==> same_name(entries[at].1, wanted),
    ensures
        listed_hash(lines(list_text(entries)), wanted) == if at < entries.len() {
            Some(lower(entries[at].0))
        } else {
            None
        },
    decreases entries.len(),
{
    let none = Seq::<char>::empty();
    if entries.len() > 0 {
        let rest = entries.drop_first();
        let (digest, name) = entries[0];
        assert(is_digest(digest) && is_listed_name(name));
        let line = list_line(entries[0]);
        let gap = seq![' ', ' '];
        assert(!line.contains('\n')) by {
            if line.contains('\n') {
                let k = line.index_of('\n');
                if k < 64 {
                    assert(is_hex(digest[k]));
                } else if k >= 66 {
                    assert(name[k - 66] != '\n');
                }
            }
        }
        assert(line.last() == name[name.len() - 1]);
        lemma_first_line(line, list_text(rest));
        let all = lines(list_text(entries));
        assert(all == seq![line] + lines(list_text(rest)));
        assert(all[0] == line);
        assert(all.drop_first() =~= lines(list_text(rest)));
        assert(none + (digest + gap + none + name) + none =~= line);
        lemma_stated_line(none, digest, gap, none, name, none, wanted);
        assert forall|i: int| 0 <= i < rest.len() implies is_digest((#[trigger] rest[i]).0)
            && is_listed_name(rest[i].1) by {
            assert(rest[i] == entries[i + 1]);
        }
        if at > 0 {
            assert(!same_name(entries[0].1, wanted));
            assert forall|i: int| 0 <= i < at - 1 implies !same_name(
                (#[trigger] rest[i]).1,
                wanted,
            ) by {
                assert(rest[i] == entries[i + 1]);
            }
            if at < entries.len() {
                assert(rest[at - 1] == entries[at]);
            }
            lemma_list_text(rest, wanted, at - 1);
        }
    }
}

/// In a list of digests and names, the digest that is found for a file is the one on the line with
/// its name, the first where there are several; where no line has the name, none is found.
pub proof fn law_list_states_each_file(
    entries: Seq<(Seq<char>, Seq<char>)>,
    at: int,
    manifest: &str,
    wanted: &str,
    fallback: &str,
    r: Option<String>,
)
    requires
        is_list(entries),
        0 <= at <= entries.len(),
        forall|i: int| 0 <= i < at ==> !same_name((#[trigger] entries[i]).1, wanted@),
        at < entries.len() ==> same_name(entries[at].1, wanted@),
        manifest@ == list_text(entries),
        call_ensures(parse_checksum, (manifest, Some(wanted), fallback), r),
    ensures
        r is Some <==> at < entries.len(),
        r is Some ==> same_name(r->0@, entries[at].0) && lower(r->0@) == r->0@,
{
    lemma_list_text(entries, wanted@, at);
    if at < entries.len() {
        lemma_lower_again(entries[at].0);
        lemma_same_lower(lower(entries[at].0), entries[at].0);
    }
}

/// The same list asked for no file in particular gives the digest of the downloaded file by its own
/// name, and where no line has that name, the digest that the list begins with.
pub proof fn law_list_without_a_wanted_file(
    entries: Seq<(Seq<char>, Seq<char>)>,
    at: int,
    manifest: &str,
    fallback: &str,
    r: Option<String>,
)
    requires
        is_list(entries),
        entries.len() > 0,
        0 <= at <= entries.len(),
        forall|i: int| 0 <= i < at ==> !same_name((#[trigger] entries[i]).1, fallback@),
        at < entries.len() ==> same_name(entries[at].1, fallback@),
        manifest@ == list_text(entries),
        call_ensures(parse_checksum, (manifest, None, fallback), r),
    ensures
        r is Some,
        same_name(
            r->0@,
            if at < entries.len() {
                entries[at].0
            } else {
                entries[0].0
            },
        ),
        lower(r->0@) == r->0@,
{
    lemma_list_text(entries, fallback@, at);
    let (digest, name) = entries[0];
    assert(is_digest(digest) && is_listed_name(name));
    lemma_list_end(entries);
    let none = Seq::<char>::empty();
    let text = list_text(entries);
    let body = text.drop_last();
    assert(text =~= none + body + seq!['\n']);
    assert(is_hex(digest[0]));
    assert(text[0] == digest[0]);
    lemma_trimmed_is(none, body, seq!['\n']);
    assert(body.take(64) =~= digest);
    lemma_lower_again(digest);
    lemma_same_lower(lower(digest), digest);
    if at < entries.len() {
        lemma_lower_again(entries[at].0);
        lemma_same_lower(lower(entries[at].0), entries[at].0);
    }
}

/// A checksum list ends with the last character of a name and a line feed.
proof fn lemma_list_end(entries: Seq<(Seq<char>, Seq<char>)>)
    requires
        is_list(entries),
        entries.len() > 0,
    ensures
        ({
            let text = list_text(entries);
            &&& text.len() > 66
            &&& text.last() == '\n'
            &&& !is_white(text[text.len() - 2])
        }),
    decreases entries.len(),
{
    let rest = entries.drop_first();
    let (digest, name) = entries[0];
    assert(is_digest(digest) && is_listed_name(name));
    let line = list_line(entries[0]);
    let text = list_text(entries);
    if rest.len() > 0 {
        assert forall|i: int| 0 <= i < rest.len() implies is_digest((#[trigger] rest[i]).0)
            && is_listed_name(rest[i].1) by {
            assert(rest[i] == entries[i + 1]);
        }
        lemma_list_end(rest);
        let more = list_text(rest);
        assert(text[text.len() - 2] == more[more.len() - 2]);
    } else {
        assert(list_text(rest).len() == 0);
        assert(text =~= line + seq!['\n']);
        assert(text[text.len() - 2] == name[name.len() - 1]);
    }
}

/// A checksum file that holds nothing but a digest states the digest of the download where no file in
/// particular is asked for, and of no file by its name.
pub proof fn law_bare_digest(
    lead: Seq<char>,
    digest: Seq<char>,
    tail: Seq<char>,
    manifest: &str,
    wanted: &str,
    any: Option<String>,
    named: Option<String>,
)
    requires
        all_white(lead),
        all_white(tail),
        is_digest(digest),
        wanted@.len() > 0,
        manifest@ == lead + digest + tail,
        call_ensures(parse_checksum, (manifest, None, wanted), any),
        call_ensures(parse_checksum, (manifest, Some(wanted), wanted), named),
    ensures
        any is Some,
        any->0@ == lower(digest),
        named is None,
{
    let none = Seq::<char>::empty();
    assert(is_hex(digest[0]) && is_hex(digest[63]));
    lemma_trimmed_is(lead, digest, tail);
    assert(digest.take(64) =~= digest);
    lemma_bare_lines(lead + digest + tail, digest, wanted@);
}

/// No line of a text that trims to a digest is about a file with a name.
proof fn lemma_bare_lines(text: Seq<char>, digest: Seq<char>, wanted: Seq<char>)
    requires
        is_digest(digest),
        wanted.len() > 0,
        exists|lead: Seq<char>, tail: Seq<char>|
            all_white(lead) && all_white(tail) && text == #[trigger] (lead + digest + tail),
    ensures
        listed_hash(lines(text), wanted) is None,
{
    let (lead, tail) = choose|lead: Seq<char>, tail: Seq<char>|
        all_white(lead) && all_white(tail) && text == #[trigger] (lead + digest + tail);
    assert forall|i: int| 0 <= i < lines(text).len() implies line_hash(
        #[trigger] lines(text)[i],
        wanted,
    ) is None by {
        lemma_line_of_bare(lead, digest, tail, i);
        let line = lines(text)[i];
        let t = trimmed(line);
        if has_hash(t) {
            assert(t == digest);
            let none = Seq::<char>::empty();
            assert(digest.skip(64) =~= none);
            assert(skip_class(none, CharClass::WhiteOrStar) == none);
            assert(trimmed(none) == none);
            assert(after_last(none, CharClass::Separator) == none);
            assert(lower(none).len() != lower(wanted).len());
        }
    }
    lemma_listed_hash(lines(text), wanted);
    if listed_hash(lines(text), wanted) is Some {
        let hash = listed_hash(lines(text), wanted)->0;
        let i = choose|i: int|
            0 <= i < lines(text).len() && #[trigger] line_hash(lines(text)[i], wanted) == Some(hash);
        assert(line_hash(lines(text)[i], wanted) is None);
    }
}

/// A line of a text that is a digest between white space is blank, or trims to the digest.
proof fn lemma_line_of_bare(lead: Seq<char>, digest: Seq<char>, tail: Seq<char>, i: int)
    requires
        all_white(lead),
        all_white(tail),
        digest.len() == 0 || is_digest(digest),
        0 <= i < lines(lead + digest + tail).len(),
    ensures
        trimmed(lines(lead + digest + tail)[i]) == digest || trimmed(
            lines(lead + digest + tail)[i],
        ).len() == 0,
    decreases lead.len() + digest.len() + tail.len(),
{
    let none = Seq::<char>::empty();
    let text = lead + digest + tail;
    let class = CharClass::Only('\n');
    crate::text::lemma_run_len(text, class);
    let n = crate::text::run_len(text, class) as int;
    assert forall|k: int| 0 <= k < digest.len() implies #[trigger] digest[k] != '\n' && !is_white(
        digest[k],
    ) by {
        assert(is_hex(digest[k]));
    }
    if text.len() == 0 {
    } else if n == text.len() {
        assert(lines(text) == seq![text]);
        lemma_trimmed_is(lead, digest, tail);
    } else {
        let head = text.take(n);
        let line = crate::text::without_return(head);
        let rest = text.skip(n + 1);
        assert(lines(text) == seq![line] + lines(rest));
        if n < lead.len() {
            let more = lead.skip(n + 1);
            assert(rest =~= more + digest + tail);
            assert forall|k: int| 0 <= k < more.len() implies is_white(#[trigger] more[k]) by {
                assert(is_white(lead[n + 1 + k]));
            }
            assert forall|k: int| 0 <= k < line.len() implies is_white(#[trigger] line[k]) by {
                assert(line[k] == lead[k]);
            }
            lemma_trimmed_is(line, none, none);
            assert(line + none + none =~= line);
            if i > 0 {
                lemma_line_of_bare(more, digest, tail, i - 1);
            }
        } else {
            let d = (lead.len() + digest.len()) as int;
            assert(n >= d) by {
                if n < d {
                    assert(text[n] == digest[n - lead.len()]);
                }
            }
            let before = line.skip(d);
            let more = tail.skip(n + 1 - d);
            assert(rest =~= more + none + none);
            assert forall|k: int| 0 <= k < more.len() implies is_white(#[trigger] more[k]) by {
                assert(is_white(tail[n + 1 - d + k]));
            }
            if line.len() < d {
                assert(head.last() == '\r');
                assert(n == d);
                assert(is_white('\r'));
                if digest.len() > 0 {
                    assert(head[n - 1] == digest[digest.len() - 1]);
                }
                assert(digest.len() == 0);
                assert forall|k: int| 0 <= k < line.len() implies is_white(#[trigger] line[k]) by {
                    assert(line[k] == lead[k]);
                }
                lemma_trimmed_is(line, none, none);
                assert(line + none + none =~= line);
            } else {
                assert(line =~= lead + digest + before);
                assert forall|k: int| 0 <= k < before.len() implies is_white(
                    #[trigger] before[k],
                ) by {
                    assert(is_white(tail[k]));
                }
                lemma_trimmed_is(lead, digest, before);
            }
            if i > 0 {
                lemma_line_of_bare(more, none, none, i - 1);
            }
        }
    }
}

/// A release digest is understood exactly where it is `sha256:` and 64 hexadecimal digits; it then
/// states these digits.
pub proof fn law_release_digest_has_one_form(digest: &str, r: Option<&str>)
    requires
        call_ensures(parse_github_sha256, (digest,), r),
    ensures
        r is Some <==> exists|hash: Seq<char>|
            is_digest(hash) && digest@ == #[trigger] ("sha256:"@ + hash),
        r is Some ==> is_digest(r->0@) && digest@ == "sha256:"@ + r->0@,
{
    let n = "sha256:"@.len() as int;
    if r is Some {
        let hash = digest@.skip(n);
        assert(digest@ =~= "sha256:"@ + hash) by {
            assert forall|i: int| 0 <= i < n implies digest@[i] == "sha256:"@[i] by {
                assert(digest@.subrange(0, n)[i] == digest@[i]);
            }
        }
    }
    if exists|hash: Seq<char>| is_digest(hash) && digest@ == #[trigger] ("sha256:"@ + hash) {
        let hash = choose|hash: Seq<char>|
            is_digest(hash) && digest@ == #[trigger] ("sha256:"@ + hash);
        assert(digest@.skip(n) =~= hash);
        assert(digest@.subrange(0, n) =~= "sha256:"@);
    }
}

/// The number that a hexadecimal digit in lower case stands for.
pub open spec fn hex_value(c: char) -> int {
    if 'a' <= c <= 'f' {
        c as int - 'a' as int + 10
    } else {
        c as int - '0' as int
    }
}

/// The hexadecimal form of bytes has two digits for each of them, the higher one first, in lower
/// case.
pub proof fn law_hexadecimal_form(bytes: Vec<u8>, r: String, i: int)
    requires
        call_ensures(hex_text, (&bytes,), r),
        0 <= i < bytes@.len(),
    ensures
        r@.len() == 2 * bytes@.len(),
        all_hex(r@),
        lower(r@) == r@,
        bytes@[i] == 16 * hex_value(r@[2 * i]) + hex_value(r@[2 * i + 1]),
{
    lemma_hex_of(bytes@);
    let b = bytes@[i];
    assert((2 * i) / 2 == i && (2 * i + 1) / 2 == i && (2 * i) % 2 == 0 && (2 * i + 1) % 2 == 1);
    assert(b / 16 < 16 && b % 16 < 16);
    assert(hex_value(hex_char(b / 16)) == b / 16);
    assert(hex_value(hex_char(b % 16)) == b % 16);
}

/// A download passes a digest exactly where its own digest in hexadecimal is the same but for the
/// case; it is refused otherwise, and the reason names both.
pub proof fn law_download_passes_its_own_digest(
    content: Vec<u8>,
    expected: &str,
    own: Vec<u8>,
    hex: String,
    r: Result<(), String>,
)
    requires
        own@ == sha256_digest(content@),
        call_ensures(hex_text, (&own,), hex),
        call_ensures(verify_sha256, (&content, expected), r),
    ensures
        r is Ok <==> same_name(hex@, expected@),
        r is Err ==> r->Err_0@ == "Checksum mismatch: expected "@ + lower(expected@) + ", got "@
            + hex@,
{
    lemma_hex_of(own@);
    lemma_same_lower(hex@, expected@);
}

/// A download whose release states its digest is held against that digest; a digest in another form
/// is refused, and so is a download that could not be read.
pub proof fn law_release_digest_is_held_against(
    content: Result<Vec<u8>, String>,
    digest: &str,
    stated: Option<&str>,
    checked: Result<(), String>,
    r: Result<(), String>,
)
    requires
        call_ensures(parse_github_sha256, (digest,), stated),
        content is Ok && stated is Some ==> call_ensures(
            verify_sha256,
            (&content->Ok_0, stated->0),
            checked,
        ),
        call_ensures(verify_github_digest, (&content, digest), r),
    ensures
        stated is None ==> r is Err,
        stated is Some && content is Err ==> r is Err && r->Err_0@ == content->Err_0@,
        stated is Some && content is Ok ==> verdict(r) == verdict(checked),
{
}

/// A download is held against the checksum list where there is one: against the digest that the list
/// states of it. Without a list it passes; with a list that was not fetched, or that does not state
/// its digest, it does not.
pub proof fn law_listed_digest_is_held_against(
    manifest: Option<Result<String, String>>,
    file_path: &str,
    content: Result<Vec<u8>, String>,
    asset: Option<&str>,
    text: &str,
    fallback: &str,
    stated: Option<String>,
    stated_text: &str,
    checked: Result<(), String>,
    r: Result<(), String>,
)
    requires
        call_ensures(fallback_name, (file_path,), fallback),
        manifest matches Some(Ok(list)) ==> text@ == list@ && call_ensures(
            parse_checksum,
            (text, asset, fallback),
            stated,
        ),
        stated is Some ==> stated_text@ == stated->0@,
        content is Ok && stated is Some ==> call_ensures(
            verify_sha256,
            (&content->Ok_0, stated_text),
            checked,
        ),
        call_ensures(verify_checksum_if_present, (&manifest, file_path, &content, asset), r),
    ensures
        manifest is None ==> r is Ok,
        manifest matches Some(Err(err)) ==> r is Err && r->Err_0@ == err@,
        manifest matches Some(Ok(list)) ==> {
            &&& stated is None ==> r is Err
            &&& stated is Some && content is Err ==> r is Err && r->Err_0@ == content->Err_0@
            &&& stated is Some && content is Ok ==> verdict(r) == verdict(checked)
        },
{
}

} // verus!
