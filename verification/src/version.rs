//! Versions: as programs print them, as releases are tagged, and how they are compared.
use crate::text::{
    all_white, before_first, cat3, decimal, decimal_value, drop_class, fields, is_digit, is_white,
    lemma_decimal_start, lemma_decimal_value, lemma_drop_after, lemma_drop_is_start,
    lemma_fields_after, lemma_first_field, lemma_first_line, lemma_run_len, lemma_skipped,
    lemma_trimmed_is, lines, prefix_before, run_len, same, skip_class, slices, split_fields,
    split_lines, split_words, trim, trim_start_of, trimmed, without_return, words, CharClass,
};
use std::cmp::Ordering;
use vstd::prelude::*;

verus! {

/// A version of three numbers.
#[derive(Clone, Copy, Debug, PartialEq, Eq, Structural)]
pub struct ReleaseVersion {
    pub major: u64,
    pub minor: u64,
    pub patch: u64,
}

/// Whether `s` is made of decimal digits, at least one.
pub open spec fn is_number(s: Seq<char>) -> bool {
    s.len() > 0 && forall|i: int| 0 <= i < s.len() ==> is_digit(#[trigger] s[i])
}

/// Whether a number in a version is written without leading zeros and fits in 64 bits.
pub open spec fn is_version_number(s: Seq<char>) -> bool {
    (s.len() > 1 ==> s[0] != '0') && decimal_value(s) <= u64::MAX
}

/// The three numbers with dots between them.
pub open spec fn dotted(major: Seq<char>, minor: Seq<char>, patch: Seq<char>) -> Seq<char> {
    major + "."@ + minor + "."@ + patch
}

/// The version that three numbers stand for, where each of them is written as a version has it.
pub open spec fn version_of(
    major: Seq<char>,
    minor: Seq<char>,
    patch: Seq<char>,
) -> Option<ReleaseVersion> {
    if is_version_number(major) && is_version_number(minor) && is_version_number(patch) {
        Some(
            ReleaseVersion {
                major: decimal_value(major) as u64,
                minor: decimal_value(minor) as u64,
                patch: decimal_value(patch) as u64,
            },
        )
    } else {
        None
    }
}

/// `semver::Version::parse`: three numbers with dots between them are a version exactly where
/// none of them has a leading zero and each fits in 64 bits; its numbers are then theirs, and it
/// has neither a pre-release part nor build metadata.
#[verifier::external_body]
fn parse_version(text: &str) -> (r: Option<ReleaseVersion>)
    requires
        exists|a: Seq<char>, b: Seq<char>, c: Seq<char>|
            is_number(a) && is_number(b) && is_number(c) && text@ == #[trigger] dotted(a, b, c),
    ensures
        forall|a: Seq<char>, b: Seq<char>, c: Seq<char>|
            is_number(a) && is_number(b) && is_number(c) && text@ == #[trigger] dotted(a, b, c)
                ==> r == version_of(a, b, c),
{
    match semver::Version::parse(text) {
        Ok(v) => Some(ReleaseVersion { major: v.major, minor: v.minor, patch: v.patch }),
        Err(_) => None,
    }
}

/// How two versions compare: by the first of their numbers in which they differ.
pub open spec fn version_order(a: ReleaseVersion, b: ReleaseVersion) -> Ordering {
    if a == b {
        Ordering::Equal
    } else if a.major < b.major || a.major == b.major && (a.minor < b.minor || a.minor == b.minor
        && a.patch < b.patch) {
        Ordering::Less
    } else {
        Ordering::Greater
    }
}

/// The order of `semver::Version`: two versions without pre-release parts and build metadata
/// compare by major number, then by minor number, then by patch number.
#[verifier::external_body]
fn order_versions(a: ReleaseVersion, b: ReleaseVersion) -> (r: Ordering)
    ensures
        r == version_order(a, b),
{
    let left = semver::Version::new(a.major, a.minor, a.patch);
    let right = semver::Version::new(b.major, b.minor, b.patch);
    left.cmp(&right)
}

/// A version text without the white space round it, the letters `v` before it and anything after
/// its first word; the text itself where nothing is left.
pub open spec fn normal_version(raw: Seq<char>) -> Seq<char> {
    let parts = words(skip_class(trimmed(raw), CharClass::Only('v')));
    if parts.len() > 0 {
        parts[0]
    } else {
        raw
    }
}

/// A version text without the white space round it, the letters `v` before it and anything after
/// its first word; the text itself where nothing is left.
pub fn normalize_version(raw: &str) -> (r: String)
    ensures
        r@ == normal_version(raw@),
{
    let parts = split_words(trim_start_of(trim(raw), CharClass::Only('v')));
    assert(slices(parts@).len() == parts@.len());
    if parts.len() > 0 {
        parts[0].to_owned()
    } else {
        raw.to_owned()
    }
}

/// The numbers at the start of a version text.
pub open spec fn version_parts(input: Seq<char>) -> Seq<Seq<char>> {
    fields(before_first(normal_version(input), CharClass::NotVersion), CharClass::Only('.'))
}

/// The number at position `i` of a version, where one that is left out is zero.
pub open spec fn part_or_zero(parts: Seq<Seq<char>>, i: int) -> Seq<char> {
    if i < parts.len() {
        parts[i]
    } else {
        "0"@
    }
}

/// The version that a text begins with: its first three numbers, where those left out are zero.
pub open spec fn semver_of(input: Seq<char>) -> Option<ReleaseVersion> {
    let parts = version_parts(input);
    if parts.len() == 0 {
        None
    } else {
        version_of(part_or_zero(parts, 0), part_or_zero(parts, 1), part_or_zero(parts, 2))
    }
}

/// The fields between dots of a text of digits and dots are numbers.
proof fn lemma_fields_are_numbers(s: Seq<char>)
    requires
        forall|i: int| 0 <= i < s.len() ==> !CharClass::NotVersion.has(#[trigger] s[i]),
    ensures
        forall|i: int|
            0 <= i < fields(s, CharClass::Only('.')).len() ==> is_number(
                #[trigger] fields(s, CharClass::Only('.'))[i],
            ),
    decreases s.len(),
{
    let class = CharClass::Only('.');
    if s.len() == 0 {
    } else if class.has(s[0]) {
        assert forall|i: int| 0 <= i < s.drop_first().len() implies !CharClass::NotVersion.has(
            #[trigger] s.drop_first()[i],
        ) by {
            assert(s.drop_first()[i] == s[i + 1]);
        }
        lemma_fields_are_numbers(s.drop_first());
        assert(fields(s, class) == fields(s.drop_first(), class));
    } else {
        lemma_run_len(s, class);
        let n = run_len(s, class) as int;
        let head = s.take(n);
        assert(is_number(head)) by {
            assert forall|i: int| 0 <= i < head.len() implies is_digit(#[trigger] head[i]) by {
                assert(head[i] == s[i]);
                assert(!class.has(s[i]));
                assert(!CharClass::NotVersion.has(s[i]));
            }
        }
        let rest = s.skip(n);
        assert forall|i: int| 0 <= i < rest.len() implies !CharClass::NotVersion.has(
            #[trigger] rest[i],
        ) by {
            assert(rest[i] == s[n + i]);
        }
        lemma_fields_are_numbers(rest);
        let all = fields(s, class);
        assert(all == seq![head] + fields(rest, class));
        assert forall|i: int| 0 <= i < all.len() implies is_number(#[trigger] all[i]) by {
            if i > 0 {
                assert(all[i] == fields(rest, class)[i - 1]);
            }
        }
        assert(fields(s, CharClass::Only('.')) == all);
    }
}

/// The version that a text begins with: its first three numbers, where those left out are zero.
pub fn to_semver(input: &str) -> (r: Option<ReleaseVersion>)
    ensures
        r == semver_of(input@),
{
    let normal = normalize_version(input);
    let base = prefix_before(normal.as_str(), CharClass::NotVersion);
    let parts = split_fields(base, CharClass::Only('.'));
    assert(slices(parts@) == version_parts(input@));
    assert(slices(parts@).len() == parts@.len());
    if parts.len() == 0 {
        return None;
    }
    proof {
        lemma_run_len(normal@, CharClass::NotVersion);
        assert forall|i: int| 0 <= i < base@.len() implies !CharClass::NotVersion.has(
            #[trigger] base@[i],
        ) by {
            assert(base@[i] == normal@[i]);
        }
        lemma_fields_are_numbers(base@);
        reveal_strlit("0");
    }
    let major = parts[0];
    let minor = if parts.len() > 1 {
        parts[1]
    } else {
        "0"
    };
    let patch = if parts.len() > 2 {
        parts[2]
    } else {
        "0"
    };
    assert(major@ == version_parts(input@)[0]);
    assert(parts@.len() > 1 ==> minor@ == version_parts(input@)[1]);
    assert(parts@.len() > 2 ==> patch@ == version_parts(input@)[2]);
    assert(is_number(major@) && is_number(minor@) && is_number(patch@));
    let front = cat3(major, ".", minor);
    let text = cat3(front.as_str(), ".", patch);
    assert(text@ == dotted(major@, minor@, patch@));
    parse_version(text.as_str())
}

/// How two version texts compare, where both begin with a version.
pub open spec fn compared(local: Seq<char>, latest: Seq<char>) -> Option<Ordering> {
    match (semver_of(local), semver_of(latest)) {
        (Some(a), Some(b)) => Some(version_order(a, b)),
        _ => None,
    }
}

/// How two version texts compare, where both begin with a version.
pub fn compare_versions(local: &str, latest: &str) -> (r: Option<Ordering>)
    ensures
        r == compared(local@, latest@),
{
    match (to_semver(local), to_semver(latest)) {
        (Some(a), Some(b)) => Some(order_versions(a, b)),
        _ => None,
    }
}

/// The word after the first `version` of a list that is not its last word.
pub open spec fn word_after_version(list: Seq<Seq<char>>) -> Option<Seq<char>>
    decreases list.len(),
{
    if list.len() < 2 {
        None
    } else if list[0] == "version"@ {
        Some(list[1])
    } else {
        word_after_version(list.drop_first())
    }
}

/// The first line of a program's output, without the white space round it.
pub open spec fn first_line(stdout: Seq<char>) -> Seq<char> {
    trimmed(
        if lines(stdout).len() > 0 {
            lines(stdout)[0]
        } else {
            "?"@
        },
    )
}

/// The version that a program's output tells: what stands after the word `version` in its first
/// line, up to a dash, or else that line.
pub open spec fn output_version(stdout: Seq<char>) -> Seq<char> {
    let line = first_line(stdout);
    match word_after_version(words(line)) {
        Some(word) => before_first(word, CharClass::Only('-')),
        None => line,
    }
}

/// The version that a program's output tells: what stands after the word `version` in its first
/// line, up to a dash, or else that line.
pub fn version_from_output(stdout: &str) -> (r: String)
    ensures
        r@ == output_version(stdout@),
{
    let all = split_lines(stdout);
    assert(slices(all@).len() == all@.len());
    let line = trim(
        if all.len() > 0 {
            all[0]
        } else {
            "?"
        },
    );
    assert(line@ == first_line(stdout@));
    let parts = split_words(line);
    let ghost list = slices(parts@);
    assert(list.skip(0) =~= list);
    let mut i: usize = 0;
    while parts.len() - i > 1
        invariant
            i <= parts.len(),
            list == slices(parts@),
            list == words(line@),
            line@ == first_line(stdout@),
            word_after_version(list) == word_after_version(list.skip(i as int)),
        decreases parts.len() - i,
    {
        assert(list.skip(i as int)[0] == parts@[i as int]@);
        assert(list.skip(i as int)[1] == parts@[i + 1]@);
        if same(parts[i], "version") {
            return prefix_before(parts[i + 1], CharClass::Only('-')).to_owned();
        }
        assert(list.skip(i as int).drop_first() =~= list.skip(i + 1));
        i = i + 1;
    }
    line.to_owned()
}

/// How running a program ended, and what it printed.
pub struct ProgramOutput {
    pub success: bool,
    pub stdout: Vec<u8>,
}

/// The text that `String::from_utf8_lossy` makes of bytes.
pub uninterp spec fn lossy_text(bytes: Seq<u8>) -> Seq<char>;

/// `String::from_utf8_lossy`: the text is a function of the bytes. Where they are valid UTF-8 it
/// is the text that they encode.
#[verifier::external_body]
fn text_from_bytes(bytes: &Vec<u8>) -> (r: String)
    ensures
        r@ == lossy_text(bytes@),
        vstd::utf8::valid_utf8(bytes@) ==> r@ == vstd::utf8::decode_utf8(bytes@),
{
    String::from_utf8_lossy(bytes.as_slice()).into_owned()
}

/// The version of an installed program, from what it printed when asked for it. `None` stands for
/// a program that is not there or could not be started; one that fails tells no version either.
pub fn read_version_from_binary(output: Option<ProgramOutput>) -> (r: Option<String>)
    ensures
        match output {
            Some(output) => if output.success {
                r is Some && r->0@ == output_version(lossy_text(output.stdout@))
            } else {
                r is None
            },
            None => r is None,
        },
        output is Some && output->0.success && vstd::utf8::valid_utf8(output->0.stdout@) ==> r->0@
            == output_version(vstd::utf8::decode_utf8(output->0.stdout@)),
{
    match output {
        Some(output) => {
            if !output.success {
                return None;
            }
            let stdout = text_from_bytes(&output.stdout);
            Some(version_from_output(stdout.as_str()))
        },
        None => None,
    }
}

/// Comparing two versions the other way round turns the result round.
pub proof fn law_compare_is_antisymmetric(a: Seq<char>, b: Seq<char>)
    ensures
        compared(a, b) == Some(Ordering::Equal) <==> compared(b, a) == Some(Ordering::Equal),
        compared(a, b) == Some(Ordering::Less) <==> compared(b, a) == Some(Ordering::Greater),
        compared(a, b) is None <==> compared(b, a) is None,
{
}

/// What two comparisons in a row have in common, the comparison of the first with the last has too:
/// the order of versions has no cycles, and versions that are equal to one are equal to each other.
pub proof fn law_compare_is_transitive(
    a: Seq<char>,
    b: Seq<char>,
    c: Seq<char>,
    order: Ordering,
)
    requires
        compared(a, b) == Some(order),
        compared(b, c) == Some(order),
    ensures
        compared(a, c) == Some(order),
{
}

/// A text that begins with a version compares equal to itself.
pub proof fn law_compare_is_reflexive(a: Seq<char>)
    ensures
        compared(a, a) == if semver_of(a) is Some {
            Some(Ordering::Equal)
        } else {
            None
        },
{
}

/// Whether `s` is made of the letter `v` alone.
pub open spec fn all_v(s: Seq<char>) -> bool {
    forall|i: int| 0 <= i < s.len() ==> #[trigger] s[i] == 'v'
}

/// The part of `s` before its first white space.
proof fn lemma_first_word(body: Seq<char>, rest: Seq<char>) -> (more: Seq<char>)
    requires
        body.len() > 0,
        forall|i: int| 0 <= i < body.len() ==> !is_white(#[trigger] body[i]),
    ensures
        words(body + rest).len() > 0,
        words(body + rest)[0] == body + more,
        more.len() <= rest.len(),
        more == rest.take(more.len() as int),
        more.len() < rest.len() ==> is_white(rest[more.len() as int]),
        forall|i: int| 0 <= i < more.len() ==> !is_white(#[trigger] more[i]),
{
    let class = CharClass::White;
    lemma_run_len(rest, class);
    let n = run_len(rest, class) as int;
    let more = rest.take(n);
    let after = rest.skip(n);
    let word = body + more;
    assert forall|i: int| 0 <= i < word.len() implies !class.has(#[trigger] word[i]) by {
        if i < body.len() {
            assert(!is_white(body[i]));
        } else {
            assert(!class.has(rest[i - body.len()]));
        }
    }
    lemma_first_field(word, after, class);
    assert(body + rest =~= word + after);
    assert forall|i: int| 0 <= i < more.len() implies !is_white(#[trigger] more[i]) by {
        assert(!class.has(rest[i]));
    }
    more
}

/// A text is normal without the white space before it and the letters `v` before it, and ends
/// before its first white space.
proof fn lemma_normal_version(lead: Seq<char>, vs: Seq<char>, body: Seq<char>, rest: Seq<char>) -> (more:
    Seq<char>)
    requires
        all_white(lead),
        all_v(vs),
        body.len() > 0,
        body[0] != 'v',
        forall|i: int| 0 <= i < body.len() ==> !is_white(#[trigger] body[i]),
    ensures
        normal_version(lead + vs + body + rest) == body + more,
        more.len() <= rest.len(),
        more == rest.take(more.len() as int),
        more.len() < rest.len() ==> is_white(rest[more.len() as int]),
        forall|i: int| 0 <= i < more.len() ==> !is_white(#[trigger] more[i]),
{
    let white = CharClass::White;
    let raw = lead + vs + body + rest;
    let shown = vs + body + rest;
    assert(raw =~= lead + shown);
    assert(vs.len() > 0 ==> shown[0] == vs[0]);
    assert(vs.len() == 0 ==> shown[0] == body[0]);
    lemma_skipped(lead, shown, white);
    let kept = drop_class(rest, white);
    lemma_drop_is_start(rest, white);
    let front = vs + body;
    assert(shown =~= front + rest);
    lemma_drop_after(front, rest);
    assert(front.last() == body[body.len() - 1]);
    assert(drop_class(front, white) == front);
    assert(front + Seq::<char>::empty() =~= front);
    if kept.len() == 0 {
        assert(kept =~= Seq::<char>::empty());
    }
    assert(trimmed(raw) == front + kept);
    assert(front + kept =~= vs + (body + kept));
    assert((body + kept)[0] == body[0]);
    lemma_skipped(vs, body + kept, CharClass::Only('v'));
    let more = lemma_first_word(body, kept);
    assert(more =~= rest.take(more.len() as int));
    if more.len() < rest.len() {
        if more.len() < kept.len() {
            assert(kept[more.len() as int] == rest[more.len() as int]);
        } else {
            assert(white.has(rest[more.len() as int]));
        }
    }
    more
}

/// The text of one, two or three numbers with dots between them.
pub open spec fn numbers_text(numbers: Seq<nat>) -> Seq<char>
    decreases numbers.len(),
{
    if numbers.len() == 0 {
        Seq::empty()
    } else if numbers.len() == 1 {
        decimal(numbers[0])
    } else {
        decimal(numbers[0]) + seq!['.'] + numbers_text(numbers.drop_first())
    }
}

/// The decimal forms of numbers.
spec fn decimals(numbers: Seq<nat>) -> Seq<Seq<char>> {
    numbers.map_values(|n: nat| decimal(n))
}

/// Numbers with dots between them are made of digits and dots, begin with a digit, and are the
/// fields between the dots.
proof fn lemma_numbers_text(numbers: Seq<nat>, tail: Seq<char>)
    requires
        numbers.len() > 0,
        tail.len() > 0 ==> tail[0] == '.',
    ensures
        numbers_text(numbers).len() > 0,
        is_digit(numbers_text(numbers)[0]),
        forall|i: int|
            0 <= i < numbers_text(numbers).len() ==> !CharClass::NotVersion.has(
                #[trigger] numbers_text(numbers)[i],
            ),
        fields(numbers_text(numbers) + tail, CharClass::Only('.')) == decimals(numbers) + fields(
            tail,
            CharClass::Only('.'),
        ),
    decreases numbers.len(),
{
    let dot = CharClass::Only('.');
    let first = decimal(numbers[0]);
    lemma_decimal_value(numbers[0]);
    let text = numbers_text(numbers);
    assert forall|i: int| 0 <= i < first.len() implies !dot.has(#[trigger] first[i]) by {
        assert(is_digit(first[i]));
    }
    if numbers.len() == 1 {
        lemma_first_field(first, tail, dot);
        assert(decimals(numbers) =~= seq![first]);
    } else {
        let others = numbers.drop_first();
        lemma_numbers_text(others, tail);
        let rest = numbers_text(others) + tail;
        assert(text + tail =~= first + (seq!['.'] + rest));
        lemma_first_field(first, seq!['.'] + rest, dot);
        lemma_fields_after('.', rest, dot);
        assert(decimals(numbers) =~= seq![first] + decimals(others));
        assert(seq![first] + (decimals(others) + fields(tail, dot)) =~= decimals(numbers) + fields(
            tail,
            dot,
        ));
        assert forall|i: int| 0 <= i < text.len() implies !CharClass::NotVersion.has(
            #[trigger] text[i],
        ) by {
            if i < first.len() {
                assert(is_digit(first[i]));
            } else if i > first.len() {
                assert(text[i] == numbers_text(others)[i - first.len() - 1]);
            }
        }
        assert(text[0] == first[0]);
    }
    if numbers.len() == 1 {
        assert forall|i: int| 0 <= i < text.len() implies !CharClass::NotVersion.has(
            #[trigger] text[i],
        ) by {
            assert(is_digit(first[i]));
        }
    }
}

/// A number is written as a version has it, where it fits in 64 bits.
proof fn lemma_version_number(n: nat)
    requires
        n <= u64::MAX,
    ensures
        is_version_number(decimal(n)),
        decimal_value(decimal(n)) == n,
{
    lemma_decimal_value(n);
    lemma_decimal_start(n);
}

/// The numbers at the start of a version text are the ones that stand there, whatever follows them.
proof fn lemma_version_parts(
    lead: Seq<char>,
    vs: Seq<char>,
    numbers: Seq<nat>,
    rest: Seq<char>,
)
    requires
        all_white(lead),
        all_v(vs),
        numbers.len() > 0,
        rest.len() > 0 ==> !is_digit(rest[0]),
    ensures
        ({
            let parts = version_parts(lead + vs + numbers_text(numbers) + rest);
            &&& parts.len() >= numbers.len()
            &&& parts.take(numbers.len() as int) == decimals(numbers)
            &&& rest.len() > 0 && rest[0] == '.' || parts == decimals(numbers)
        }),
{
    let body = numbers_text(numbers);
    let none = Seq::<char>::empty();
    lemma_numbers_text(numbers, none);
    assert forall|i: int| 0 <= i < body.len() implies !is_white(#[trigger] body[i]) by {
        assert(!CharClass::NotVersion.has(body[i]));
    }
    let more = lemma_normal_version(lead, vs, body, rest);
    let class = CharClass::NotVersion;
    lemma_run_len(more, class);
    let n = run_len(more, class) as int;
    let tail = more.take(n);
    let after = more.skip(n);
    let base = body + tail;
    assert forall|i: int| 0 <= i < base.len() implies !class.has(#[trigger] base[i]) by {
        if i < body.len() {
            assert(!class.has(body[i]));
        } else {
            assert(!class.has(more[i - body.len()]));
        }
    }
    lemma_first_field(base, after, class);
    assert(body + more =~= base + after);
    if tail.len() > 0 {
        assert(tail[0] == rest[0]);
        assert(!class.has(more[0]));
    } else {
        assert(tail =~= none);
    }
    lemma_numbers_text(numbers, tail);
    let dot = CharClass::Only('.');
    let parts = decimals(numbers) + fields(tail, dot);
    assert(parts.take(numbers.len() as int) =~= decimals(numbers));
    if tail.len() == 0 {
        assert(fields(tail, dot) =~= Seq::<Seq<char>>::empty());
        assert(parts =~= decimals(numbers));
    }
}

/// A text that begins with three numbers is the version that they make, whatever white space and
/// letters `v` come before it and whatever follows that is not another digit.
pub proof fn law_three_numbers_are_a_version(
    lead: Seq<char>,
    vs: Seq<char>,
    major: u64,
    minor: u64,
    patch: u64,
    rest: Seq<char>,
    input: &str,
    r: Option<ReleaseVersion>,
)
    requires
        all_white(lead),
        all_v(vs),
        rest.len() > 0 ==> !is_digit(rest[0]),
        input@ == lead + vs + (decimal(major as nat) + seq!['.'] + (decimal(minor as nat) + seq!['.']
            + decimal(patch as nat))) + rest,
        call_ensures(to_semver, (input,), r),
    ensures
        r == Some(ReleaseVersion { major, minor, patch }),
{
    lemma_three_numbers(lead, vs, major, minor, patch, rest);
}

/// A text that begins with three numbers is the version that they make.
pub proof fn lemma_three_numbers(
    lead: Seq<char>,
    vs: Seq<char>,
    major: u64,
    minor: u64,
    patch: u64,
    rest: Seq<char>,
)
    requires
        all_white(lead),
        all_v(vs),
        rest.len() > 0 ==> !is_digit(rest[0]),
    ensures
        semver_of(
            lead + vs + (decimal(major as nat) + seq!['.'] + (decimal(minor as nat) + seq!['.']
                + decimal(patch as nat))) + rest,
        ) == Some(ReleaseVersion { major, minor, patch }),
{
    let numbers = seq![major as nat, minor as nat, patch as nat];
    let two = numbers.drop_first();
    let one = two.drop_first();
    assert(numbers_text(one) == decimal(patch as nat));
    assert(numbers_text(two) == decimal(minor as nat) + seq!['.'] + decimal(patch as nat));
    assert(numbers_text(numbers) == decimal(major as nat) + seq!['.'] + (decimal(minor as nat)
        + seq!['.'] + decimal(patch as nat)));
    lemma_version_parts(lead, vs, numbers, rest);
    let parts = version_parts(lead + vs + numbers_text(numbers) + rest);
    assert(parts.take(3)[0] == parts[0] && parts.take(3)[1] == parts[1] && parts.take(3)[2]
        == parts[2]);
    lemma_version_number(major as nat);
    lemma_version_number(minor as nat);
    lemma_version_number(patch as nat);
}

/// Numbers that a version leaves out are zero: one number stands for a major version, two for a
/// major and a minor one.
pub proof fn law_numbers_left_out_are_zero(
    lead: Seq<char>,
    vs: Seq<char>,
    major: u64,
    minor: Option<u64>,
    rest: Seq<char>,
    input: &str,
    r: Option<ReleaseVersion>,
)
    requires
        all_white(lead),
        all_v(vs),
        rest.len() > 0 ==> !is_digit(rest[0]) && rest[0] != '.',
        input@ == lead + vs + (match minor {
            Some(minor) => decimal(major as nat) + seq!['.'] + decimal(minor as nat),
            None => decimal(major as nat),
        }) + rest,
        call_ensures(to_semver, (input,), r),
    ensures
        r == Some(
            ReleaseVersion {
                major,
                minor: if minor is Some {
                    minor->0
                } else {
                    0
                },
                patch: 0,
            },
        ),
{
    reveal_strlit("0");
    lemma_version_number(major as nat);
    lemma_version_number(0);
    assert("0"@ =~= decimal(0));
    match minor {
        Some(minor) => {
            let numbers = seq![major as nat, minor as nat];
            assert(numbers_text(numbers.drop_first()) == decimal(minor as nat));
            assert(numbers_text(numbers) == decimal(major as nat) + seq!['.'] + decimal(
                minor as nat,
            ));
            lemma_version_parts(lead, vs, numbers, rest);
            lemma_version_number(minor as nat);
        },
        None => {
            let numbers = seq![major as nat];
            assert(numbers_text(numbers) == decimal(major as nat));
            lemma_version_parts(lead, vs, numbers, rest);
        },
    }
}

/// A text whose first word holds neither a digit nor a dot at its start is no version.
pub proof fn law_word_is_no_version(
    lead: Seq<char>,
    vs: Seq<char>,
    word: Seq<char>,
    rest: Seq<char>,
    input: &str,
    r: Option<ReleaseVersion>,
)
    requires
        all_white(lead),
        all_v(vs),
        word.len() > 0,
        word[0] != 'v',
        !is_digit(word[0]),
        word[0] != '.',
        forall|i: int| 0 <= i < word.len() ==> !is_white(#[trigger] word[i]),
        input@ == lead + vs + word + rest,
        call_ensures(to_semver, (input,), r),
    ensures
        r is None,
{
    let more = lemma_normal_version(lead, vs, word, rest);
    let normal = word + more;
    assert(normal[0] == word[0]);
    assert(run_len(normal, CharClass::NotVersion) == 0);
    assert(normal.take(0) =~= Seq::<char>::empty());
    assert(fields(normal.take(0), CharClass::Only('.')).len() == 0);
}

/// Two version texts compare by major number, then by minor number, then by patch number.
pub proof fn law_versions_compare_number_by_number(
    local: &str,
    latest: &str,
    a: ReleaseVersion,
    b: ReleaseVersion,
    r: Option<Ordering>,
)
    requires
        call_ensures(to_semver, (local,), Some(a)),
        call_ensures(to_semver, (latest,), Some(b)),
        call_ensures(compare_versions, (local, latest), r),
    ensures
        r == Some(
            if a.major != b.major {
                if a.major < b.major {
                    Ordering::Less
                } else {
                    Ordering::Greater
                }
            } else if a.minor != b.minor {
                if a.minor < b.minor {
                    Ordering::Less
                } else {
                    Ordering::Greater
                }
            } else if a.patch != b.patch {
                if a.patch < b.patch {
                    Ordering::Less
                } else {
                    Ordering::Greater
                }
            } else {
                Ordering::Equal
            },
        ),
{
}

/// A version text is normal without the white space and the letters `v` before it, and without what
/// follows the first white space after it.
pub proof fn law_normal_version_is_the_word(
    lead: Seq<char>,
    vs: Seq<char>,
    word: Seq<char>,
    rest: Seq<char>,
    raw: &str,
    r: String,
)
    requires
        all_white(lead),
        all_v(vs),
        word.len() > 0,
        word[0] != 'v',
        forall|i: int| 0 <= i < word.len() ==> !is_white(#[trigger] word[i]),
        rest.len() > 0 ==> is_white(rest[0]),
        raw@ == lead + vs + word + rest,
        call_ensures(normalize_version, (raw,), r),
    ensures
        r@ == word,
{
    let more = lemma_normal_version(lead, vs, word, rest);
    if more.len() > 0 {
        assert(more[0] == rest[0]);
    }
    assert(word + more =~= word);
}

/// The first line of a text that begins with a line without line feeds.
proof fn lemma_line_start(start: Seq<char>, rest: Seq<char>) -> (more: Seq<char>)
    requires
        start.len() > 0,
        forall|i: int| 0 <= i < start.len() ==> #[trigger] start[i] != '\n',
        start.last() != '\r',
    ensures
        lines(start + rest).len() > 0,
        lines(start + rest)[0] == start + more,
        more.len() <= rest.len(),
        more == rest.take(more.len() as int),
{
    let feed = CharClass::Only('\n');
    lemma_run_len(rest, feed);
    let n = run_len(rest, feed) as int;
    let before = rest.take(n);
    let line = start + before;
    assert(!line.contains('\n')) by {
        if line.contains('\n') {
            let k = line.index_of('\n');
            if k >= start.len() {
                assert(!feed.has(rest[k - start.len()]));
            }
        }
    }
    if n == rest.len() {
        lemma_first_line(line, Seq::empty());
        assert(start + rest =~= line);
        before
    } else {
        let after = rest.skip(n + 1);
        lemma_first_line(line, after);
        assert(start + rest =~= line + seq!['\n'] + after);
        let more = if before.len() > 0 && before.last() == '\r' {
            before.drop_last()
        } else {
            before
        };
        assert(without_return(line) =~= start + more);
        assert(more =~= rest.take(more.len() as int));
        more
    }
}

/// A program that prints its name, the word `version` and its version tells that version, up to a
/// dash or white space, whatever else it prints after it.
pub proof fn law_output_tells_the_version_after_the_word(
    name: Seq<char>,
    version: Seq<char>,
    rest: Seq<char>,
    stdout: &str,
    r: String,
)
    requires
        name.len() > 0,
        forall|i: int| 0 <= i < name.len() ==> !is_white(#[trigger] name[i]),
        name != "version"@,
        version.len() > 0,
        forall|i: int| 0 <= i < version.len() ==> !is_white(#[trigger] version[i]),
        forall|i: int| 0 <= i < version.len() ==> #[trigger] version[i] != '-',
        rest.len() > 0 ==> is_white(rest[0]) || rest[0] == '-',
        stdout@ == name + " version "@ + version + rest,
        call_ensures(version_from_output, (stdout,), r),
    ensures
        r@ == version,
{
    let white = CharClass::White;
    reveal_strlit(" version ");
    reveal_strlit("version");
    let mark = "version"@;
    let none = Seq::<char>::empty();
    let start = name + " version "@ + version;
    assert forall|i: int| 0 <= i < start.len() implies #[trigger] start[i] != '\n' by {
        if i < name.len() {
            assert(!is_white(name[i]));
        } else if i >= name.len() + 9 {
            assert(!is_white(version[i - name.len() - 9]));
        } else {
            assert(start[i] == " version "@[i - name.len()]);
        }
    }
    assert(start.last() == version[version.len() - 1]);
    let more = lemma_line_start(start, rest);
    let kept = drop_class(more, white);
    lemma_drop_is_start(more, white);
    lemma_drop_after(start, more);
    assert(drop_class(start, white) == start);
    if kept.len() == 0 {
        assert(kept =~= none);
        assert(start + kept =~= start);
    }
    let line = start + kept;
    assert((start + more)[0] == name[0]);
    assert(skip_class(start + more, white) == start + more);
    assert(trimmed(start + more) == line);
    let third = version + kept;
    let second = mark + (seq![' '] + third);
    assert(" version "@ =~= seq![' '] + mark + seq![' ']);
    assert(line =~= name + (seq![' '] + second));
    lemma_first_field(name, seq![' '] + second, white);
    lemma_fields_after(' ', second, white);
    assert forall|i: int| 0 <= i < mark.len() implies !white.has(#[trigger] mark[i]) by {}
    lemma_first_field(mark, seq![' '] + third, white);
    lemma_fields_after(' ', third, white);
    let list = words(line);
    assert(list =~= seq![name, mark] + words(third));
    let extra = lemma_first_word(version, kept);
    let word = version + extra;
    assert(list[2] == word);
    assert(list.drop_first()[0] == mark);
    assert(list.drop_first()[1] == word);
    reveal_with_fuel(word_after_version, 2);
    assert(word_after_version(list) == Some(word));
    let dash = CharClass::Only('-');
    if extra.len() > 0 {
        assert(extra[0] == kept[0]);
        assert(kept[0] == rest[0]);
    }
    lemma_first_field(version, extra, dash);
}

/// A program that prints nothing but its version in the first line tells that version.
pub proof fn law_output_tells_a_bare_version(
    version: Seq<char>,
    rest: Seq<char>,
    stdout: &str,
    r: String,
)
    requires
        version.len() > 0,
        forall|i: int| 0 <= i < version.len() ==> !is_white(#[trigger] version[i]),
        rest.len() > 0 ==> rest[0] == '\n' || rest[0] == '\r' && rest.len() > 1 && rest[1] == '\n',
        stdout@ == version + rest,
        call_ensures(version_from_output, (stdout,), r),
    ensures
        r@ == version,
{
    let white = CharClass::White;
    let none = Seq::<char>::empty();
    assert(!version.contains('\n')) by {
        if version.contains('\n') {
            let k = version.index_of('\n');
            assert(is_white(version[k]));
        }
    }
    assert(!is_white(version[version.len() - 1]));
    if rest.len() == 0 {
        lemma_first_line(version, none);
        assert(version + rest =~= version);
    } else if rest[0] == '\n' {
        lemma_first_line(version, rest.skip(1));
        assert(version + rest =~= version + seq!['\n'] + rest.skip(1));
    } else {
        let line = version.push('\r');
        assert(!line.contains('\n')) by {
            if line.contains('\n') {
                let k = line.index_of('\n');
                assert(version[k] == '\n');
            }
        }
        lemma_first_line(line, rest.skip(2));
        assert(version + rest =~= line + seq!['\n'] + rest.skip(2));
        assert(line.drop_last() =~= version);
    }
    assert(lines(stdout@)[0] == version);
    lemma_trimmed_is(none, version, none);
    assert(none + version + none =~= version);
    lemma_first_field(version, none, white);
    assert(version + none =~= version);
    assert(fields(none, white).len() == 0);
    assert(words(version).len() == 1);
}

} // verus!
