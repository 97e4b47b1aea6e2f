//! What yt-dlp prints: lines of bytes, the text that they are, and the errors in it.
use crate::text::{
    all_white, cat, drop_class, find, find_from, lemma_drop_after, lemma_found_iff_part,
    lemma_trimmed_dropped, lemma_trimmed_holds, lemma_trimmed_idempotent, lemma_trimmed_is,
    lemma_trimmed_parts_of, occurs_at, opt_text, skip_class, starts,
    strip_prefix, trim, trimmed, CharClass,
};
use encoding_rs::WINDOWS_1251;
use vstd::prelude::*;

verus! {

/// What lines of the standard error stream are shown with.
pub const STDERR_PREFIX: &'static str = "stderr | ";

/// What the bytes are as a text in the encoding Windows-1251.
pub uninterp spec fn windows_1251(bytes: Seq<u8>) -> Seq<char>;

/// `std::str::from_utf8`: bytes that are valid UTF-8 are the text that they encode, and no other
/// bytes are a text.
#[verifier::external_body]
fn utf8_text(bytes: &Vec<u8>) -> (r: Option<String>)
    ensures
        match r {
            Some(text) => vstd::utf8::valid_utf8(bytes@) && text@ == vstd::utf8::decode_utf8(
                bytes@,
            ),
            None => !vstd::utf8::valid_utf8(bytes@),
        },
{
    match std::str::from_utf8(bytes.as_slice()) {
        Ok(text) => Some(text.to_owned()),
        Err(_) => None,
    }
}

/// Whether a line is short enough for the space that its text takes to be counted: up to three bytes
/// for each of its own, or twice the space of a first guess, which is at most twice the line.
pub open spec fn fits_decoder(bytes: Seq<u8>) -> bool {
    4 * bytes.len() + 64 <= isize::MAX
}

/// `encoding_rs::WINDOWS_1251` and its `decode`: the text is a function of the bytes. A byte order
/// mark at their start changes the encoding that they are read in. The size of the text must be
/// countable, which it is for a line that is short enough.
#[verifier::external_body]
fn windows_1251_text(bytes: &Vec<u8>) -> (r: String)
    requires
        fits_decoder(bytes@),
    ensures
        r@ == windows_1251(bytes@),
{
    WINDOWS_1251.decode(bytes.as_slice()).0.into_owned()
}

/// Whether a line is short enough for the space that its text takes to be counted.
pub fn can_decode(bytes: &Vec<u8>) -> (r: bool)
    ensures
        r == fits_decoder(bytes@),
{
    (bytes.len() as u128) * 4 + 64 <= isize::MAX as u128
}

/// The text of a line: UTF-8 where it is that, and Windows-1251 where it is not.
pub open spec fn decoded_line(bytes: Seq<u8>) -> Seq<char> {
    if vstd::utf8::valid_utf8(bytes) {
        vstd::utf8::decode_utf8(bytes)
    } else {
        windows_1251(bytes)
    }
}

/// The text of a line: UTF-8 where it is that, and Windows-1251 where it is not.
pub fn decode_process_line(bytes: &Vec<u8>) -> (r: String)
    requires
        fits_decoder(bytes@),
    ensures
        r@ == decoded_line(bytes@),
{
    match utf8_text(bytes) {
        Some(text) => text,
        None => windows_1251_text(bytes),
    }
}

/// The error in a line that yt-dlp printed: what follows the first `ERROR:`.
pub open spec fn line_error(line: Seq<char>) -> Option<Seq<char>> {
    let shown = trimmed(line);
    let clean = trimmed(
        if starts(shown, STDERR_PREFIX@) {
            shown.skip(STDERR_PREFIX@.len() as int)
        } else {
            shown
        },
    );
    match find_from(clean, "ERROR:"@, 0) {
        Some(at) => {
            let message = trimmed(clean.skip(at + "ERROR:"@.len()));
            if message.len() == 0 {
                None
            } else {
                Some(message)
            }
        },
        None => None,
    }
}

/// The error in a line that yt-dlp printed: what follows the first `ERROR:`.
pub fn extract_yt_dlp_error_line(line: &str) -> (r: Option<String>)
    ensures
        opt_text(r) == line_error(line@),
{
    let shown = trim(line);
    let clean = trim(
        match strip_prefix(shown, STDERR_PREFIX) {
            Some(rest) => rest,
            None => shown,
        },
    );
    match find(clean, "ERROR:") {
        Some(at) => {
            proof {
                reveal_strlit("ERROR:");
                lemma_found_iff_part(clean@, "ERROR:"@);
            }
            let n: usize = clean.unicode_len();
            assert(at + 6 <= n);
            let rest = clean.substring_char(at + 6, n);
            assert(rest@ =~= clean@.skip(at + 6));
            let message = trim(rest);
            if message.is_empty() {
                None
            } else {
                Some(message.to_owned())
            }
        },
        None => None,
    }
}

/// A line without the line feeds and carriage returns at its end.
pub open spec fn line_body(bytes: Seq<u8>) -> Seq<u8>
    decreases bytes.len(),
{
    if bytes.len() > 0 && (bytes.last() == 10 || bytes.last() == 13) {
        line_body(bytes.drop_last())
    } else {
        bytes
    }
}

/// A line as it is shown, and the error in it.
pub struct OutputLine {
    pub text: String,
    pub error: Option<String>,
}

/// A line that was read from a stream, with its line end: as it is shown after `prefix`, and the
/// error in it.
pub fn read_line(bytes: Vec<u8>, prefix: &str) -> (r: OutputLine)
    requires
        fits_decoder(bytes@),
    ensures
        r.text@ == prefix@ + decoded_line(line_body(bytes@)),
        opt_text(r.error) == line_error(r.text@),
{
    let mut body = bytes;
    while body.len() > 0 && (body[body.len() - 1] == 10 || body[body.len() - 1] == 13)
        invariant
            line_body(body@) == line_body(bytes@),
            fits_decoder(body@),
        decreases body.len(),
    {
        let ghost before = body@;
        body.pop();
        assert(body@ =~= before.drop_last());
    }
    let line = decode_process_line(&body);
    let text = cat(prefix, line.as_str());
    let error = extract_yt_dlp_error_line(text.as_str());
    OutputLine { text, error }
}

/// What is shown when a stream could not be read.
pub fn read_failure(err: &str) -> (r: String)
    ensures
        r@ == "❌ Ошибка чтения вывода процесса: "@ + err@,
{
    cat("❌ Ошибка чтения вывода процесса: ", err)
}

/// The last error that a stream told of.
pub struct ErrorSink {
    pub latest: Option<String>,
}

impl ErrorSink {
    /// No error so far.
    pub fn new() -> (r: Self)
        ensures
            r.latest is None,
    {
        ErrorSink { latest: None }
    }

    /// Takes note of a line: its error, where it has one, is now the last.
    pub fn note(&mut self, error: Option<String>)
        ensures
            final(self).latest == if error is Some {
                error
            } else {
                old(self).latest
            },
    {
        if error.is_some() {
            self.latest = error;
        }
    }
}

/// White space that is skipped at the start of a text stands before the rest of it.
proof fn lemma_skip_white(s: Seq<char>)
    ensures
        ({
            let rest = skip_class(s, CharClass::White);
            let n = s.len() - rest.len();
            &&& 0 <= n
            &&& rest == s.skip(n)
            &&& forall|i: int| 0 <= i < n ==> CharClass::White.has(#[trigger] s[i])
        }),
    decreases s.len(),
{
    if s.len() > 0 && CharClass::White.has(s[0]) {
        let tail = s.drop_first();
        lemma_skip_white(tail);
        let n = s.len() - skip_class(s, CharClass::White).len();
        assert(tail.skip(n - 1) =~= s.skip(n));
        assert forall|i: int| 0 <= i < n implies CharClass::White.has(#[trigger] s[i]) by {
            if i > 0 {
                assert(tail[i - 1] == s[i]);
            }
        }
    } else {
        assert(s.skip(0) =~= s);
    }
}

/// What stands before a text makes no difference to the first `ERROR:` in it, as long as it holds
/// no `E`.
proof fn lemma_error_after(p: Seq<char>, s: Seq<char>)
    requires
        forall|i: int| 0 <= i < p.len() ==> #[trigger] p[i] != 'E',
    ensures
        find_from(p + s, "ERROR:"@, 0) is Some <==> find_from(s, "ERROR:"@, 0) is Some,
        find_from(s, "ERROR:"@, 0) is Some ==> (p + s).skip(
            find_from(p + s, "ERROR:"@, 0)->0 + "ERROR:"@.len(),
        ) == s.skip(find_from(s, "ERROR:"@, 0)->0 + "ERROR:"@.len()),
{
    let whole = p + s;
    let mark = "ERROR:"@;
    reveal_strlit("ERROR:");
    lemma_found_iff_part(whole, mark);
    lemma_found_iff_part(s, mark);
    assert forall|at: int| occurs_at(whole, mark, at) implies at >= p.len() && occurs_at(
        s,
        mark,
        at - p.len(),
    ) by {
        assert(whole.subrange(at, at + 6)[0] == whole[at]);
        if at < p.len() {
            assert(p[at] == 'E');
        }
        assert(s.subrange(at - p.len(), at - p.len() + 6) =~= whole.subrange(at, at + 6));
    }
    assert forall|at: int| occurs_at(s, mark, at) implies occurs_at(whole, mark, at + p.len()) by {
        assert(whole.subrange(at + p.len(), at + p.len() + 6) =~= s.subrange(at, at + 6));
    }
    if find_from(s, mark, 0) is Some {
        let at = find_from(s, mark, 0)->0;
        assert(occurs_at(whole, mark, at + p.len()));
        let found = find_from(whole, mark, 0)->0;
        assert(occurs_at(s, mark, found - p.len()));
        assert(found == at + p.len());
        assert(whole.skip(found + 6) =~= s.skip(at + 6));
    }
    if find_from(whole, mark, 0) is Some {
        assert(occurs_at(s, mark, find_from(whole, mark, 0)->0 - p.len()));
    }
}

/// A line tells of the same error whether or not it is shown with the prefix of the error stream.
pub proof fn law_prefix_hides_no_error(line: Seq<char>)
    ensures
        line_error(STDERR_PREFIX@ + line) == line_error(line),
{
    let prefix = STDERR_PREFIX@;
    let whole = prefix + line;
    let body = drop_class(line, CharClass::White);
    reveal_strlit("stderr | ");
    reveal_strlit("ERROR:");
    assert(whole[0] == 's');
    assert(skip_class(whole, CharClass::White) == whole);
    lemma_drop_after(prefix, line);
    lemma_trimmed_dropped(line);
    lemma_trimmed_idempotent(line);
    if body.len() > 0 {
        let shown = prefix + body;
        assert(trimmed(whole) == shown);
        assert(shown.subrange(0, prefix.len() as int) =~= prefix);
        assert(shown.skip(prefix.len() as int) =~= body);
        let clean = trimmed(line);
        assert(trimmed(body) == clean);
        if starts(clean, prefix) {
            let rest = clean.skip(prefix.len() as int);
            let tail = skip_class(rest, CharClass::White);
            lemma_skip_white(rest);
            let blank = rest.take(rest.len() - tail.len());
            assert(clean =~= (prefix + blank) + tail);
            assert forall|i: int| 0 <= i < (prefix + blank).len() implies #[trigger] (prefix
                + blank)[i] != 'E' by {
                if i >= prefix.len() {
                    assert(CharClass::White.has(rest[i - prefix.len()]));
                }
            }
            lemma_error_after(prefix + blank, tail);
            lemma_trimmed_holds(line);
            assert(prefix.last() == ' ');
            assert(clean.subrange(0, prefix.len() as int).last() == clean[prefix.len() - 1]);
            assert(rest.last() == clean.last());
            assert(tail.last() == rest.last());
            assert(drop_class(tail, CharClass::White) == tail);
        }
    } else {
        assert(skip_class(body, CharClass::White) == body);
        assert(trimmed(line) == body);
        let shown = drop_class(prefix, CharClass::White);
        assert(prefix.drop_last().last() == '|');
        assert(drop_class(prefix.drop_last(), CharClass::White) == prefix.drop_last());
        assert(prefix.last() == ' ');
        assert(shown == prefix.drop_last());
        assert(trimmed(whole) == shown);
        assert(skip_class(shown, CharClass::White) == shown);
        assert(trimmed(shown) == shown);
        lemma_found_iff_part(shown, "ERROR:"@);
        lemma_found_iff_part(body, "ERROR:"@);
        assert forall|at: int| !occurs_at(shown, "ERROR:"@, at) by {
            if occurs_at(shown, "ERROR:"@, at) {
                assert(shown.subrange(at, at + 6)[0] == shown[at]);
                assert(shown[at] == 'E');
            }
        }
    }
}

/// White space after a text makes no difference to the first `ERROR:` in it, nor to what the text is
/// without the white space round it.
proof fn lemma_error_before_white(s: Seq<char>, w: Seq<char>)
    requires
        all_white(w),
    ensures
        find_from(s + w, "ERROR:"@, 0) == find_from(s, "ERROR:"@, 0),
        trimmed(s + w) == trimmed(s),
{
    let whole = s + w;
    let mark = "ERROR:"@;
    reveal_strlit("ERROR:");
    lemma_found_iff_part(whole, mark);
    lemma_found_iff_part(s, mark);
    assert forall|at: int| occurs_at(whole, mark, at) implies occurs_at(s, mark, at) by {
        assert(whole.subrange(at, at + 6)[5] == whole[at + 5]);
        if at + 6 > s.len() {
            assert(whole.subrange(at, at + 6)[0] == whole[at]);
            let k = if at >= s.len() {
                at
            } else {
                at + 5
            };
            assert(whole[k] == w[k - s.len()]);
        }
        assert(s.subrange(at, at + 6) =~= whole.subrange(at, at + 6));
    }
    assert forall|at: int| occurs_at(s, mark, at) implies occurs_at(whole, mark, at) by {
        assert(s.subrange(at, at + 6) =~= whole.subrange(at, at + 6));
    }
    lemma_trimmed_parts_of(s);
    let t = trimmed(s);
    let (lead, tail) = choose|lead: Seq<char>, tail: Seq<char>|
        all_white(lead) && all_white(tail) && s == #[trigger] (lead + t + tail);
    assert(whole =~= lead + t + (tail + w));
    lemma_trimmed_is(lead, t, tail + w);
}

/// What is left of a line in which an error is looked for, and what stands round it.
proof fn lemma_clean_line(line: Seq<char>) -> (r: (Seq<char>, Seq<char>, Seq<char>))
    ensures
        line == r.0 + (r.1 + r.2),
        forall|i: int| 0 <= i < r.0.len() ==> #[trigger] r.0[i] != 'E',
        all_white(r.2),
        r.1 == trimmed(
            if starts(trimmed(line), STDERR_PREFIX@) {
                trimmed(line).skip(STDERR_PREFIX@.len() as int)
            } else {
                trimmed(line)
            },
        ),
{
    let prefix = STDERR_PREFIX@;
    reveal_strlit("stderr | ");
    let shown = trimmed(line);
    lemma_trimmed_parts_of(line);
    let (lead, tail) = choose|lead: Seq<char>, tail: Seq<char>|
        all_white(lead) && all_white(tail) && line == #[trigger] (lead + shown + tail);
    let (before, core) = if starts(shown, prefix) {
        (lead + prefix, shown.skip(prefix.len() as int))
    } else {
        (lead, shown)
    };
    assert(lead + shown =~= before + core);
    let clean = trimmed(core);
    lemma_trimmed_parts_of(core);
    let (lead2, tail2) = choose|lead: Seq<char>, tail: Seq<char>|
        all_white(lead) && all_white(tail) && core == #[trigger] (lead + clean + tail);
    let p = before + lead2;
    let w = tail2 + tail;
    assert(line =~= p + (clean + w));
    assert forall|i: int| 0 <= i < p.len() implies #[trigger] p[i] != 'E' by {
        if i < lead.len() {
            assert(p[i] == lead[i]);
        } else if i >= before.len() {
            assert(p[i] == lead2[i - before.len()]);
        }
    }
    (p, clean, w)
}

/// The error in a line is what follows the first `ERROR:` in it, without the white space round it,
/// whatever stands before; a line in which nothing follows it tells of no error.
pub proof fn law_error_follows_the_mark(
    line: &str,
    before: Seq<char>,
    after: &str,
    message: &str,
    r: Option<String>,
)
    requires
        line@ == before + "ERROR:"@ + after@,
        forall|at: int| 0 <= at < before.len() ==> !#[trigger] occurs_at(line@, "ERROR:"@, at),
        call_ensures(trim, (after,), message),
        call_ensures(extract_yt_dlp_error_line, (line,), r),
    ensures
        message@.len() == 0 ==> r is None,
        message@.len() > 0 ==> (r matches Some(error) && error@ == message@),
{
    let mark = "ERROR:"@;
    reveal_strlit("ERROR:");
    let (p, clean, w) = lemma_clean_line(line@);
    lemma_error_after(p, clean + w);
    lemma_error_before_white(clean, w);
    lemma_found_iff_part(line@, mark);
    lemma_found_iff_part(clean, mark);
    let at = before.len() as int;
    assert(line@.subrange(at, at + 6) =~= mark);
    assert(occurs_at(line@, mark, at));
    assert(find_from(line@, mark, 0) == Some(at));
    assert(line@.skip(at + 6) =~= after@);
    let found = find_from(clean, mark, 0)->0;
    let rest = clean.skip(found + 6);
    assert((clean + w).skip(found + 6) =~= rest + w);
    lemma_error_before_white(rest, w);
}

/// A line without `ERROR:` tells of no error.
pub proof fn law_no_mark_is_no_error(line: &str, r: Option<String>)
    requires
        forall|at: int| !#[trigger] occurs_at(line@, "ERROR:"@, at),
        call_ensures(extract_yt_dlp_error_line, (line,), r),
    ensures
        r is None,
{
    let (p, clean, w) = lemma_clean_line(line@);
    lemma_error_after(p, clean + w);
    lemma_error_before_white(clean, w);
    lemma_found_iff_part(line@, "ERROR:"@);
}

/// Whether bytes are line feeds and carriage returns alone.
pub open spec fn all_line_ends(bytes: Seq<u8>) -> bool {
    forall|i: int| 0 <= i < bytes.len() ==> (#[trigger] bytes[i]) == 10 || bytes[i] == 13
}

/// A line is what is left without the line feeds and carriage returns at its end.
proof fn lemma_line_body(body: Seq<u8>, ends: Seq<u8>)
    requires
        all_line_ends(ends),
        body.len() > 0 ==> body.last() != 10 && body.last() != 13,
    ensures
        line_body(body + ends) == body,
    decreases ends.len(),
{
    if ends.len() > 0 {
        let rest = ends.drop_last();
        assert((body + ends).drop_last() =~= body + rest);
        assert((body + ends).last() == ends.last());
        lemma_line_body(body, rest);
    } else {
        assert(body + ends =~= body);
    }
}

/// A line that was read is shown after its prefix without the line feeds and carriage returns at its
/// end, and no other byte of it is lost; its error is that of what is shown.
pub proof fn law_line_is_shown(
    body: Vec<u8>,
    ends: Seq<u8>,
    bytes: Vec<u8>,
    prefix: &str,
    text: String,
    shown: &str,
    error: Option<String>,
    r: OutputLine,
)
    requires
        bytes@ == body@ + ends,
        all_line_ends(ends),
        body@.len() > 0 ==> body@.last() != 10 && body@.last() != 13,
        fits_decoder(bytes@),
        call_ensures(decode_process_line, (&body,), text),
        call_ensures(read_line, (bytes, prefix), r),
        shown@ == r.text@,
        call_ensures(extract_yt_dlp_error_line, (shown,), error),
    ensures
        r.text@ == prefix@ + text@,
        opt_text(r.error) == opt_text(error),
{
    lemma_line_body(body@, ends);
}

/// Bytes that are valid UTF-8 are read as that, and all others as Windows-1251.
pub proof fn law_lines_are_decoded(bytes: Vec<u8>, r: String)
    requires
        fits_decoder(bytes@),
        call_ensures(decode_process_line, (&bytes,), r),
    ensures
        vstd::utf8::valid_utf8(bytes@) ==> r@ == vstd::utf8::decode_utf8(bytes@),
        !vstd::utf8::valid_utf8(bytes@) ==> r@ == windows_1251(bytes@),
{
}

/// A stream remembers the last error that it told of: a line with an error replaces it, and one without
/// leaves it.
pub proof fn law_last_error_is_remembered(sink: &mut ErrorSink, error: Option<String>)
    requires
        call_ensures(ErrorSink::note, (sink, error), ()),
    ensures
        error matches Some(text) ==> (final(sink).latest matches Some(last) && last@ == text@),
        error is None ==> final(sink).latest == old(sink).latest,
{
}

} // verus!
