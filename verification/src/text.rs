//! Text as sequences of characters: trimming, splitting, searching, ASCII case and decimal numbers.
use vstd::prelude::*;

verus! {

/// `String::push` appends the given character at the end of the string.
pub assume_specification[ String::push ](s: &mut String, c: char)
    ensures
        final(s)@ == old(s)@.push(c),
;

/// The characters with the Unicode property `White_Space`.
pub open spec fn is_white(c: char) -> bool {
    ||| '\t' <= c <= '\r'
    ||| c == ' '
    ||| c == '\u{85}'
    ||| c == '\u{a0}'
    ||| c == '\u{1680}'
    ||| '\u{2000}' <= c <= '\u{200a}'
    ||| c == '\u{2028}'
    ||| c == '\u{2029}'
    ||| c == '\u{202f}'
    ||| c == '\u{205f}'
    ||| c == '\u{3000}'
}

/// A set of characters that text is trimmed of or split at.
#[derive(Clone, Copy)]
pub enum CharClass {
    /// White space.
    White,
    /// White space, and the star that marks binary files in checksum lists.
    WhiteOrStar,
    /// One character.
    Only(char),
    /// The two path separators.
    Separator,
    /// Everything but ASCII digits and dots.
    NotVersion,
}

impl CharClass {
    /// Whether the class has `c`.
    pub open spec fn has(self, c: char) -> bool {
        match self {
            CharClass::White => is_white(c),
            CharClass::WhiteOrStar => is_white(c) || c == '*',
            CharClass::Only(only) => c == only,
            CharClass::Separator => c == '/' || c == '\\',
            CharClass::NotVersion => !(is_digit(c) || c == '.'),
        }
    }

    /// Tells whether the class has `c`.
    pub fn contains(self, c: char) -> (r: bool)
        ensures
            r == self.has(c),
    {
        match self {
            CharClass::White => is_whitespace(c),
            CharClass::WhiteOrStar => is_whitespace(c) || c == '*',
            CharClass::Only(only) => c == only,
            CharClass::Separator => c == '/' || c == '\\',
            CharClass::NotVersion => !(('0' <= c && c <= '9') || c == '.'),
        }
    }
}

/// The ASCII digits.
pub open spec fn is_digit(c: char) -> bool {
    '0' <= c <= '9'
}

/// The ASCII hexadecimal digits, in either case.
pub open spec fn is_hex(c: char) -> bool {
    is_digit(c) || 'a' <= c <= 'f' || 'A' <= c <= 'F'
}

/// Whether every character of `s` is a hexadecimal digit.
pub open spec fn all_hex(s: Seq<char>) -> bool {
    forall|i: int| 0 <= i < s.len() ==> is_hex(#[trigger] s[i])
}

/// `c` in lower case, where it is an ASCII letter.
pub open spec fn lower_char(c: char) -> char {
    if 'A' <= c <= 'Z' {
        (c as u32 + 32) as char
    } else {
        c
    }
}

/// `s` with its ASCII letters in lower case.
pub open spec fn lower(s: Seq<char>) -> Seq<char> {
    Seq::new(s.len(), |i: int| lower_char(s[i]))
}

/// `s` without the characters of `class` at its start.
pub open spec fn skip_class(s: Seq<char>, class: CharClass) -> Seq<char>
    decreases s.len(),
{
    if s.len() > 0 && class.has(s[0]) {
        skip_class(s.drop_first(), class)
    } else {
        s
    }
}

/// `s` without the characters of `class` at its end.
pub open spec fn drop_class(s: Seq<char>, class: CharClass) -> Seq<char>
    decreases s.len(),
{
    if s.len() > 0 && class.has(s.last()) {
        drop_class(s.drop_last(), class)
    } else {
        s
    }
}

/// `s` without white space at either end.
pub open spec fn trimmed(s: Seq<char>) -> Seq<char> {
    drop_class(skip_class(s, CharClass::White), CharClass::White)
}

/// `s` without the repeated `prefix` at its start.
pub open spec fn skip_prefix(s: Seq<char>, prefix: Seq<char>) -> Seq<char>
    decreases s.len(),
{
    if prefix.len() > 0 && starts(s, prefix) {
        skip_prefix(s.skip(prefix.len() as int), prefix)
    } else {
        s
    }
}

/// How many characters of `s` come before the first one of `class`.
pub open spec fn run_len(s: Seq<char>, class: CharClass) -> nat
    decreases s.len(),
{
    if s.len() > 0 && !class.has(s[0]) {
        1 + run_len(s.drop_first(), class)
    } else {
        0
    }
}

/// The part of `s` before the first character of `class`.
pub open spec fn before_first(s: Seq<char>, class: CharClass) -> Seq<char> {
    s.take(run_len(s, class) as int)
}

/// The part of `s` after the last character of `class`.
pub open spec fn after_last(s: Seq<char>, class: CharClass) -> Seq<char>
    decreases s.len(),
{
    if s.len() > 0 && !class.has(s.last()) {
        after_last(s.drop_last(), class).push(s.last())
    } else {
        Seq::empty()
    }
}

/// The maximal non-empty runs of `s` that hold no character of `class`, in order.
pub open spec fn fields(s: Seq<char>, class: CharClass) -> Seq<Seq<char>>
    decreases s.len(),
{
    if s.len() == 0 {
        Seq::empty()
    } else if class.has(s[0]) {
        fields(s.drop_first(), class)
    } else {
        proof {
            lemma_run_len(s, class);
        }
        let n = run_len(s, class) as int;
        seq![s.take(n)] + fields(s.skip(n), class)
    }
}

/// The words of `s`, which white space sets apart.
pub open spec fn words(s: Seq<char>) -> Seq<Seq<char>> {
    fields(s, CharClass::White)
}

/// `s` without one carriage return at its end.
pub open spec fn without_return(s: Seq<char>) -> Seq<char> {
    if s.len() > 0 && s.last() == '\r' {
        s.drop_last()
    } else {
        s
    }
}

/// The lines of `s`. A line feed ends a line, together with a carriage return before it.
pub open spec fn lines(s: Seq<char>) -> Seq<Seq<char>>
    decreases s.len(),
{
    if s.len() == 0 {
        Seq::empty()
    } else {
        proof {
            lemma_run_len(s, CharClass::Only('\n'));
        }
        let n = run_len(s, CharClass::Only('\n')) as int;
        if n == s.len() {
            seq![s]
        } else {
            seq![without_return(s.take(n))] + lines(s.skip(n + 1))
        }
    }
}

/// Whether `part` stands in `s` at position `at`.
pub open spec fn occurs_at(s: Seq<char>, part: Seq<char>, at: int) -> bool {
    0 <= at && at + part.len() <= s.len() && s.subrange(at, at + part.len() as int) == part
}

/// Whether `part` stands somewhere in `s`.
pub open spec fn has_part(s: Seq<char>, part: Seq<char>) -> bool {
    exists|at: int| occurs_at(s, part, at)
}

/// Whether `s` begins with `prefix`.
pub open spec fn starts(s: Seq<char>, prefix: Seq<char>) -> bool {
    occurs_at(s, prefix, 0)
}

/// Whether `s` ends with `suffix`.
pub open spec fn ends(s: Seq<char>, suffix: Seq<char>) -> bool {
    occurs_at(s, suffix, s.len() - suffix.len())
}

/// The first position, from `from` on, at which `part` stands in `s`.
pub open spec fn find_from(s: Seq<char>, part: Seq<char>, from: int) -> Option<int>
    decreases s.len() + 1 - from,
{
    if from < 0 || from + part.len() > s.len() {
        None
    } else if occurs_at(s, part, from) {
        Some(from)
    } else {
        find_from(s, part, from + 1)
    }
}

/// The parts of `list`, in order, with `sep` between each two of them.
pub open spec fn joined(list: Seq<Seq<char>>, sep: Seq<char>) -> Seq<char>
    decreases list.len(),
{
    if list.len() == 0 {
        Seq::empty()
    } else if list.len() == 1 {
        list[0]
    } else {
        joined(list.drop_last(), sep) + sep + list.last()
    }
}

/// The trimmed parts of `list` that are not empty, in order.
pub open spec fn trimmed_parts(list: Seq<Seq<char>>) -> Seq<Seq<char>>
    decreases list.len(),
{
    if list.len() == 0 {
        Seq::empty()
    } else {
        let kept = trimmed_parts(list.drop_last());
        let part = trimmed(list.last());
        if part.len() == 0 {
            kept
        } else {
            kept.push(part)
        }
    }
}

/// The decimal digit for a number below ten.
pub open spec fn digit_char(d: nat) -> char {
    (48 + d) as char
}

/// The decimal digits of `n`.
pub open spec fn decimal(n: nat) -> Seq<char>
    decreases n,
{
    if n < 10 {
        seq![digit_char(n)]
    } else {
        decimal(n / 10).push(digit_char(n % 10))
    }
}

/// The decimal form of a signed number.
pub open spec fn signed_decimal(n: int) -> Seq<char> {
    if n < 0 {
        seq!['-'] + decimal((-n) as nat)
    } else {
        decimal(n as nat)
    }
}

/// The number that the decimal digits of `s` stand for.
pub open spec fn decimal_value(s: Seq<char>) -> nat
    decreases s.len(),
{
    if s.len() == 0 {
        0
    } else {
        10 * decimal_value(s.drop_last()) + (s.last() as u32 - 48) as nat
    }
}

/// What the strings of `list` hold.
pub open spec fn texts(list: Seq<String>) -> Seq<Seq<char>> {
    list.map_values(|s: String| s@)
}

/// What the string slices of `list` hold.
pub open spec fn slices(list: Seq<&str>) -> Seq<Seq<char>> {
    list.map_values(|s: &str| s@)
}

/// What an optional string holds.
pub open spec fn opt_text(s: Option<String>) -> Option<Seq<char>> {
    match s {
        Some(text) => Some(text@),
        None => None,
    }
}

/// What an optional string slice holds.
pub open spec fn opt_slice(s: Option<&str>) -> Option<Seq<char>> {
    match s {
        Some(text) => Some(text@),
        None => None,
    }
}

/// The run before the first character of a class ends where such a character stands.
pub proof fn lemma_run_len(s: Seq<char>, class: CharClass)
    ensures
        run_len(s, class) <= s.len(),
        s.len() > 0 && !class.has(s[0]) ==> run_len(s, class) > 0,
        run_len(s, class) < s.len() ==> class.has(s[run_len(s, class) as int]),
        forall|i: int| 0 <= i < run_len(s, class) ==> !class.has(#[trigger] s[i]),
    decreases s.len(),
{
    if s.len() > 0 && !class.has(s[0]) {
        let rest = s.drop_first();
        lemma_run_len(rest, class);
        assert forall|i: int| 0 <= i < run_len(s, class) implies !class.has(#[trigger] s[i]) by {
            if i > 0 {
                assert(rest[i - 1] == s[i]);
            }
        }
        if run_len(s, class) < s.len() {
            assert(rest[run_len(rest, class) as int] == s[run_len(s, class) as int]);
        }
    }
}

/// Whether `c` is white space.
pub fn is_whitespace(c: char) -> (r: bool)
    ensures
        r == is_white(c),
{
    ('\t' <= c && c <= '\r') || c == ' ' || c == '\u{85}' || c == '\u{a0}' || c == '\u{1680}' || (
    '\u{2000}' <= c && c <= '\u{200a}') || c == '\u{2028}' || c == '\u{2029}' || c == '\u{202f}'
        || c == '\u{205f}' || c == '\u{3000}'
}

/// Whether `c` is an ASCII hexadecimal digit.
pub fn is_hex_digit(c: char) -> (r: bool)
    ensures
        r == is_hex(c),
{
    ('0' <= c && c <= '9') || ('a' <= c && c <= 'f') || ('A' <= c && c <= 'F')
}

/// The characters of `s`.
pub fn chars_of(s: &str) -> (v: Vec<char>)
    ensures
        v@ == s@,
{
    let mut v: Vec<char> = Vec::new();
    for c in it: s.chars()
        invariant
            v@ == s@.take(it.index() as int),
            it.seq() == s@,
    {
        v.push(c);
        assert(s@.take(it.index() + 1) =~= s@.take(it.index() as int).push(c));
    }
    assert(s@.take(s@.len() as int) =~= s@);
    v
}

/// Whether every character of `s` is a hexadecimal digit.
pub fn is_all_hex(s: &str) -> (r: bool)
    ensures
        r == all_hex(s@),
{
    let cs = chars_of(s);
    let mut i: usize = 0;
    while i < cs.len()
        invariant
            cs@ == s@,
            i <= cs.len(),
            forall|j: int| 0 <= j < i ==> is_hex(#[trigger] s@[j]),
        decreases cs.len() - i,
    {
        if !is_hex_digit(cs[i]) {
            assert(!is_hex(s@[i as int]));
            return false;
        }
        i = i + 1;
    }
    true
}

/// `s` with its ASCII letters in lower case.
pub fn to_lower(s: &str) -> (r: String)
    ensures
        r@ == lower(s@),
{
    let cs = chars_of(s);
    let mut out = String::new();
    let mut i: usize = 0;
    while i < cs.len()
        invariant
            cs@ == s@,
            i <= cs.len(),
            out@ == lower(s@).take(i as int),
        decreases cs.len() - i,
    {
        let c = cs[i];
        if 'A' <= c && c <= 'Z' {
            out.push((c as u8 + 32) as char);
        } else {
            out.push(c);
        }
        assert(lower(s@).take(i + 1) =~= lower(s@).take(i as int).push(lower_char(c)));
        i = i + 1;
    }
    assert(lower(s@).take(s@.len() as int) =~= lower(s@));
    out
}

/// Whether the two texts are the same.
pub fn same(a: &str, b: &str) -> (r: bool)
    ensures
        r == (a@ == b@),
{
    let x = chars_of(a);
    let y = chars_of(b);
    if x.len() != y.len() {
        return false;
    }
    let mut i: usize = 0;
    while i < x.len()
        invariant
            x@ == a@,
            y@ == b@,
            x.len() == y.len(),
            i <= x.len(),
            forall|j: int| 0 <= j < i ==> a@[j] == b@[j],
        decreases x.len() - i,
    {
        if x[i] != y[i] {
            return false;
        }
        i = i + 1;
    }
    assert(a@ =~= b@);
    true
}

/// Whether the two texts are the same but for the case of ASCII letters.
pub fn same_ignoring_case(a: &str, b: &str) -> (r: bool)
    ensures
        r == (lower(a@) == lower(b@)),
{
    let x = to_lower(a);
    let y = to_lower(b);
    same(x.as_str(), y.as_str())
}

/// `s` without the characters of `class` at its start.
pub fn trim_start_of<'a>(s: &'a str, class: CharClass) -> (r: &'a str)
    ensures
        r@ == skip_class(s@, class),
{
    let cs = chars_of(s);
    let n: usize = cs.len();
    let mut i: usize = 0;
    assert(s@.skip(0) =~= s@);
    while i < n && class.contains(cs[i])
        invariant
            cs@ == s@,
            n == cs.len(),
            i <= n,
            skip_class(s@, class) == skip_class(s@.skip(i as int), class),
        decreases n - i,
    {
        assert(s@.skip(i as int).drop_first() =~= s@.skip(i + 1));
        i = i + 1;
    }
    assert(s@.skip(i as int) =~= s@.subrange(i as int, n as int));
    s.substring_char(i, n)
}

/// `s` without the characters of `class` at its end.
pub fn trim_end_of<'a>(s: &'a str, class: CharClass) -> (r: &'a str)
    ensures
        r@ == drop_class(s@, class),
{
    let cs = chars_of(s);
    let mut n: usize = cs.len();
    assert(s@.take(n as int) =~= s@);
    while n > 0 && class.contains(cs[n - 1])
        invariant
            cs@ == s@,
            n <= cs.len(),
            drop_class(s@, class) == drop_class(s@.take(n as int), class),
        decreases n,
    {
        assert(s@.take(n as int).drop_last() =~= s@.take(n - 1));
        n = n - 1;
    }
    assert(s@.take(n as int) =~= s@.subrange(0, n as int));
    s.substring_char(0, n)
}

/// `s` without white space at either end.
pub fn trim<'a>(s: &'a str) -> (r: &'a str)
    ensures
        r@ == trimmed(s@),
{
    trim_end_of(trim_start_of(s, CharClass::White), CharClass::White)
}

/// The part of `s` before the first character of `class`.
pub fn prefix_before<'a>(s: &'a str, class: CharClass) -> (r: &'a str)
    ensures
        r@ == before_first(s@, class),
{
    let cs = chars_of(s);
    let n = run_end(&cs, 0, class);
    assert(s@.skip(0) =~= s@);
    assert(s@.take(n as int) =~= s@.subrange(0, n as int));
    s.substring_char(0, n)
}

/// The position of the first character of `class` from `from` on, or the length.
pub fn run_end(cs: &Vec<char>, from: usize, class: CharClass) -> (n: usize)
    requires
        from <= cs@.len(),
    ensures
        from <= n <= cs@.len(),
        n == from + run_len(cs@.skip(from as int), class),
{
    let mut n: usize = from;
    while n < cs.len() && !class.contains(cs[n])
        invariant
            from <= n <= cs@.len(),
            run_len(cs@.skip(from as int), class) == (n - from) + run_len(
                cs@.skip(n as int),
                class,
            ),
        decreases cs.len() - n,
    {
        assert(cs@.skip(n as int).drop_first() =~= cs@.skip(n + 1));
        n = n + 1;
    }
    n
}

/// The part of `s` after the last character of `class`.
pub fn suffix_after<'a>(s: &'a str, class: CharClass) -> (r: &'a str)
    ensures
        r@ == after_last(s@, class),
{
    let cs = chars_of(s);
    let n: usize = cs.len();
    let mut i: usize = n;
    assert(s@.take(n as int) =~= s@);
    assert(s@.subrange(n as int, n as int) =~= Seq::<char>::empty());
    assert(after_last(s@, class) + s@.subrange(n as int, n as int) =~= after_last(s@, class));
    while i > 0 && !class.contains(cs[i - 1])
        invariant
            cs@ == s@,
            n == cs.len(),
            i <= n,
            after_last(s@, class) =~= after_last(s@.take(i as int), class) + s@.subrange(
                i as int,
                n as int,
            ),
        decreases i,
    {
        assert(s@.take(i as int).drop_last() =~= s@.take(i - 1));
        assert(s@.subrange(i - 1, n as int) =~= seq![s@[i - 1]] + s@.subrange(i as int, n as int));
        i = i - 1;
    }
    s.substring_char(i, n)
}

/// The maximal non-empty runs of `s` that hold no character of `class`, in order.
pub fn split_fields<'a>(s: &'a str, class: CharClass) -> (r: Vec<&'a str>)
    ensures
        slices(r@) == fields(s@, class),
{
    let cs = chars_of(s);
    let mut out: Vec<&'a str> = Vec::new();
    let mut i: usize = 0;
    assert(s@.skip(0) =~= s@);
    while i < cs.len()
        invariant
            cs@ == s@,
            i <= cs.len(),
            fields(s@, class) =~= slices(out@) + fields(s@.skip(i as int), class),
        decreases cs.len() - i,
    {
        let ghost rest = s@.skip(i as int);
        if class.contains(cs[i]) {
            assert(rest.drop_first() =~= s@.skip(i + 1));
            i = i + 1;
        } else {
            proof {
                lemma_run_len(rest, class);
            }
            let n = run_end(&cs, i, class);
            let part = s.substring_char(i, n);
            let ghost before = out@;
            out.push(part);
            assert(rest.take(n - i) =~= s@.subrange(i as int, n as int));
            assert(rest.skip(n - i) =~= s@.skip(n as int));
            assert(slices(out@) =~= slices(before).push(part@));
            i = n;
        }
    }
    assert(slices(out@) + Seq::<Seq<char>>::empty() =~= slices(out@));
    out
}

/// The words of `s`, which white space sets apart.
pub fn split_words<'a>(s: &'a str) -> (r: Vec<&'a str>)
    ensures
        slices(r@) == words(s@),
{
    split_fields(s, CharClass::White)
}

/// The lines of `s`.
pub fn split_lines<'a>(s: &'a str) -> (r: Vec<&'a str>)
    ensures
        slices(r@) == lines(s@),
{
    let cs = chars_of(s);
    let mut out: Vec<&'a str> = Vec::new();
    let mut i: usize = 0;
    assert(s@.skip(0) =~= s@);
    while i < cs.len()
        invariant
            cs@ == s@,
            i <= cs.len(),
            lines(s@) =~= slices(out@) + lines(s@.skip(i as int)),
        decreases cs.len() - i,
    {
        let ghost rest = s@.skip(i as int);
        proof {
            lemma_run_len(rest, CharClass::Only('\n'));
        }
        let n = run_end(&cs, i, CharClass::Only('\n'));
        let ghost before = out@;
        if n == cs.len() {
            let part = s.substring_char(i, n);
            out.push(part);
            assert(part@ =~= rest);
            assert(slices(out@) =~= slices(before).push(part@));
            assert(s@.skip(n as int) =~= Seq::<char>::empty());
            i = n;
        } else {
            let end: usize = if n > i && cs[n - 1] == '\r' {
                n - 1
            } else {
                n
            };
            let part = s.substring_char(i, end);
            out.push(part);
            assert(part@ =~= without_return(rest.take(n - i)));
            assert(slices(out@) =~= slices(before).push(part@));
            assert(rest.skip(n - i + 1) =~= s@.skip(n + 1));
            i = n + 1;
        }
    }
    assert(slices(out@) + Seq::<Seq<char>>::empty() =~= slices(out@));
    out
}

/// Whether `part` stands in `cs` at position `at`.
fn stands_at(cs: &Vec<char>, part: &Vec<char>, at: usize) -> (r: bool)
    ensures
        r == occurs_at(cs@, part@, at as int),
{
    if at > cs.len() || part.len() > cs.len() - at {
        return false;
    }
    let mut i: usize = 0;
    while i < part.len()
        invariant
            at + part.len() <= cs.len(),
            i <= part.len(),
            forall|j: int| 0 <= j < i ==> cs@[at + j] == part@[j],
        decreases part.len() - i,
    {
        if cs[at + i] != part[i] {
            assert(cs@.subrange(at as int, at + part@.len() as int)[i as int] != part@[i as int]);
            return false;
        }
        i = i + 1;
    }
    assert(cs@.subrange(at as int, at + part@.len() as int) =~= part@);
    true
}

/// The first position at which `part` stands in `s`.
pub fn find(s: &str, part: &str) -> (r: Option<usize>)
    ensures
        r is Some <==> find_from(s@, part@, 0) is Some,
        r is Some ==> find_from(s@, part@, 0) == Some(r->0 as int),
{
    let cs = chars_of(s);
    let ps = chars_of(part);
    let mut at: usize = 0;
    while at <= cs.len() && ps.len() <= cs.len() - at
        invariant
            cs@ == s@,
            ps@ == part@,
            at <= cs.len() + 1,
            find_from(s@, part@, 0) == find_from(s@, part@, at as int),
        decreases cs.len() + 1 - at,
    {
        if stands_at(&cs, &ps, at) {
            return Some(at);
        }
        if at == cs.len() {
            assert(find_from(s@, part@, at + 1) is None);
            return None;
        }
        at = at + 1;
    }
    None
}

proof fn lemma_find(s: Seq<char>, part: Seq<char>, from: int)
    requires
        0 <= from,
    ensures
        find_from(s, part, from) is Some ==> occurs_at(s, part, find_from(s, part, from)->0),
        find_from(s, part, from) is None ==> forall|at: int|
            from <= at ==> !occurs_at(s, part, at),
    decreases s.len() + 1 - from,
{
    if from + part.len() > s.len() {
    } else if occurs_at(s, part, from) {
    } else {
        lemma_find(s, part, from + 1);
        assert forall|at: int|
            from <= at && find_from(s, part, from) is None implies !occurs_at(s, part, at) by {
            if at > from {
            }
        }
    }
}

/// A text has a part exactly where the part can be found in it.
pub proof fn lemma_found_iff_part(s: Seq<char>, part: Seq<char>)
    ensures
        has_part(s, part) <==> find_from(s, part, 0) is Some,
        find_from(s, part, 0) is Some ==> occurs_at(s, part, find_from(s, part, 0)->0),
        forall|at: int| occurs_at(s, part, at) ==> find_from(s, part, 0)->0 <= at,
    decreases s.len(),
{
    lemma_find(s, part, 0);
    lemma_find_least(s, part, 0);
    if has_part(s, part) {
        let at = choose|at: int| occurs_at(s, part, at);
        assert(0 <= at);
    }
}

proof fn lemma_find_least(s: Seq<char>, part: Seq<char>, from: int)
    requires
        0 <= from,
    ensures
        forall|at: int|
            from <= at && occurs_at(s, part, at) ==> find_from(s, part, from) is Some
                && find_from(s, part, from)->0 <= at,
    decreases s.len() + 1 - from,
{
    if from + part.len() > s.len() {
    } else if occurs_at(s, part, from) {
    } else {
        lemma_find_least(s, part, from + 1);
    }
}

/// Whether `part` stands somewhere in `s`.
pub fn contains(s: &str, part: &str) -> (r: bool)
    ensures
        r == has_part(s@, part@),
{
    proof {
        lemma_found_iff_part(s@, part@);
    }
    find(s, part).is_some()
}

/// Whether `s` begins with `prefix`.
pub fn starts_with(s: &str, prefix: &str) -> (r: bool)
    ensures
        r == starts(s@, prefix@),
{
    let cs = chars_of(s);
    let ps = chars_of(prefix);
    stands_at(&cs, &ps, 0)
}

/// Whether `s` ends with `suffix`.
pub fn ends_with(s: &str, suffix: &str) -> (r: bool)
    ensures
        r == ends(s@, suffix@),
{
    let cs = chars_of(s);
    let ps = chars_of(suffix);
    if ps.len() > cs.len() {
        return false;
    }
    stands_at(&cs, &ps, cs.len() - ps.len())
}

/// The part of `s` after `prefix`, where `s` begins with it.
pub fn strip_prefix<'a>(s: &'a str, prefix: &str) -> (r: Option<&'a str>)
    ensures
        r is Some <==> starts(s@, prefix@),
        r is Some ==> r->0@ == s@.skip(prefix@.len() as int),
{
    if starts_with(s, prefix) {
        let n: usize = s.unicode_len();
        let from: usize = prefix.unicode_len();
        assert(s@.skip(from as int) =~= s@.subrange(from as int, n as int));
        Some(s.substring_char(from, n))
    } else {
        None
    }
}

/// `s` without the repeated `prefix` at its start.
pub fn trim_prefixes<'a>(s: &'a str, prefix: &str) -> (r: &'a str)
    requires
        prefix@.len() > 0,
    ensures
        r@ == skip_prefix(s@, prefix@),
{
    let mut rest = s;
    loop
        invariant
            prefix@.len() > 0,
            skip_prefix(s@, prefix@) == skip_prefix(rest@, prefix@),
        ensures
            rest@ == skip_prefix(s@, prefix@),
        decreases rest@.len(),
    {
        match strip_prefix(rest, prefix) {
            Some(next) => {
                rest = next;
            },
            None => {
                break;
            },
        }
    }
    rest
}

/// The parts of `list`, in order, with `sep` between each two of them.
pub fn join(list: &Vec<String>, sep: &str) -> (r: String)
    ensures
        r@ == joined(texts(list@), sep@),
{
    let mut out = String::new();
    let mut i: usize = 0;
    while i < list.len()
        invariant
            i <= list.len(),
            out@ == joined(texts(list@).take(i as int), sep@),
        decreases list.len() - i,
    {
        let ghost seen = texts(list@).take(i + 1);
        assert(seen.drop_last() =~= texts(list@).take(i as int));
        if i > 0 {
            out.append(sep);
            out.append(list[i].as_str());
        } else {
            out = list[i].clone();
            assert(seen[0] == out@);
        }
        i = i + 1;
    }
    assert(texts(list@).take(list@.len() as int) =~= texts(list@));
    out
}

/// The trimmed parts of `list` that are not empty, in order.
pub fn trim_parts(list: &Vec<String>) -> (r: Vec<String>)
    ensures
        texts(r@) == trimmed_parts(texts(list@)),
{
    let mut out: Vec<String> = Vec::new();
    let mut i: usize = 0;
    while i < list.len()
        invariant
            i <= list.len(),
            texts(out@) =~= trimmed_parts(texts(list@).take(i as int)),
        decreases list.len() - i,
    {
        let ghost seen = texts(list@).take(i + 1);
        assert(seen.drop_last() =~= texts(list@).take(i as int));
        assert(seen.last() == list@[i as int]@);
        let part = trim(list[i].as_str());
        if !part.is_empty() {
            out.push(part.to_owned());
        }
        i = i + 1;
    }
    assert(texts(list@).take(list@.len() as int) =~= texts(list@));
    out
}

/// A copy of `list`.
pub fn copy_texts(list: &Vec<String>) -> (r: Vec<String>)
    ensures
        texts(r@) == texts(list@),
        r.len() == list.len(),
{
    let mut out: Vec<String> = Vec::new();
    let mut i: usize = 0;
    while i < list.len()
        invariant
            i <= list.len(),
            texts(out@) =~= texts(list@).take(i as int),
        decreases list.len() - i,
    {
        let item = list[i].clone();
        assert(texts(list@).take(i + 1) =~= texts(list@).take(i as int).push(item@));
        out.push(item);
        i = i + 1;
    }
    assert(texts(list@).take(list@.len() as int) =~= texts(list@));
    assert(texts(out@).len() == out@.len());
    out
}

/// Appends `text` to `list`.
pub fn push_text(list: &mut Vec<String>, text: &str)
    ensures
        texts(final(list)@) == texts(old(list)@).push(text@),
{
    list.push(text.to_owned());
    assert(texts(list@) =~= texts(old(list)@).push(text@));
}

/// The two texts, one after the other.
pub fn cat(a: &str, b: &str) -> (r: String)
    ensures
        r@ == a@ + b@,
{
    let mut out = a.to_owned();
    out.append(b);
    out
}

/// The three texts, one after the other.
pub fn cat3(a: &str, b: &str, c: &str) -> (r: String)
    ensures
        r@ == a@ + b@ + c@,
{
    let mut out = cat(a, b);
    out.append(c);
    out
}

/// The four texts, one after the other.
pub fn cat4(a: &str, b: &str, c: &str, d: &str) -> (r: String)
    ensures
        r@ == a@ + b@ + c@ + d@,
{
    let mut out = cat3(a, b, c);
    out.append(d);
    out
}

/// A text that holds anything but white space is not empty when trimmed.
pub proof fn lemma_trimmed_not_empty(s: Seq<char>, i: int)
    requires
        0 <= i < s.len(),
        !is_white(s[i]),
    ensures
        trimmed(s).len() > 0,
{
    lemma_skip_keeps(s, i);
    let rest = skip_class(s, CharClass::White);
    let at = choose|k: int| 0 <= k < rest.len() && !is_white(rest[k]);
    lemma_drop_keeps(rest, at);
}

proof fn lemma_skip_keeps(s: Seq<char>, i: int)
    requires
        0 <= i < s.len(),
        !is_white(s[i]),
    ensures
        exists|k: int|
            0 <= k < skip_class(s, CharClass::White).len() && !is_white(
                #[trigger] skip_class(s, CharClass::White)[k],
            ),
    decreases s.len(),
{
    if is_white(s[0]) {
        assert(s.drop_first()[i - 1] == s[i]);
        lemma_skip_keeps(s.drop_first(), i - 1);
        assert(skip_class(s, CharClass::White) == skip_class(s.drop_first(), CharClass::White));
    } else {
        assert(skip_class(s, CharClass::White) == s);
        assert(!is_white(skip_class(s, CharClass::White)[i]));
    }
}

proof fn lemma_drop_keeps(s: Seq<char>, i: int)
    requires
        0 <= i < s.len(),
        !is_white(s[i]),
    ensures
        drop_class(s, CharClass::White).len() > i,
    decreases s.len(),
{
    if is_white(s.last()) {
        assert(s.drop_last()[i] == s[i]);
        lemma_drop_keeps(s.drop_last(), i);
    }
}

proof fn lemma_skip_push(s: Seq<char>, c: char, class: CharClass)
    ensures
        skip_class(s.push(c), class) == if skip_class(s, class).len() > 0 || !class.has(c) {
            skip_class(s, class).push(c)
        } else {
            Seq::empty()
        },
    decreases s.len(),
{
    let t = s.push(c);
    if s.len() == 0 {
        assert(t.drop_first() =~= Seq::<char>::empty());
        assert(t =~= seq![c]);
        assert(skip_class(Seq::<char>::empty(), class) =~= Seq::<char>::empty());
    } else if class.has(s[0]) {
        assert(t[0] == s[0]);
        assert(t.drop_first() =~= s.drop_first().push(c));
        lemma_skip_push(s.drop_first(), c, class);
    } else {
        assert(t[0] == s[0]);
    }
}

proof fn lemma_skip_drop_commute(s: Seq<char>, class: CharClass)
    ensures
        skip_class(drop_class(s, class), class) == drop_class(skip_class(s, class), class),
    decreases s.len(),
{
    if s.len() > 0 {
        let front = s.drop_last();
        let c = s.last();
        assert(s =~= front.push(c));
        lemma_skip_push(front, c, class);
        if class.has(c) {
            lemma_skip_drop_commute(front, class);
            let kept = skip_class(front, class);
            if kept.len() > 0 {
                assert(kept.push(c).drop_last() =~= kept);
            } else {
                assert(skip_class(s, class) =~= kept);
            }
        } else {
            assert(skip_class(s, class).last() == c);
        }
    }
}

proof fn lemma_drop_idempotent(s: Seq<char>, class: CharClass)
    ensures
        drop_class(drop_class(s, class), class) == drop_class(s, class),
    decreases s.len(),
{
    if s.len() > 0 && class.has(s.last()) {
        lemma_drop_idempotent(s.drop_last(), class);
    }
}

/// White space that was dropped at the end makes no difference to what is left when trimmed.
pub proof fn lemma_trimmed_dropped(s: Seq<char>)
    ensures
        trimmed(drop_class(s, CharClass::White)) == trimmed(s),
{
    lemma_skip_drop_commute(s, CharClass::White);
    lemma_drop_idempotent(skip_class(s, CharClass::White), CharClass::White);
}

/// Trimming twice is trimming once.
pub proof fn lemma_trimmed_idempotent(s: Seq<char>)
    ensures
        trimmed(trimmed(s)) == trimmed(s),
{
    let rest = skip_class(s, CharClass::White);
    lemma_trimmed_dropped(rest);
    lemma_skip_idempotent(s, CharClass::White);
}

proof fn lemma_skip_idempotent(s: Seq<char>, class: CharClass)
    ensures
        skip_class(skip_class(s, class), class) == skip_class(s, class),
    decreases s.len(),
{
    if s.len() > 0 && class.has(s[0]) {
        lemma_skip_idempotent(s.drop_first(), class);
    }
}

/// A text that is not blank keeps what comes before it when white space is dropped at its end.
pub proof fn lemma_drop_after(p: Seq<char>, s: Seq<char>)
    ensures
        drop_class(s, CharClass::White).len() > 0 ==> drop_class(p + s, CharClass::White) == p
            + drop_class(s, CharClass::White),
        drop_class(s, CharClass::White).len() == 0 ==> drop_class(p + s, CharClass::White)
            == drop_class(p, CharClass::White),
    decreases s.len(),
{
    if s.len() == 0 {
        assert(p + s =~= p);
    } else if CharClass::White.has(s.last()) {
        assert((p + s).drop_last() =~= p + s.drop_last());
        assert((p + s).last() == s.last());
        lemma_drop_after(p, s.drop_last());
    } else {
        assert((p + s).last() == s.last());
    }
}

/// The decimal digits of `n`.
pub fn decimal_text(n: u128) -> (r: String)
    ensures
        r@ == decimal(n as nat),
    decreases n,
{
    let mut out = if n < 10 {
        String::new()
    } else {
        decimal_text(n / 10)
    };
    let d: u8 = (n % 10) as u8;
    out.push((48 + d) as char);
    assert(n < 10 ==> out@ =~= seq![digit_char(n as nat)]);
    out
}

/// The decimal form of a signed number.
pub fn signed_text(n: i32) -> (r: String)
    ensures
        r@ == signed_decimal(n as int),
{
    if n < 0 {
        let mut out = String::new();
        out.push('-');
        let digits = decimal_text((-(n as i64)) as u128);
        out.append(digits.as_str());
        assert(out@ =~= seq!['-'] + decimal((-(n as int)) as nat));
        out
    } else {
        decimal_text(n as u128)
    }
}

/// The decimal digits of a number stand for that number.
pub proof fn lemma_decimal_value(n: nat)
    ensures
        decimal_value(decimal(n)) == n,
        decimal(n).len() > 0,
        forall|i: int| 0 <= i < decimal(n).len() ==> is_digit(#[trigger] decimal(n)[i]),
    decreases n,
{
    if n < 10 {
        let s = decimal(n);
        assert(s.drop_last() =~= Seq::<char>::empty());
        reveal_with_fuel(decimal_value, 2);
    } else {
        lemma_decimal_value(n / 10);
        assert(decimal(n).drop_last() =~= decimal(n / 10));
    }
}

/// Whether `s` is a line of its own that trimming leaves as it is: not empty, without white space
/// at its ends and without line feeds.
pub open spec fn is_clean_line(s: Seq<char>) -> bool {
    s.len() > 0 && trimmed(s) == s && !s.contains('\n')
}

proof fn lemma_skip_holds(s: Seq<char>, class: CharClass)
    ensures
        forall|i: int|
            0 <= i < skip_class(s, class).len() ==> s.contains(#[trigger] skip_class(s, class)[i]),
        skip_class(s, class).len() > 0 ==> !class.has(skip_class(s, class)[0]),
    decreases s.len(),
{
    if s.len() > 0 && class.has(s[0]) {
        let rest = s.drop_first();
        lemma_skip_holds(rest, class);
        assert forall|i: int| 0 <= i < skip_class(s, class).len() implies s.contains(
            #[trigger] skip_class(s, class)[i],
        ) by {
            let k = rest.index_of(skip_class(rest, class)[i]);
            assert(s[k + 1] == rest[k]);
        }
    }
}

proof fn lemma_drop_holds(s: Seq<char>, class: CharClass)
    ensures
        forall|i: int|
            0 <= i < drop_class(s, class).len() ==> s.contains(#[trigger] drop_class(s, class)[i]),
        drop_class(s, class).len() > 0 ==> !class.has(drop_class(s, class).last()),
    decreases s.len(),
{
    if s.len() > 0 && class.has(s.last()) {
        let rest = s.drop_last();
        lemma_drop_holds(rest, class);
        assert forall|i: int| 0 <= i < drop_class(s, class).len() implies s.contains(
            #[trigger] drop_class(s, class)[i],
        ) by {
            let k = rest.index_of(drop_class(rest, class)[i]);
            assert(s[k] == rest[k]);
        }
    }
}

/// A trimmed text holds nothing new, and does not end with white space.
pub proof fn lemma_trimmed_holds(s: Seq<char>)
    ensures
        forall|c: char| trimmed(s).contains(c) ==> s.contains(c),
        trimmed(s).len() > 0 ==> !is_white(trimmed(s).last()),
{
    let rest = skip_class(s, CharClass::White);
    lemma_skip_holds(s, CharClass::White);
    lemma_drop_holds(rest, CharClass::White);
    assert forall|c: char| trimmed(s).contains(c) implies s.contains(c) by {
        let k = trimmed(s).index_of(c);
        assert(rest.contains(trimmed(s)[k]));
        let j = rest.index_of(c);
        assert(s.contains(rest[j]));
    }
}

proof fn lemma_lines_hold_no_feed(s: Seq<char>)
    ensures
        forall|i: int| 0 <= i < lines(s).len() ==> !(#[trigger] lines(s)[i]).contains('\n'),
    decreases s.len(),
{
    if s.len() > 0 {
        let class = CharClass::Only('\n');
        lemma_run_len(s, class);
        let n = run_len(s, class) as int;
        assert(!s.take(n).contains('\n')) by {
            if s.take(n).contains('\n') {
                let k = s.take(n).index_of('\n');
                assert(class.has(s[k]));
            }
        }
        if n == s.len() {
            assert(s.take(n) =~= s);
        } else {
            let head = without_return(s.take(n));
            assert(!head.contains('\n')) by {
                if head.contains('\n') {
                    let k = head.index_of('\n');
                    assert(s.take(n)[k] == '\n');
                }
            }
            lemma_lines_hold_no_feed(s.skip(n + 1));
            let all = lines(s);
            assert forall|i: int| 0 <= i < all.len() implies !(#[trigger] all[i]).contains('\n') by {
                if i > 0 {
                    assert(all[i] == lines(s.skip(n + 1))[i - 1]);
                }
            }
        }
    }
}

/// The trimmed lines of a text that are not blank are clean.
pub proof fn lemma_trimmed_lines_are_clean(s: Seq<char>)
    ensures
        forall|i: int|
            0 <= i < trimmed_parts(lines(s)).len() ==> is_clean_line(
                #[trigger] trimmed_parts(lines(s))[i],
            ),
{
    lemma_lines_hold_no_feed(s);
    lemma_trimmed_parts_clean(lines(s));
}

proof fn lemma_trimmed_parts_clean(list: Seq<Seq<char>>)
    requires
        forall|i: int| 0 <= i < list.len() ==> !(#[trigger] list[i]).contains('\n'),
    ensures
        forall|i: int|
            0 <= i < trimmed_parts(list).len() ==> is_clean_line(#[trigger] trimmed_parts(list)[i]),
    decreases list.len(),
{
    if list.len() > 0 {
        let front = list.drop_last();
        assert forall|i: int| 0 <= i < front.len() implies !(#[trigger] front[i]).contains(
            '\n',
        ) by {
            assert(front[i] == list[i]);
        }
        lemma_trimmed_parts_clean(front);
        let last = list[list.len() - 1];
        lemma_trimmed_holds(last);
        lemma_trimmed_idempotent(last);
        let all = trimmed_parts(list);
        assert forall|i: int| 0 <= i < all.len() implies is_clean_line(#[trigger] all[i]) by {
            if i < trimmed_parts(front).len() {
                assert(all[i] == trimmed_parts(front)[i]);
            }
        }
    }
}

/// A list of two or more parts is its first part, the separator, and the other parts.
proof fn lemma_joined_front(list: Seq<Seq<char>>, sep: Seq<char>)
    requires
        list.len() > 1,
    ensures
        joined(list, sep) == list[0] + sep + joined(list.drop_first(), sep),
    decreases list.len(),
{
    let front = list.drop_last();
    let rest = list.drop_first();
    assert(rest.last() == list.last());
    if list.len() == 2 {
        assert(front[0] == list[0]);
        assert(joined(front, sep) == list[0]);
        assert(rest.len() == 1 && rest[0] == list[1]);
    } else {
        lemma_joined_front(front, sep);
        assert(front.drop_first() =~= rest.drop_last());
        assert(front[0] == list[0]);
        assert(joined(list, sep) =~= list[0] + sep + joined(rest, sep));
    }
}

/// A run without characters of a class ends where one follows it.
pub proof fn lemma_run_before(a: Seq<char>, b: Seq<char>, class: CharClass)
    requires
        forall|i: int| 0 <= i < a.len() ==> !class.has(#[trigger] a[i]),
        b.len() > 0 ==> class.has(b[0]),
    ensures
        run_len(a + b, class) == a.len(),
    decreases a.len(),
{
    let s = a + b;
    if a.len() > 0 {
        assert(s[0] == a[0]);
        assert(s.drop_first() =~= a.drop_first() + b);
        assert forall|i: int| 0 <= i < a.drop_first().len() implies !class.has(
            #[trigger] a.drop_first()[i],
        ) by {
            assert(a.drop_first()[i] == a[i + 1]);
        }
        lemma_run_before(a.drop_first(), b, class);
    } else {
        assert(s =~= b);
    }
}

/// Clean lines that are joined by line feeds are the lines of the text.
pub proof fn lemma_lines_of_joined(list: Seq<Seq<char>>)
    requires
        forall|i: int| 0 <= i < list.len() ==> is_clean_line(#[trigger] list[i]),
    ensures
        lines(joined(list, seq!['\n'])) == list,
    decreases list.len(),
{
    let sep = seq!['\n'];
    let class = CharClass::Only('\n');
    let s = joined(list, sep);
    if list.len() == 0 {
        assert(lines(s) =~= list);
    } else {
        let head = list[0];
        assert(is_clean_line(head));
        assert forall|i: int| 0 <= i < head.len() implies !class.has(#[trigger] head[i]) by {
            if head[i] == '\n' {
                assert(head.contains('\n'));
            }
        }
        if list.len() == 1 {
            lemma_run_before(head, Seq::empty(), class);
            assert(head + Seq::<char>::empty() =~= head);
            assert(lines(s) =~= seq![head]);
            assert(seq![head] =~= list);
        } else {
            let rest = list.drop_first();
            lemma_joined_front(list, sep);
            let tail = joined(rest, sep);
            assert(s =~= head + (sep + tail));
            lemma_run_before(head, sep + tail, class);
            let n = head.len() as int;
            assert(s.take(n) =~= head);
            assert(s.skip(n + 1) =~= tail);
            lemma_trimmed_holds(head);
            assert(head.last() != '\r');
            assert(without_return(head) == head);
            assert forall|i: int| 0 <= i < rest.len() implies is_clean_line(#[trigger] rest[i]) by {
                assert(rest[i] == list[i + 1]);
            }
            lemma_lines_of_joined(rest);
            assert(lines(s) == seq![head] + rest);
            assert(seq![head] + rest =~= list);
        }
    }
}

/// Clean lines are left as they are when they are trimmed.
pub proof fn lemma_clean_lines_stay(list: Seq<Seq<char>>)
    requires
        forall|i: int| 0 <= i < list.len() ==> is_clean_line(#[trigger] list[i]),
    ensures
        trimmed_parts(list) == list,
    decreases list.len(),
{
    if list.len() > 0 {
        let front = list.drop_last();
        assert forall|i: int| 0 <= i < front.len() implies is_clean_line(#[trigger] front[i]) by {
            assert(front[i] == list[i]);
        }
        lemma_clean_lines_stay(front);
        assert(is_clean_line(list[list.len() - 1]));
        assert(front.push(list.last()) =~= list);
    } else {
        assert(trimmed_parts(list) =~= list);
    }
}

/// Characters of a class at the start of a text are skipped, up to the first that is not of it.
pub proof fn lemma_skipped(a: Seq<char>, b: Seq<char>, class: CharClass)
    requires
        forall|i: int| 0 <= i < a.len() ==> class.has(#[trigger] a[i]),
        b.len() > 0 ==> !class.has(b[0]),
    ensures
        skip_class(a + b, class) == b,
    decreases a.len(),
{
    let s = a + b;
    if a.len() > 0 {
        let rest = a.drop_first();
        assert(s[0] == a[0]);
        assert(s.drop_first() =~= rest + b);
        assert forall|i: int| 0 <= i < rest.len() implies class.has(#[trigger] rest[i]) by {
            assert(rest[i] == a[i + 1]);
        }
        lemma_skipped(rest, b, class);
    } else {
        assert(s =~= b);
    }
}

/// Characters of a class at the end of a text are dropped, up to the last that is not of it.
pub proof fn lemma_dropped(a: Seq<char>, b: Seq<char>, class: CharClass)
    requires
        forall|i: int| 0 <= i < b.len() ==> class.has(#[trigger] b[i]),
        a.len() > 0 ==> !class.has(a.last()),
    ensures
        drop_class(a + b, class) == a,
    decreases b.len(),
{
    let s = a + b;
    if b.len() > 0 {
        let rest = b.drop_last();
        assert(s.last() == b[b.len() - 1]);
        assert(s.drop_last() =~= a + rest);
        assert forall|i: int| 0 <= i < rest.len() implies class.has(#[trigger] rest[i]) by {
            assert(rest[i] == b[i]);
        }
        lemma_dropped(a, rest, class);
    } else {
        assert(s =~= a);
    }
}

/// Whether `s` is made of white space alone.
pub open spec fn all_white(s: Seq<char>) -> bool {
    forall|i: int| 0 <= i < s.len() ==> is_white(#[trigger] s[i])
}

/// Whether `s` has no white space at its ends.
pub open spec fn is_trim(s: Seq<char>) -> bool {
    s.len() > 0 ==> !is_white(s[0]) && !is_white(s.last())
}

/// A text between white space is what is left when it is trimmed.
pub proof fn lemma_trimmed_is(lead: Seq<char>, s: Seq<char>, tail: Seq<char>)
    requires
        all_white(lead),
        all_white(tail),
        is_trim(s),
    ensures
        trimmed(lead + s + tail) == s,
{
    let class = CharClass::White;
    if s.len() > 0 {
        assert(lead + s + tail =~= lead + (s + tail));
        assert((s + tail)[0] == s[0]);
        lemma_skipped(lead, s + tail, class);
        lemma_dropped(s, tail, class);
    } else {
        let all = lead + s + tail;
        let none = Seq::<char>::empty();
        assert forall|i: int| 0 <= i < all.len() implies class.has(#[trigger] all[i]) by {
            if i < lead.len() {
                assert(is_white(lead[i]));
            } else {
                assert(is_white(tail[i - lead.len()]));
            }
        }
        lemma_skipped(all, none, class);
        assert(all + none =~= all);
        assert(drop_class(none, class) == none);
        assert(s =~= none);
    }
}

/// A run without characters of a class is the first field of the text, where one follows it.
pub proof fn lemma_first_field(a: Seq<char>, b: Seq<char>, class: CharClass)
    requires
        a.len() > 0,
        forall|i: int| 0 <= i < a.len() ==> !class.has(#[trigger] a[i]),
        b.len() > 0 ==> class.has(b[0]),
    ensures
        fields(a + b, class) == seq![a] + fields(b, class),
        before_first(a + b, class) == a,
{
    let s = a + b;
    lemma_run_before(a, b, class);
    let n = a.len() as int;
    assert(s[0] == a[0]);
    assert(s.take(n) =~= a);
    assert(s.skip(n) =~= b);
}

/// A character of a class at the start of a text belongs to no field.
pub proof fn lemma_fields_after(c: char, s: Seq<char>, class: CharClass)
    requires
        class.has(c),
    ensures
        fields(seq![c] + s, class) == fields(s, class),
{
    let t = seq![c] + s;
    assert(t[0] == c);
    assert(t.drop_first() =~= s);
}

/// The first line of a text ends at its first line feed; what follows are the other lines.
pub proof fn lemma_first_line(a: Seq<char>, b: Seq<char>)
    requires
        !a.contains('\n'),
    ensures
        lines(a + seq!['\n'] + b) == seq![without_return(a)] + lines(b),
        a.len() > 0 ==> lines(a) == seq![a],
{
    let class = CharClass::Only('\n');
    assert forall|i: int| 0 <= i < a.len() implies !class.has(#[trigger] a[i]) by {
        if a[i] == '\n' {
            assert(a.contains('\n'));
        }
    }
    let end = seq!['\n'] + b;
    let s = a + seq!['\n'] + b;
    assert(s =~= a + end);
    lemma_run_before(a, end, class);
    let n = a.len() as int;
    assert(s.take(n) =~= a);
    assert(s.skip(n + 1) =~= b);
    let none = Seq::<char>::empty();
    lemma_run_before(a, none, class);
    assert(a + none =~= a);
}

/// The decimal digits of a number begin with a zero only where the number is zero.
pub proof fn lemma_decimal_start(n: nat)
    ensures
        decimal(n).len() > 0,
        n > 0 ==> decimal(n)[0] != '0',
        decimal(n).len() > 1 ==> n >= 10,
    decreases n,
{
    if n >= 10 {
        lemma_decimal_start(n / 10);
        assert(decimal(n)[0] == decimal(n / 10)[0]);
    }
}

/// White space is what Unicode calls so: the five ASCII controls from tab to carriage return, the
/// space, and seventeen characters beyond ASCII.
pub proof fn law_white_space(c: char)
    ensures
        is_white(c) <==> {
            let n = c as u32;
            9 <= n <= 13 || n == 32 || n == 0x85 || n == 0xA0 || n == 0x1680 || 0x2000 <= n <= 0x200A
                || n == 0x2028 || n == 0x2029 || n == 0x202F || n == 0x205F || n == 0x3000
        },
{
}

/// Trimming takes away white space at the ends of a text, all of it, and nothing else.
pub proof fn law_trim_takes_white_space(s: &str, r: &str)
    requires
        call_ensures(trim, (s,), r),
    ensures
        is_trim(r@),
        exists|lead: Seq<char>, tail: Seq<char>|
            all_white(lead) && all_white(tail) && s@ == #[trigger] (lead + r@ + tail),
{
    lemma_trimmed_parts_of(s@);
}

/// The white space round a text, and the text.
pub proof fn lemma_trimmed_parts_of(s: Seq<char>)
    ensures
        is_trim(trimmed(s)),
        exists|lead: Seq<char>, tail: Seq<char>|
            all_white(lead) && all_white(tail) && s == #[trigger] (lead + trimmed(s) + tail),
{
    let class = CharClass::White;
    let rest = skip_class(s, class);
    lemma_skip_is_rest(s, class);
    lemma_drop_is_start(rest, class);
    lemma_skip_holds(s, class);
    lemma_drop_holds(rest, class);
    let t = trimmed(s);
    let lead = s.take(s.len() - rest.len());
    let tail = rest.skip(t.len() as int);
    assert forall|i: int| 0 <= i < lead.len() implies is_white(#[trigger] lead[i]) by {
        assert(class.has(s[i]));
    }
    assert forall|i: int| 0 <= i < tail.len() implies is_white(#[trigger] tail[i]) by {
        assert(class.has(rest[t.len() + i]));
    }
    assert(s =~= lead + t + tail);
    if t.len() > 0 {
        assert(t[0] == rest[0]);
    }
}

/// What is skipped at the start of a text is of the class.
proof fn lemma_skip_is_rest(s: Seq<char>, class: CharClass)
    ensures
        skip_class(s, class).len() <= s.len(),
        skip_class(s, class) == s.skip(s.len() - skip_class(s, class).len()),
        forall|i: int|
            0 <= i < s.len() - skip_class(s, class).len() ==> class.has(#[trigger] s[i]),
    decreases s.len(),
{
    let n = s.len() - skip_class(s, class).len();
    if s.len() > 0 && class.has(s[0]) {
        let rest = s.drop_first();
        lemma_skip_is_rest(rest, class);
        assert(rest.skip(n - 1) =~= s.skip(n));
        assert forall|i: int| 0 <= i < n implies class.has(#[trigger] s[i]) by {
            if i > 0 {
                assert(rest[i - 1] == s[i]);
            }
        }
    } else {
        assert(s.skip(0) =~= s);
    }
}

/// What is dropped at the end of a text is of the class.
pub proof fn lemma_drop_is_start(s: Seq<char>, class: CharClass)
    ensures
        drop_class(s, class).len() <= s.len(),
        drop_class(s, class) == s.take(drop_class(s, class).len() as int),
        forall|i: int| drop_class(s, class).len() <= i < s.len() ==> class.has(#[trigger] s[i]),
        drop_class(s, class).len() > 0 ==> !class.has(drop_class(s, class).last()),
    decreases s.len(),
{
    let n = drop_class(s, class).len() as int;
    if s.len() > 0 && class.has(s.last()) {
        let rest = s.drop_last();
        lemma_drop_is_start(rest, class);
        assert(rest.take(n) =~= s.take(n));
        assert forall|i: int| n <= i < s.len() implies class.has(#[trigger] s[i]) by {
            if i < rest.len() {
                assert(rest[i] == s[i]);
            }
        }
    } else {
        assert(s.take(n) =~= s);
    }
}

/// Whether two characters are the same, or the same ASCII letter in two cases.
pub open spec fn same_letter(a: char, b: char) -> bool {
    ||| a == b
    ||| 'A' <= a <= 'Z' && b as u32 == a as u32 + 32
    ||| 'A' <= b <= 'Z' && a as u32 == b as u32 + 32
}

/// Whether two texts are the same, character by character, but for the case of ASCII letters.
pub open spec fn same_name(a: Seq<char>, b: Seq<char>) -> bool {
    a.len() == b.len() && forall|i: int| 0 <= i < a.len() ==> same_letter(#[trigger] a[i], b[i])
}

/// Two texts are the same but for the case of ASCII letters exactly where their characters are, one
/// by one.
pub proof fn law_case_is_ignored(a: &str, b: &str, r: bool)
    requires
        call_ensures(same_ignoring_case, (a, b), r),
    ensures
        r <==> same_name(a@, b@),
{
    lemma_same_lower(a@, b@);
}

/// Two texts are the same in lower case exactly where their characters are, but for the case.
pub proof fn lemma_same_lower(a: Seq<char>, b: Seq<char>)
    ensures
        lower(a) == lower(b) <==> same_name(a, b),
{
    if lower(a) == lower(b) {
        assert(lower(a).len() == lower(b).len());
        assert forall|i: int| 0 <= i < a.len() implies same_letter(#[trigger] a[i], b[i]) by {
            assert(lower(a)[i] == lower(b)[i]);
        }
    }
    if same_name(a, b) {
        assert forall|i: int| 0 <= i < a.len() implies lower(a)[i] == lower(b)[i] by {
            assert(same_letter(a[i], b[i]));
        }
        assert(lower(a) =~= lower(b));
    }
}

/// A text in lower case holds no upper-case ASCII letter, and is the same text but for the case.
pub proof fn law_lower_case(s: &str, r: String)
    requires
        call_ensures(to_lower, (s,), r),
    ensures
        r@.len() == s@.len(),
        forall|i: int|
            0 <= i < s@.len() ==> same_letter(#[trigger] s@[i], r@[i]) && !('A' <= r@[i]
                <= 'Z'),
{
}

/// The lines of a text that goes on after a line feed are the line before it, without a carriage
/// return at its end, and the lines after it. A text without line feeds is its own only line.
pub proof fn law_lines_end_at_line_feeds(a: Seq<char>, b: Seq<char>)
    requires
        !a.contains('\n'),
    ensures
        lines(a + seq!['\n'] + b) == seq![a] + lines(b) || a.len() > 0 && a.last() == '\r' && lines(
            a + seq!['\n'] + b,
        ) == seq![a.drop_last()] + lines(b),
        a.len() > 0 && a.last() == '\r' <==> lines(a + seq!['\n'] + b)[0] != a,
        a.len() > 0 ==> lines(a) == seq![a],
        lines(Seq::<char>::empty()).len() == 0,
{
    lemma_first_line(a, b);
}

/// The trimmed parts of two lists, one after the other, are those of the first and those of the
/// second; a part is left out exactly where there is nothing but white space in it.
pub proof fn law_trimmed_parts_in_order(a: Seq<Seq<char>>, b: Seq<Seq<char>>, part: Seq<char>)
    ensures
        trimmed_parts(a + b) == trimmed_parts(a) + trimmed_parts(b),
        trimmed_parts(seq![part]) == if all_white(part) {
            Seq::empty()
        } else {
            seq![trimmed(part)]
        },
    decreases b.len(),
{
    let one = seq![part];
    assert(one.drop_last() =~= Seq::<Seq<char>>::empty());
    assert(one.last() == part);
    reveal_with_fuel(trimmed_parts, 2);
    lemma_blank_iff_white(part);
    assert(trimmed_parts(one) =~= if all_white(part) {
        Seq::empty()
    } else {
        seq![trimmed(part)]
    });
    if b.len() > 0 {
        law_trimmed_parts_in_order(a, b.drop_last(), part);
        assert((a + b).drop_last() =~= a + b.drop_last());
        assert((a + b).last() == b.last());
        assert(trimmed_parts(a + b) =~= trimmed_parts(a) + trimmed_parts(b));
    } else {
        assert(a + b =~= a);
        assert(trimmed_parts(a + b) =~= trimmed_parts(a) + trimmed_parts(b));
    }
}

/// Nothing is left of a text exactly where it is white space alone.
pub proof fn lemma_blank_iff_white(s: Seq<char>)
    ensures
        trimmed(s).len() == 0 <==> all_white(s),
{
    if all_white(s) {
        let none = Seq::<char>::empty();
        lemma_trimmed_is(s, none, none);
        assert(s + none + none =~= s);
    } else {
        let i = choose|i: int| 0 <= i < s.len() && !is_white(#[trigger] s[i]);
        lemma_trimmed_not_empty(s, i);
    }
}

/// The fields of a text are apart where a character of the class stands, and nowhere else.
pub proof fn law_fields_are_apart(a: Seq<char>, c: char, b: Seq<char>, class: CharClass)
    requires
        a.len() > 0,
        forall|i: int| 0 <= i < a.len() ==> !class.has(#[trigger] a[i]),
        class.has(c),
    ensures
        fields(a, class) == seq![a],
        fields(a + seq![c] + b, class) == seq![a] + fields(b, class),
        fields(seq![c] + b, class) == fields(b, class),
{
    let none = Seq::<char>::empty();
    lemma_first_field(a, none, class);
    assert(a + none =~= a);
    assert(fields(none, class) =~= Seq::<Seq<char>>::empty());
    assert(fields(a, class) =~= seq![a]);
    lemma_first_field(a, seq![c] + b, class);
    assert(a + seq![c] + b =~= a + (seq![c] + b));
    lemma_fields_after(c, b, class);
}

/// Parts that are joined stand one after another with the separator between each two of them; one
/// part alone is just that part.
pub proof fn law_join_puts_the_separator_between(
    first: String,
    rest: Vec<String>,
    all: Vec<String>,
    sep: &str,
    r: String,
    tail: String,
)
    requires
        texts(all@) == seq![first@] + texts(rest@),
        call_ensures(join, (&all, sep), r),
        call_ensures(join, (&rest, sep), tail),
    ensures
        r@ == if rest@.len() == 0 {
            first@
        } else {
            first@ + sep@ + tail@
        },
{
    let list = texts(all@);
    assert(list[0] == first@);
    assert(list.drop_first() =~= texts(rest@));
    assert(texts(rest@).len() == rest@.len());
    if rest@.len() > 0 {
        lemma_joined_front(list, sep@);
    }
}

/// The hexadecimal digits are those of the decimal system and the first six letters, in either case.
pub proof fn law_hexadecimal_digits(c: char, r: bool)
    requires
        call_ensures(is_hex_digit, (c,), r),
    ensures
        r <==> {
            let n = c as u32;
            48 <= n <= 57 || 65 <= n <= 70 || 97 <= n <= 102
        },
{
}

/// A number is written with the decimal digits that stand for it and no zero before them; one below
/// zero is written as a minus and the number without it.
pub proof fn law_numbers_are_written(n: u128, s: i32, r: String, t: String)
    requires
        call_ensures(decimal_text, (n,), r),
        call_ensures(signed_text, (s,), t),
        s < 0 ==> n == -s,
        s >= 0 ==> n == s,
    ensures
        decimal_value(r@) == n,
        r@.len() > 0,
        r@.len() > 1 ==> r@[0] != '0',
        forall|i: int| 0 <= i < r@.len() ==> '0' <= #[trigger] r@[i] <= '9',
        s < 0 ==> t@ == seq!['-'] + r@,
        s >= 0 ==> t@ == r@,
{
    lemma_decimal_value(n as nat);
    lemma_decimal_start(n as nat);
    assert forall|i: int| 0 <= i < r@.len() implies '0' <= #[trigger] r@[i] <= '9' by {
        assert(is_digit(decimal(n as nat)[i]));
    }
}

/// A part is found at the first place where it stands, and only where it stands somewhere.
pub proof fn law_first_place_is_found(s: &str, part: &str, r: Option<usize>, held: bool)
    requires
        call_ensures(find, (s, part), r),
        call_ensures(contains, (s, part), held),
    ensures
        held <==> r is Some,
        r matches Some(at) ==> at + part@.len() <= s@.len() && s@.subrange(
            at as int,
            at + part@.len(),
        ) == part@,
        forall|at: int|
            0 <= at && at + part@.len() <= s@.len() && #[trigger] s@.subrange(
                at,
                at + part@.len(),
            ) == part@ ==> r is Some && r->0 <= at,
{
    lemma_found_iff_part(s@, part@);
    assert forall|at: int|
        0 <= at && at + part@.len() <= s@.len() && #[trigger] s@.subrange(at, at + part@.len())
            == part@ implies r is Some && r->0 <= at by {
        assert(occurs_at(s@, part@, at));
    }
}

/// A text begins and ends with what stands at its start and at its end, and taking the start away
/// leaves the rest.
pub proof fn law_starts_and_ends(
    s: &str,
    part: &str,
    starts: bool,
    ends: bool,
    rest: Option<&str>,
)
    requires
        call_ensures(starts_with, (s, part), starts),
        call_ensures(ends_with, (s, part), ends),
        call_ensures(strip_prefix, (s, part), rest),
    ensures
        starts <==> s@.len() >= part@.len() && s@.take(part@.len() as int) == part@,
        ends <==> s@.len() >= part@.len() && s@.skip(s@.len() - part@.len()) == part@,
        rest is Some <==> starts,
        rest matches Some(t) ==> s@ == part@ + t@,
{
    let n = part@.len() as int;
    if s@.len() >= n {
        assert(s@.take(n) =~= s@.subrange(0, n));
        assert(s@.skip(s@.len() - n) =~= s@.subrange(s@.len() - n, s@.len() as int));
        if let Some(t) = rest {
            assert(s@ =~= s@.subrange(0, n) + s@.skip(n));
        }
    }
}

} // verus!
