//! The selected part of a text.
use crate::text::opt_slice;
use vstd::prelude::*;

verus! {

/// The two ends of a selection, in characters from the start of the text. The first is where the
/// cursor is, the second where the selection began.
#[derive(Clone, Copy, Debug, PartialEq, Eq, Structural)]
pub struct TextSelection {
    pub primary: usize,
    pub secondary: usize,
}

/// A position that is not behind the end of the text.
pub open spec fn clipped(at: usize, len: nat) -> int {
    if at <= len {
        at as int
    } else {
        len as int
    }
}

/// The part of `text` between the ends of a selection; there is none where they are the same.
pub open spec fn selected_part(text: Seq<char>, selection: Option<TextSelection>) -> Option<
    Seq<char>,
> {
    match selection {
        Some(ends) => if ends.primary == ends.secondary {
            None
        } else if ends.primary < ends.secondary {
            Some(
                text.subrange(
                    clipped(ends.primary, text.len()),
                    clipped(ends.secondary, text.len()),
                ),
            )
        } else {
            Some(
                text.subrange(
                    clipped(ends.secondary, text.len()),
                    clipped(ends.primary, text.len()),
                ),
            )
        },
        None => None,
    }
}

/// The part of `text` between the ends of a selection; there is none where they are the same.
pub fn selected_text<'a>(text: &'a str, selection: Option<TextSelection>) -> (r: Option<&'a str>)
    ensures
        opt_slice(r) == selected_part(text@, selection),
{
    match selection {
        Some(ends) => {
            if ends.primary == ends.secondary {
                return None;
            }
            let len: usize = text.unicode_len();
            let (first, last) = if ends.primary < ends.secondary {
                (ends.primary, ends.secondary)
            } else {
                (ends.secondary, ends.primary)
            };
            let from: usize = if first <= len {
                first
            } else {
                len
            };
            let to: usize = if last <= len {
                last
            } else {
                len
            };
            Some(text.substring_char(from, to))
        },
        None => None,
    }
}

/// It makes no difference at which end of a selection the cursor is.
pub proof fn law_selection_has_no_direction(text: Seq<char>, a: usize, b: usize)
    ensures
        selected_part(text, Some(TextSelection { primary: a, secondary: b })) == selected_part(
            text,
            Some(TextSelection { primary: b, secondary: a }),
        ),
{
}

/// A selection between two different places of a text is what stands between them, whichever of them
/// the cursor is at; what lies behind the end of the text counts as its end. With no selection, or
/// one whose ends are the same, nothing is selected.
pub proof fn law_selected_text_stands_between_the_ends(
    text: &str,
    before: Seq<char>,
    part: Seq<char>,
    after: Seq<char>,
    a: usize,
    b: usize,
    r: Option<&str>,
)
    requires
        call_ensures(selected_text, (text, Some(TextSelection { primary: a, secondary: b })), r),
        text@ == before + part + after,
    ensures
        a == b ==> r is None,
        a != b && a == before.len() && b == before.len() + part.len() ==> (r matches Some(s) && s@
            == part),
        a != b && b == before.len() && a == before.len() + part.len() ==> (r matches Some(s) && s@
            == part),
        a == before.len() && b > text@.len() && after.len() == 0 ==> (r matches Some(s) && s@
            == part),
        b == before.len() && a > text@.len() && after.len() == 0 ==> (r matches Some(s) && s@
            == part),
        a > text@.len() && b > text@.len() && a != b ==> (r matches Some(s) && s@ == Seq::<
            char,
        >::empty()),
{
    let n = before.len() as int;
    let m = n + part.len();
    assert(text@.subrange(n, m) =~= part);
}

/// Without a selection nothing is selected.
pub proof fn law_no_selection_selects_nothing(text: &str, r: Option<&str>)
    requires
        call_ensures(selected_text, (text, None), r),
    ensures
        r is None,
{
}

} // verus!
