use vstd::prelude::*;

use crate::text::{
    contains_char, copy_range, is_white_space, lemma_remove_cr_identity, lemma_remove_cr_no_cr,
    lemma_trim_idempotent, lemma_trim_shape, lemma_remove_cr_members, remove_cr, remove_cr_chars, string_from_chars,
    to_chars, trim, trim_chars,
};

verus! {

/// Longest text, in characters, that a selection is cut to.
pub const MAX_CHARS: usize = 3000;

/// What reading the current selection came to.
#[derive(Debug, Clone, PartialEq, Eq)]
pub enum SelectionOutcome {
    Text(String),
    PermissionDenied,
    Empty,
}

// ---------------------------------------------------------------------------
// Normalisation
// ---------------------------------------------------------------------------

/// A selection as it is shown: no `'\r'`, no white space at either end, at most
/// `MAX_CHARS` characters.
pub open spec fn normalized_text(s: Seq<char>) -> Seq<char> {
    let t = trim(remove_cr(s));
    if t.len() > MAX_CHARS {
        t.take(MAX_CHARS as int)
    } else {
        t
    }
}

/// CRLF becomes LF and a lone `'\r'` is dropped; both come to taking out every `'\r'`.
pub fn normalize_line_endings(s: &str) -> (r: String)
    ensures
        r@ == remove_cr(s@),
{
    let chars = to_chars(s);
    let cleaned = remove_cr_chars(&chars);
    string_from_chars(&cleaned)
}

pub fn normalize_text(s: &str) -> (r: String)
    ensures
        r@ == normalized_text(s@),
{
    normalize_text_preserve_lines(s)
}

fn normalize_text_preserve_lines(s: &str) -> (r: String)
    ensures
        r@ == normalized_text(s@),
{
    let chars = to_chars(s);
    let n = normalize_chars(&chars);
    string_from_chars(&n)
}

fn normalize_chars(s: &[char]) -> (r: Vec<char>)
    ensures
        r@ == normalized_text(s@),
{
    let no_cr = remove_cr_chars(s);
    let t = trim_chars(&no_cr);
    if t.len() > MAX_CHARS {
        let cut = copy_range(&t, 0, MAX_CHARS);
        assert(cut@ =~= t@.take(MAX_CHARS as int));
        cut
    } else {
        t
    }
}

// ---------------------------------------------------------------------------
// Choosing between two readings of a selection
// ---------------------------------------------------------------------------

/// `other` when it is longer and taking it does not lose the line breaks that only
/// `preferred` has; `preferred` otherwise.
pub open spec fn longer_multiline(preferred: Seq<char>, other: Seq<char>) -> Seq<char> {
    if other.len() > preferred.len() && !(preferred.contains('\n') && !other.contains('\n')) {
        other
    } else {
        preferred
    }
}

fn pick_longer_chars(preferred: &[char], other: &[char]) -> (r: Vec<char>)
    ensures
        r@ == longer_multiline(preferred@, other@),
{
    let p_has_nl = contains_char(preferred, '\n');
    let o_has_nl = contains_char(other, '\n');
    let p_len = preferred.len();
    let o_len = other.len();
    if p_has_nl && !o_has_nl {
        return copy_range(preferred, 0, p_len);
    }
    if p_len > o_len {
        return copy_range(preferred, 0, p_len);
    }
    if o_len > p_len {
        return copy_range(other, 0, o_len);
    }
    copy_range(preferred, 0, p_len)
}

pub fn pick_longer_multiline(preferred: &str, other: &str) -> (r: String)
    ensures
        r@ == longer_multiline(preferred@, other@),
{
    let p = to_chars(preferred);
    let o = to_chars(other);
    let picked = pick_longer_chars(&p, &o);
    proof {
        assert(p@.subrange(0, p@.len() as int) =~= p@);
        assert(o@.subrange(0, o@.len() as int) =~= o@);
    }
    string_from_chars(&picked)
}

/// The normalised text, when it is not empty.
pub open spec fn nonempty_normalized(t: Option<Seq<char>>) -> Option<Seq<char>> {
    match t {
        Some(s) => if normalized_text(s).len() > 0 {
            Some(normalized_text(s))
        } else {
            None
        },
        None => None,
    }
}

/// The text a selection comes to from what the accessibility API (`ax`) and a
/// simulated copy (`copy`) gave: a copied text with a line break wins; a copied
/// text longer than a one-line accessibility text wins; otherwise the longer of the
/// two, with the copied text preferred.
pub open spec fn best_selection(ax: Option<Seq<char>>, copy: Option<Seq<char>>) -> Option<Seq<char>> {
    let a = nonempty_normalized(ax);
    let c = nonempty_normalized(copy);
    match (a, c) {
        (_, Some(y)) if y.contains('\n') => Some(y),
        (Some(x), Some(y)) if !x.contains('\n') && y.len() > x.len() => Some(y),
        (Some(x), Some(y)) => Some(longer_multiline(y, x)),
        (Some(x), None) => Some(x),
        (None, Some(y)) => Some(y),
        (None, None) => None,
    }
}

/// `r` is the outcome that the text `t` (or no text) makes.
pub open spec fn outcome_for(t: Option<Seq<char>>, r: SelectionOutcome) -> bool {
    match t {
        Some(s) => r matches SelectionOutcome::Text(x) && x@ == s,
        None => r is Empty,
    }
}

fn nonempty_normalized_chars(t: Option<String>) -> (r: Option<Vec<char>>)
    ensures
        match r {
            Some(v) => nonempty_normalized(t.deep_view()) == Some(v@),
            None => nonempty_normalized(t.deep_view()) is None,
        },
{
    match t {
        Some(s) => {
            let chars = to_chars(s.as_str());
            let n = normalize_chars(&chars);
            if n.len() > 0 {
                Some(n)
            } else {
                None
            }
        },
        None => None,
    }
}

/// Merges the accessibility reading and the copied text. In browsers a multi-line
/// selection is taken from the clipboard.
pub fn pick_best_selection(ax: Option<String>, copy: Option<String>) -> (r: SelectionOutcome)
    ensures
        outcome_for(best_selection(ax.deep_view(), copy.deep_view()), r),
{
    let ghost ax_v = ax.deep_view();
    let ghost copy_v = copy.deep_view();
    let ax_n = nonempty_normalized_chars(ax);
    let copy_n = nonempty_normalized_chars(copy);

    if let Some(c) = &copy_n {
        if contains_char(c, '\n') {
            return SelectionOutcome::Text(string_from_chars(c));
        }
    }
    if let (Some(a), Some(c)) = (&ax_n, &copy_n) {
        if !contains_char(a, '\n') && c.len() > a.len() {
            return SelectionOutcome::Text(string_from_chars(c));
        }
    }
    let best: Vec<char> = match (&ax_n, &copy_n) {
        (Some(a), Some(c)) => pick_longer_chars(c, a),
        (Some(a), None) => copy_range(a, 0, a.len()),
        (None, Some(c)) => copy_range(c, 0, c.len()),
        (None, None) => Vec::new(),
    };
    proof {
        match (&ax_n, &copy_n) {
            (Some(a), None) => {
                assert(a@.subrange(0, a@.len() as int) =~= a@);
            },
            (None, Some(c)) => {
                assert(c@.subrange(0, c@.len() as int) =~= c@);
            },
            _ => {},
        }
    }
    if best.len() == 0 {
        SelectionOutcome::Empty
    } else {
        SelectionOutcome::Text(string_from_chars(&best))
    }
}


// ---------------------------------------------------------------------------
// Reading the selection
// ---------------------------------------------------------------------------

/// Reads the selection where the platform offers neither an accessibility API nor a
/// simulated copy: there is never anything to read.
pub fn fetch_selection() -> (r: SelectionOutcome)
    ensures
        r is Empty,
{
    SelectionOutcome::Empty
}

/// The selection after a simulated copy alone (no accessibility reading).
pub fn fetch_selection_from_copy(copy: Option<String>) -> (r: SelectionOutcome)
    ensures
        outcome_for(best_selection(None, copy.deep_view()), r),
{
    pick_best_selection(None, copy)
}

/// Whether this process may read other applications' selections. Without an
/// accessibility permission model, it always may.
pub fn is_process_trusted() -> (r: bool)
    ensures
        r,
{
    true
}

/// Asks the user for the accessibility permission. Without an accessibility
/// permission model there is nothing to ask.
pub fn request_trust_prompt() {
}

/// How long a simulated copy waits for the clipboard.
#[derive(Debug, Clone, Copy, PartialEq, Eq, Structural)]
pub enum CopyStrategy {
    /// Nothing seems selected: one short look at the clipboard.
    Quick,
    /// Something is selected: ask the focused element to copy, wait longer, and
    /// send the key presses a second way if the first gave nothing.
    Full,
}

/// Where reading a selection through the accessibility API stands.
pub enum FetchStep {
    /// Next: ask whether this process is trusted.
    CheckTrust,
    /// Next: read the selected text of the focused element.
    ReadAccessibility,
    /// Next: ask whether the focused element reports a non-empty selection range.
    ProbeSelectionRange { ax_text: Option<String> },
    /// Next: simulate a copy with the given strategy.
    Copy { strategy: CopyStrategy, ax_text: Option<String> },
    /// Finished.
    Done(SelectionOutcome),
}

/// What the outside work of a step gave.
pub enum FetchEvent {
    Trusted(bool),
    AccessibilityText(Option<String>),
    SelectionRange(bool),
    Copied(Option<String>),
}

/// The event answers the work that the step asks for.
pub open spec fn event_fits(step: FetchStep, event: FetchEvent) -> bool {
    match step {
        FetchStep::CheckTrust => event is Trusted,
        FetchStep::ReadAccessibility => event is AccessibilityText,
        FetchStep::ProbeSelectionRange { .. } => event is SelectionRange,
        FetchStep::Copy { .. } => event is Copied,
        FetchStep::Done(_) => false,
    }
}

/// The accessibility text shows a selection: it holds something besides white space.
pub open spec fn shows_text(t: Option<Seq<char>>) -> bool {
    match t {
        Some(s) => trim(s).len() > 0,
        None => false,
    }
}

fn has_visible_text(t: &Option<String>) -> (r: bool)
    ensures
        r == shows_text(t.deep_view()),
{
    match t {
        Some(s) => {
            let chars = to_chars(s.as_str());
            let trimmed = trim_chars(&chars);
            trimmed.len() > 0
        },
        None => false,
    }
}

/// `next` is where reading a selection goes from `step` on `event`: an untrusted
/// process is refused; accessibility text, or a selection range, leads to a full copy
/// (keeping the accessibility text); no sign of a selection leads to a quick copy; the
/// copy is merged with the accessibility text.
pub open spec fn step_follows(step: FetchStep, event: FetchEvent, next: FetchStep) -> bool {
    match (step, event) {
        (FetchStep::CheckTrust, FetchEvent::Trusted(trusted)) => if trusted {
            next is ReadAccessibility
        } else {
            next matches FetchStep::Done(o) && o is PermissionDenied
        },
        (FetchStep::ReadAccessibility, FetchEvent::AccessibilityText(t)) => if shows_text(
            t.deep_view(),
        ) {
            next matches FetchStep::Copy { strategy, ax_text } && strategy == CopyStrategy::Full
                && ax_text.deep_view() == t.deep_view()
        } else {
            next matches FetchStep::ProbeSelectionRange { ax_text } && ax_text.deep_view()
                == t.deep_view()
        },
        (FetchStep::ProbeSelectionRange { ax_text }, FetchEvent::SelectionRange(found)) => if found {
            next matches FetchStep::Copy { strategy, ax_text: a } && strategy
                == CopyStrategy::Full && a.deep_view() == ax_text.deep_view()
        } else {
            next matches FetchStep::Copy { strategy, ax_text: a } && strategy
                == CopyStrategy::Quick && a is None
        },
        (FetchStep::Copy { strategy, ax_text }, FetchEvent::Copied(c)) => next matches FetchStep::Done(
            o,
        ) && outcome_for(best_selection(ax_text.deep_view(), c.deep_view()), o),
        _ => false,
    }
}

/// How many more pieces of outside work reading a selection needs at most.
pub open spec fn steps_left(step: FetchStep) -> nat {
    match step {
        FetchStep::CheckTrust => 4,
        FetchStep::ReadAccessibility => 3,
        FetchStep::ProbeSelectionRange { .. } => 2,
        FetchStep::Copy { .. } => 1,
        FetchStep::Done(_) => 0,
    }
}

/// One decision of reading a selection: from where it stands and what the last piece
/// of outside work gave, where it goes next.
pub fn fetch_selection_step(step: FetchStep, event: FetchEvent) -> (next: FetchStep)
    requires
        event_fits(step, event),
    ensures
        step_follows(step, event, next),
{
    match (step, event) {
        (FetchStep::CheckTrust, FetchEvent::Trusted(trusted)) => {
            if trusted {
                FetchStep::ReadAccessibility
            } else {
                FetchStep::Done(SelectionOutcome::PermissionDenied)
            }
        },
        (FetchStep::ReadAccessibility, FetchEvent::AccessibilityText(t)) => {
            if has_visible_text(&t) {
                FetchStep::Copy { strategy: CopyStrategy::Full, ax_text: t }
            } else {
                FetchStep::ProbeSelectionRange { ax_text: t }
            }
        },
        (FetchStep::ProbeSelectionRange { ax_text }, FetchEvent::SelectionRange(found)) => {
            if found {
                FetchStep::Copy { strategy: CopyStrategy::Full, ax_text }
            } else {
                FetchStep::Copy { strategy: CopyStrategy::Quick, ax_text: None }
            }
        },
        (FetchStep::Copy { strategy, ax_text }, FetchEvent::Copied(c)) => {
            FetchStep::Done(pick_best_selection(ax_text, c))
        },
        (step, _) => step,
    }
}

/// How a simulated copy is carried out.
pub struct CopyPlan {
    /// Ask the focused element to copy before sending key presses.
    pub ax_copy_first: bool,
    /// The pauses, in milliseconds, before each look at the clipboard.
    pub poll_delays_ms: Vec<u64>,
    /// When the key presses sent to the focused application gave nothing, send them
    /// once more to the whole system.
    pub system_retry: bool,
}

pub fn copy_plan(strategy: CopyStrategy) -> (r: CopyPlan)
    ensures
        strategy == CopyStrategy::Quick ==> !r.ax_copy_first && !r.system_retry
            && r.poll_delays_ms@ == seq![50u64, 100u64],
        strategy == CopyStrategy::Full ==> r.ax_copy_first && r.system_retry
            && r.poll_delays_ms@ == seq![60u64, 100u64, 160u64, 240u64, 360u64, 480u64],
{
    match strategy {
        CopyStrategy::Quick => CopyPlan {
            ax_copy_first: false,
            poll_delays_ms: vec![50, 100],
            system_retry: false,
        },
        CopyStrategy::Full => CopyPlan {
            ax_copy_first: true,
            poll_delays_ms: vec![60, 100, 160, 240, 360, 480],
            system_retry: true,
        },
    }
}

/// How many elements, starting with the focused one and going up through its
/// parents, are asked for a selection.
pub const AX_PARENT_STEPS: usize = 12;

// ---------------------------------------------------------------------------
// Clipboard readings
// ---------------------------------------------------------------------------

/// The normalised pasteboard text after a copy, when there is one and the copy
/// changed the pasteboard (its change count, or its normalised text).
pub open spec fn pasteboard_change(
    before_count: int,
    after_count: int,
    before: Option<Seq<char>>,
    after: Option<Seq<char>>,
) -> Option<Seq<char>> {
    match after {
        None => None,
        Some(a) => {
            let an = normalized_text(a);
            if an.len() == 0 {
                None
            } else if after_count != before_count || !(before matches Some(b) && normalized_text(b)
                == an) {
                Some(an)
            } else {
                None
            }
        },
    }
}

pub fn pasteboard_text_if_changed(
    before_count: isize,
    after_count: isize,
    before: Option<String>,
    after: Option<String>,
) -> (r: Option<String>)
    ensures
        r.deep_view() == pasteboard_change(
            before_count as int,
            after_count as int,
            before.deep_view(),
            after.deep_view(),
        ),
{
    let after_s = match after {
        Some(a) => a,
        None => return None,
    };
    let after_chars = to_chars(after_s.as_str());
    let after_norm = normalize_chars(&after_chars);
    if after_norm.len() == 0 {
        return None;
    }
    let same_text = match before {
        Some(b) => {
            let b_chars = to_chars(b.as_str());
            let b_norm = normalize_chars(&b_chars);
            crate::text::chars_equal(&b_norm, &after_norm)
        },
        None => false,
    };
    if after_count != before_count || !same_text {
        Some(string_from_chars(&after_norm))
    } else {
        None
    }
}

/// The trimmed clipboard text after a simulated key-press copy, when there is one
/// and it differs from the trimmed text from before.
pub open spec fn clipboard_change(before: Option<Seq<char>>, after: Seq<char>) -> Option<Seq<char>> {
    let a = trim(after);
    if a.len() == 0 {
        None
    } else if before matches Some(b) && trim(b) == a {
        None
    } else {
        Some(a)
    }
}

pub fn clipboard_text_if_changed(before: &Option<String>, after: &str) -> (r: Option<String>)
    ensures
        r.deep_view() == clipboard_change(before.deep_view(), after@),
{
    let after_chars = to_chars(after);
    let a = trim_chars(&after_chars);
    if a.len() == 0 {
        return None;
    }
    let same = match before {
        Some(b) => {
            let b_chars = to_chars(b.as_str());
            let bt = trim_chars(&b_chars);
            crate::text::chars_equal(&bt, &a)
        },
        None => false,
    };
    if same {
        None
    } else {
        Some(string_from_chars(&a))
    }
}


// ---------------------------------------------------------------------------
// Accessibility readings
// ---------------------------------------------------------------------------

/// UTF-16 code units that `c` takes.
pub open spec fn utf16_width(c: char) -> int {
    if (c as u32) >= 0x10000 {
        2
    } else {
        1
    }
}

/// UTF-16 code units that `s` takes.
pub open spec fn utf16_len(s: Seq<char>) -> int
    decreases s.len(),
{
    if s.len() == 0 {
        0
    } else {
        utf16_width(s[0]) + utf16_len(s.drop_first())
    }
}

proof fn lemma_utf16_len_concat(a: Seq<char>, b: Seq<char>)
    ensures
        utf16_len(a + b) == utf16_len(a) + utf16_len(b),
    decreases a.len(),
{
    if a.len() == 0 {
        assert(a + b =~= b);
    } else {
        lemma_utf16_len_concat(a.drop_first(), b);
        assert((a + b).drop_first() =~= a.drop_first() + b);
        assert((a + b)[0] == a[0]);
    }
}

proof fn lemma_char_index_at_unit(s: Seq<char>, unit: int)
    ensures
        char_index_at_unit(s, unit) matches Some(i) ==> 0 <= i <= s.len() && utf16_len(
            s.take(i),
        ) == unit,
    decreases s.len(),
{
    if unit == 0 {
        assert(s.take(0) =~= Seq::<char>::empty());
    } else if unit > 0 && s.len() > 0 {
        let t = s.drop_first();
        lemma_char_index_at_unit(t, unit - utf16_width(s[0]));
        if let Some(k) = char_index_at_unit(t, unit - utf16_width(s[0])) {
            assert(s.take(k + 1).drop_first() =~= t.take(k));
            assert(s.take(k + 1)[0] == s[0]);
        }
    }
}

/// The index of the character at which UTF-16 offset `unit` falls between two
/// characters of `s`, if it does.
pub open spec fn char_index_at_unit(s: Seq<char>, unit: int) -> Option<int>
    decreases s.len(),
{
    if unit < 0 {
        None
    } else if unit == 0 {
        Some(0)
    } else if s.len() == 0 {
        None
    } else {
        match char_index_at_unit(s.drop_first(), unit - utf16_width(s[0])) {
            Some(k) => Some(k + 1),
            None => None,
        }
    }
}

pub open spec fn shifted(i: Option<int>, by: int) -> Option<int> {
    match i {
        Some(k) => Some(k + by),
        None => None,
    }
}

/// The text between UTF-16 offsets `location` and `location + length` of `s`, when
/// both fall between characters and it is not empty.
pub open spec fn utf16_substring(s: Seq<char>, location: int, length: int) -> Option<Seq<char>> {
    if length == 0 {
        None
    } else {
        match (char_index_at_unit(s, location), char_index_at_unit(s, location + length)) {
            (Some(i), Some(j)) => if i < j {
                Some(s.subrange(i, j))
            } else {
                None
            },
            _ => None,
        }
    }
}

fn utf16_width_of(c: char) -> (w: u8)
    ensures
        w == utf16_width(c),
{
    if (c as u32) >= 0x10000 {
        2
    } else {
        1
    }
}

/// Walks `s` from character `start` (at UTF-16 offset `offset`) until the offset
/// reaches `target` or the text ends.
fn advance_to_unit(s: &[char], start: usize, offset: u128, target: u128) -> (r: (usize, u128))
    requires
        start <= s@.len(),
        offset <= target <= 0x1_0000_0000_0000_0000_0000u128,
        forall|u: int|
            offset <= u ==> #[trigger] char_index_at_unit(s@, u) == shifted(
                char_index_at_unit(s@.skip(start as int), u - offset),
                start as int,
            ),
    ensures
        start <= r.0 <= s@.len(),
        r.1 >= offset,
        r.1 == target ==> char_index_at_unit(s@, target as int) == Some(r.0 as int),
        r.1 != target ==> char_index_at_unit(s@, target as int) is None,
        forall|u: int|
            r.1 <= u ==> #[trigger] char_index_at_unit(s@, u) == shifted(
                char_index_at_unit(s@.skip(r.0 as int), u - r.1),
                r.0 as int,
            ),
        r.1 > offset ==> r.0 > start,
{
    let mut i = start;
    let mut off = offset;
    while i < s.len() && off < target
        invariant
            start <= i <= s@.len(),
            offset <= off,
            off <= target + 1,
            target <= 0x1_0000_0000_0000_0000_0000u128,
            off > offset ==> i > start,
            off > target ==> char_index_at_unit(s@, target as int) is None,
            forall|u: int|
                off <= u ==> #[trigger] char_index_at_unit(s@, u) == shifted(
                    char_index_at_unit(s@.skip(i as int), u - off),
                    i as int,
                ),
        decreases s@.len() - i,
    {
        let w = utf16_width_of(s[i]);
        proof {
            let rest = s@.skip(i as int);
            assert(rest[0] == s@[i as int]);
            assert(rest.drop_first() =~= s@.skip(i + 1));
            assert forall|u: int| off + w <= u implies #[trigger] char_index_at_unit(s@, u)
                == shifted(char_index_at_unit(s@.skip(i + 1), u - (off + w)), i + 1) by {
                assert(char_index_at_unit(s@, u) == shifted(
                    char_index_at_unit(rest, u - off),
                    i as int,
                ));
            }
            if off + w > target {
                let t = target as int;
                assert(char_index_at_unit(s@, t) == shifted(
                    char_index_at_unit(rest, t - off),
                    i as int,
                ));
                assert(char_index_at_unit(rest.drop_first(), t - off - w) is None);
            }
        }
        off = off + w as u128;
        i = i + 1;
    }
    proof {
        let t = target as int;
        if off <= t {
            assert(char_index_at_unit(s@, t) == shifted(
                char_index_at_unit(s@.skip(i as int), t - off),
                i as int,
            ));
            if off < t {
                assert(s@.skip(i as int).len() == 0);
            }
        }
    }
    (i, off)
}


/// The text between UTF-16 offsets `location` and `location + length` of `s`
/// (accessibility ranges count UTF-16 code units, as `NSString` does).
pub fn substring_utf16(s: &str, location: usize, length: usize) -> (r: Option<String>)
    ensures
        r.deep_view() == utf16_substring(s@, location as int, length as int),
{
    if length == 0 {
        return None;
    }
    let chars = to_chars(s);
    let start_unit = location as u128;
    let end_unit = start_unit + length as u128;
    proof {
        assert(chars@.skip(0) =~= chars@);
    }
    let (i, off) = advance_to_unit(&chars, 0, 0, start_unit);
    if off != start_unit {
        return None;
    }
    let (j, off2) = advance_to_unit(&chars, i, off, end_unit);
    if off2 != end_unit {
        return None;
    }
    let piece = copy_range(&chars, i, j);
    Some(string_from_chars(&piece))
}

/// The text an accessibility range (`location`, `length`, in UTF-16 code units)
/// selects in the element's full text.
pub open spec fn range_text(full: Seq<char>, location: int, length: int) -> Option<Seq<char>> {
    if location < 0 || length <= 0 {
        None
    } else {
        utf16_substring(full, location, length)
    }
}

pub fn selected_range_text(full: &str, location: isize, length: isize) -> (r: Option<String>)
    ensures
        r.deep_view() == range_text(full@, location as int, length as int),
{
    if location < 0 || length <= 0 {
        return None;
    }
    substring_utf16(full, location as usize, length as usize)
}

/// What one element shows as selected: the text of its selected range and its
/// selected-text attribute (an empty one counts as none), the longer multi-line one
/// when it has both.
pub open spec fn element_selection(
    from_range: Option<Seq<char>>,
    selected: Option<Seq<char>>,
) -> Option<Seq<char>> {
    let sel = match selected {
        Some(x) => if x.len() == 0 {
            None
        } else {
            Some(x)
        },
        None => None,
    };
    match (from_range, sel) {
        (Some(r), Some(x)) => Some(longer_multiline(r, x)),
        (Some(r), None) => Some(r),
        (None, Some(x)) => Some(x),
        (None, None) => None,
    }
}

pub fn element_selected_text(from_range: Option<String>, selected: Option<String>) -> (r: Option<
    String,
>)
    ensures
        r.deep_view() == element_selection(from_range.deep_view(), selected.deep_view()),
{
    let sel = match selected {
        Some(x) => if x.as_str().is_empty() {
            None
        } else {
            Some(x)
        },
        None => None,
    };
    match (from_range, sel) {
        (Some(r), Some(x)) => Some(pick_longer_multiline(r.as_str(), x.as_str())),
        (Some(r), None) => Some(r),
        (None, Some(x)) => Some(x),
        (None, None) => None,
    }
}


// ---------------------------------------------------------------------------
// Laws
// ---------------------------------------------------------------------------

/// Every step of reading a selection brings it closer to the end: from the start it is
/// done after at most four pieces of outside work.
pub proof fn law_fetch_selection_ends(step: FetchStep, event: FetchEvent, next: FetchStep)
    requires
        event_fits(step, event),
        step_follows(step, event, next),
    ensures
        steps_left(next) < steps_left(step),
        steps_left(FetchStep::CheckTrust) == 4,
{
}

/// A text taken out by a UTF-16 range is exactly as long, in UTF-16 code units, as the
/// range, and is never empty.
pub proof fn law_utf16_substring_length(s: Seq<char>, location: int, length: int)
    ensures
        utf16_substring(s, location, length) matches Some(t) ==> t.len() > 0 && utf16_len(t)
            == length,
{
    if let Some(t) = utf16_substring(s, location, length) {
        let i = char_index_at_unit(s, location).unwrap();
        let j = char_index_at_unit(s, location + length).unwrap();
        lemma_char_index_at_unit(s, location);
        lemma_char_index_at_unit(s, location + length);
        assert(s.take(j) =~= s.take(i) + s.subrange(i, j));
        lemma_utf16_len_concat(s.take(i), s.subrange(i, j));
    }
}

/// Normalising line endings leaves no `'\r'` behind, and doing it again changes
/// nothing.
pub proof fn law_line_endings_normalized(s: Seq<char>)
    ensures
        !remove_cr(s).contains('\r'),
        remove_cr(remove_cr(s)) == remove_cr(s),
{
    lemma_remove_cr_no_cr(s);
    lemma_remove_cr_identity(remove_cr(s));
}

/// A normalised text has at most `MAX_CHARS` characters, holds no `'\r'` and does
/// not start with white space.
pub proof fn law_normalized_shape(s: Seq<char>)
    ensures
        normalized_text(s).len() <= MAX_CHARS,
        !normalized_text(s).contains('\r'),
        normalized_text(s).len() > 0 ==> !is_white_space(normalized_text(s)[0]),
{
    let x = remove_cr(s);
    lemma_remove_cr_no_cr(s);
    let start = lemma_trim_shape(x);
    let t = trim(x);
    let n = normalized_text(s);
    assert forall|k: int| 0 <= k < n.len() implies n[k] != '\r' by {
        assert(n[k] == t[k]);
        assert(t[k] == x[start + k]);
        if x[start + k] == '\r' {
            assert(x.contains('\r'));
        }
    }
    if n.len() > 0 {
        assert(n[0] == t[0]);
    }
}

/// Normalising twice is normalising once, for every text whose trimmed form fits in
/// `MAX_CHARS` characters.
pub proof fn law_normalize_idempotent(s: Seq<char>)
    requires
        trim(remove_cr(s)).len() <= MAX_CHARS,
    ensures
        normalized_text(normalized_text(s)) == normalized_text(s),
{
    let t = trim(remove_cr(s));
    law_normalized_shape(s);
    lemma_remove_cr_identity(t);
    lemma_trim_idempotent(remove_cr(s));
}

/// Of two readings, `longer_multiline` keeps one of them, and never gives up line
/// breaks that only the preferred one has.
pub proof fn law_longer_multiline(preferred: Seq<char>, other: Seq<char>)
    ensures
        longer_multiline(preferred, other) == preferred || longer_multiline(preferred, other)
            == other,
        preferred.contains('\n') && !other.contains('\n') ==> longer_multiline(preferred, other)
            == preferred,
        longer_multiline(preferred, other).len() >= preferred.len() || longer_multiline(
            preferred,
            other,
        ).len() >= other.len(),
        other.len() > preferred.len() && (other.contains('\n') || !preferred.contains('\n'))
            ==> longer_multiline(preferred, other) == other,
        other.len() <= preferred.len() ==> longer_multiline(preferred, other) == preferred,
{
}

/// An untrusted process is refused at once; a trusted one goes on to read the
/// accessibility text.
pub proof fn law_trust_step(trusted: bool, next: FetchStep)
    requires
        step_follows(FetchStep::CheckTrust, FetchEvent::Trusted(trusted), next),
    ensures
        !trusted ==> (match next {
            FetchStep::Done(SelectionOutcome::PermissionDenied) => true,
            _ => false,
        }),
        trusted ==> (match next {
            FetchStep::ReadAccessibility => true,
            _ => false,
        }),
{
}

/// Merging two readings gives no text only when both are empty once normalised;
/// otherwise a non-empty normalised text of one of them, of at most `MAX_CHARS`
/// characters; and a copied text with a line break always wins.
pub proof fn law_best_selection(ax: Option<Seq<char>>, copy: Option<Seq<char>>)
    ensures
        best_selection(ax, copy) is None <==> (nonempty_normalized(ax) is None
            && nonempty_normalized(copy) is None),
        best_selection(ax, copy) matches Some(t) ==> t.len() > 0 && t.len() <= MAX_CHARS && (
        Some(t) == nonempty_normalized(ax) || Some(t) == nonempty_normalized(copy)),
        (nonempty_normalized(copy) matches Some(c) && c.contains('\n')) ==> best_selection(
            ax,
            copy,
        ) == nonempty_normalized(copy),
{
    if let Some(a) = ax {
        law_normalized_shape(a);
    }
    if let Some(c) = copy {
        law_normalized_shape(c);
    }
}


/// `next` has finished with the text `t`.
pub open spec fn done_with_text(next: FetchStep, t: Seq<char>) -> bool {
    match next {
        FetchStep::Done(SelectionOutcome::Text(x)) => x@ == t,
        _ => false,
    }
}

/// `next` has finished with nothing selected.
pub open spec fn done_empty(next: FetchStep) -> bool {
    match next {
        FetchStep::Done(SelectionOutcome::Empty) => true,
        _ => false,
    }
}

/// After the copy, the outcome merges the accessibility text that the copy step carried
/// with the copied text: when the copy gave nothing, a non-empty accessibility text is
/// the outcome; without an accessibility text, the copied text is; a copied text with a
/// line break always wins; with neither, nothing is selected.
pub proof fn law_copy_step_merges(
    strategy: CopyStrategy,
    ax: Option<String>,
    c: Option<String>,
    next: FetchStep,
)
    requires
        step_follows(FetchStep::Copy { strategy, ax_text: ax }, FetchEvent::Copied(c), next),
    ensures
        match (ax, c) {
            (Some(a), None) => normalized_text(a@).len() > 0 ==> done_with_text(
                next,
                normalized_text(a@),
            ),
            (None, Some(b)) => normalized_text(b@).len() > 0 ==> done_with_text(
                next,
                normalized_text(b@),
            ),
            _ => true,
        },
        c matches Some(b) ==> (normalized_text(b@).contains('\n') ==> done_with_text(
            next,
            normalized_text(b@),
        )),
        (ax matches Some(a) ==> normalized_text(a@).len() == 0) ==> (c matches Some(b)
            ==> normalized_text(b@).len() == 0) ==> done_empty(next),
{
}

/// A text that does not normalise to nothing shows a selection.
proof fn lemma_normalized_shows(a: Seq<char>)
    requires
        normalized_text(a).len() > 0,
    ensures
        trim(a).len() > 0,
{
    let x = remove_cr(a);
    let start = lemma_trim_shape(x);
    let t = trim(x);
    assert(t.len() > 0);
    let c = t[0];
    assert(x[start] == c);
    assert(!is_white_space(c));
    assert(x.contains(c));
    lemma_remove_cr_members(a);
    assert(a.contains(c));
    let k = choose|k: int| 0 <= k < a.len() && a[k] == c;
    let st = lemma_trim_shape(a);
    if trim(a).len() == 0 {
        assert(is_white_space(a[k]));
    }
}

/// A selection that the accessibility API reads is the outcome when the copy that
/// follows gives nothing, whether the reading itself or a selection range led to the
/// copy; when neither shows a selection, the quick copy alone decides.
pub proof fn law_accessibility_text_kept(
    a: String,
    found: bool,
    next1: FetchStep,
    next2: FetchStep,
    next3: FetchStep,
)
    requires
        normalized_text(a@).len() > 0,
        step_follows(FetchStep::ReadAccessibility, FetchEvent::AccessibilityText(Some(a)), next1),
        event_fits(next1, FetchEvent::Copied(None)),
        step_follows(next1, FetchEvent::Copied(None), next2),
        step_follows(
            FetchStep::ProbeSelectionRange { ax_text: Some(a) },
            FetchEvent::SelectionRange(found),
            next3,
        ),
    ensures
        done_with_text(next2, normalized_text(a@)),
        found ==> (forall|n: FetchStep| #[trigger]
            step_follows(next3, FetchEvent::Copied(None), n) ==> done_with_text(
                n,
                normalized_text(a@),
            )),
        !found ==> (forall|n: FetchStep| #[trigger]
            step_follows(next3, FetchEvent::Copied(None), n) ==> done_empty(n)),
{
    lemma_normalized_shows(a@);
}

} // verus!

