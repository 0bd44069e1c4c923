//! Replacing the old version by the new one in the content of a file.

use crate::error::{CLIError, ErrorKind};
use crate::text::{
    chars_of, count_matches, cut_after, replace_first_keeps_rest, replace_first_replaces_exactly, occurrences_up_to, replace_all, replace_first, replace_limited,
    string_of,
};
use vstd::prelude::*;

verus! {

/// The content once a rule is applied to it. With an expected count, the
/// content must hold at least that many occurrences of `old`, and that many
/// are replaced, the leftmost ones. Without one it must hold at least one
/// occurrence, and all are replaced.
pub open spec fn replacement(
    content: Seq<char>,
    old: Seq<char>,
    new: Seq<char>,
    expected: Option<u64>,
) -> Result<Seq<char>, ErrorKind> {
    match expected {
        Some(n) => if count_matches(content, old) < n {
            Err(ErrorKind::InsufficientMatches)
        } else {
            Ok(replace_first(content, old, new, n as nat))
        },
        None => if count_matches(content, old) == 0 {
            Err(ErrorKind::OldVersionNotFound)
        } else {
            Ok(replace_all(content, old, new))
        },
    }
}

/// A rule that expects `n` occurrences and finds at least as many replaces
/// exactly `n` of them, the leftmost ones: the content loses the old text
/// and gains the new one `n` times, and what stands behind the last
/// replaced occurrence stays as it is, further occurrences included.
pub proof fn expected_count_replaces_leftmost(
    content: Seq<char>,
    old: Seq<char>,
    new: Seq<char>,
    n: u64,
)
    requires
        n <= count_matches(content, old),
    ensures
        replacement(content, old, new, Some(n)) is Ok,
        0 <= cut_after(content, old, n as nat) <= content.len(),
        replacement(content, old, new, Some(n))->Ok_0 == replace_first(
            content.take(cut_after(content, old, n as nat)),
            old,
            new,
            n as nat,
        ) + content.skip(cut_after(content, old, n as nat)),
        replacement(content, old, new, Some(n))->Ok_0.len() + n * old.len() == content.len() + n
            * new.len(),
{
    replace_first_keeps_rest(content, old, new, n as nat);
    replace_first_replaces_exactly(content, old, new, n as nat);
}

/// Whether `r` is what applying a rule to the content gives.
pub open spec fn replacement_outcome(
    content: Seq<char>,
    old: Seq<char>,
    new: Seq<char>,
    expected: Option<u64>,
    r: Result<String, CLIError>,
) -> bool {
    match r {
        Ok(changed) => replacement(content, old, new, expected) == Ok::<Seq<char>, ErrorKind>(
            changed@,
        ),
        Err(e) => replacement(content, old, new, expected) is Err && e.is_plain(
            replacement(content, old, new, expected)->Err_0,
        ),
    }
}

/// Applies one rule to the content of a file: replaces `old_part` by
/// `new_part`, as often as the rule expects.
pub fn replace_in_content(
    content: &str,
    old_part: &str,
    new_part: &str,
    replaces_count: Option<u64>,
) -> (r: Result<String, CLIError>)
    ensures
        replacement_outcome(content@, old_part@, new_part@, replaces_count, r),
{
    let text = chars_of(content);
    let old = chars_of(old_part);
    let new = chars_of(new_part);
    match replaces_count {
        Some(n) => {
            if occurrences_up_to(&text, &old, n) < n {
                return Err(CLIError::of(ErrorKind::InsufficientMatches));
            }
        },
        None => {
            if occurrences_up_to(&text, &old, 1) == 0 {
                return Err(CLIError::of(ErrorKind::OldVersionNotFound));
            }
        },
    }
    let changed = replace_limited(&text, &old, &new, replaces_count);
    Ok(string_of(&changed))
}

} // verus!
