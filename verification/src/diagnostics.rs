//! Showing where a TOML text went wrong.

use crate::seqs::first_place;
use crate::text::{append_from, chars_of, decimal, push_decimal, string_of};
use vstd::prelude::*;

verus! {

/// `toml::de::Error`, which says why and where a text could not be read.
#[verifier::external_type_specification]
#[verifier::external_body]
pub struct ExTomlReadError(toml::de::Error);

/// `toml::de::Error::line_col`: the line and the column of the failure, both
/// counted from zero, where the reader knows them.
pub assume_specification[ toml::de::Error::line_col ](error: &toml::de::Error) -> Option<
    (usize, usize),
>;

/// The `Display` text of a `toml::de::Error`. Nothing is said of its wording.
#[verifier::external_body]
pub(crate) fn reader_message(error: &toml::de::Error) -> (message: String) {
    format!("{}", error)
}

/// The first character of the upper-case form that the standard library
/// gives to a character.
pub uninterp spec fn upper_case(c: char) -> char;

/// `char::to_uppercase`, of which the first character is taken.
#[verifier::external_body]
pub(crate) fn to_upper_case(c: char) -> (upper: char)
    ensures
        upper == upper_case(c),
{
    c.to_uppercase().next().unwrap_or(c)
}

/// The line of `content` with the given number, counted from zero; lines
/// are parted by line feeds. `None` where the content has fewer lines.
pub open spec fn line_at(content: Seq<char>, line: nat) -> Option<Seq<char>>
    decreases line,
{
    let end = first_place(content, '\n');
    if line == 0 {
        Some(content.take(end))
    } else if end >= content.len() {
        None
    } else {
        line_at(content.skip(end + 1), (line - 1) as nat)
    }
}

/// A run of `count` spaces.
pub open spec fn spaces(count: nat) -> Seq<char> {
    Seq::new(count, |i: int| ' ')
}

/// The message with its first character in upper case, the place of the
/// failure, and the line that failed with a mark under the column.
pub open spec fn error_view(
    file: Seq<char>,
    such_line: Seq<char>,
    message: Seq<char>,
    line: nat,
    column: nat,
) -> Seq<char> {
    let margin = spaces(decimal(line).len());
    seq![upper_case(message[0])] + message.skip(1) + "\n -> "@ + file + seq![':'] + decimal(
        line + 1,
    ) + seq![':'] + decimal(column + 1) + seq!['\n'] + margin + "   |\n"@ + seq![' '] + decimal(
        line + 1,
    ) + "  | "@ + such_line + seq!['\n'] + margin + "   | "@ + spaces(column) + seq!['^']
}

/// The line of `content` with the given number.
pub fn line_of(content: &Vec<char>, line: usize) -> (r: Option<Vec<char>>)
    ensures
        match r {
            Some(found) => line_at(content@, line as nat) == Some(found@),
            None => line_at(content@, line as nat) is None,
        },
{
    let mut start: usize = 0;
    let mut left: usize = line;
    assert(content@.skip(0) =~= content@);
    loop
        invariant
            start <= content.len(),
            left <= line,
            line_at(content@, line as nat) == line_at(content@.skip(start as int), left as nat),
        decreases left, content.len() - start,
    {
        // Find the end of the line that starts here.
        let ghost rest = content@.skip(start as int);
        let mut end: usize = start;
        assert(rest.skip(0) =~= rest);
        while end < content.len() && content[end] != '\n'
            invariant
                start <= end <= content.len(),
                rest == content@.skip(start as int),
                first_place(rest, '\n') == (end - start) + first_place(
                    rest.skip(end - start),
                    '\n',
                ),
            decreases content.len() - end,
        {
            assert(rest.skip(end - start)[0] == content@[end as int]);
            assert(rest.skip(end - start).skip(1) =~= rest.skip(end - start + 1));
            end = end + 1;
        }
        proof {
            if end < content.len() {
                assert(rest.skip(end - start)[0] == content@[end as int]);
            }
            assert(first_place(rest, '\n') == end - start);
        }
        if left == 0 {
            let mut found: Vec<char> = Vec::new();
            let mut k: usize = start;
            while k < end
                invariant
                    start <= k <= end <= content.len(),
                    found@ == content@.subrange(start as int, k as int),
                decreases end - k,
            {
                found.push(content[k]);
                k = k + 1;
                assert(found@ =~= content@.subrange(start as int, k as int));
            }
            assert(found@ =~= rest.take(end - start));
            return Some(found);
        }
        if end >= content.len() {
            return None;
        }
        assert(rest.skip(end - start + 1) =~= content@.skip(end + 1));
        start = end + 1;
        left = left - 1;
    }
}

/// Appends `count` spaces to `out`.
pub fn push_spaces(out: &mut Vec<char>, count: usize)
    ensures
        final(out)@ == old(out)@ + spaces(count as nat),
{
    let mut i: usize = 0;
    assert(out@ =~= old(out)@ + spaces(0));
    while i < count
        invariant
            i <= count,
            out@ == old(out)@ + spaces(i as nat),
        decreases count - i,
    {
        out.push(' ');
        i = i + 1;
        assert(out@ =~= old(out)@ + spaces(i as nat));
    }
}

/// Appends a text to `out`.
pub fn push_text(out: &mut Vec<char>, text: &str)
    ensures
        final(out)@ == old(out)@ + text@,
{
    let chars = chars_of(text);
    append_from(out, &chars, 0);
    assert(chars@.skip(0) =~= chars@);
}

/// The view of a failure at the given place of a file: the message, the
/// place, and the line `such_line` with a mark under the column.
pub fn draw_error(file: &str, such_line: &Vec<char>, message: &str, line: usize, column: usize) -> (view:
    String)
    requires
        message@.len() > 0,
        line < usize::MAX,
        column < usize::MAX,
    ensures
        view@ == error_view(file@, such_line@, message@, line as nat, column as nat),
{
    let text = chars_of(message);
    let mut digits: Vec<char> = Vec::new();
    push_decimal(&mut digits, line as u64);
    assert(digits@ =~= decimal(line as nat));
    let margin = digits.len();
    let mut out: Vec<char> = Vec::new();
    out.push(to_upper_case(text[0]));
    append_from(&mut out, &text, 1);
    push_text(&mut out, "\n -> ");
    push_text(&mut out, file);
    out.push(':');
    push_decimal(&mut out, (line + 1) as u64);
    out.push(':');
    push_decimal(&mut out, (column + 1) as u64);
    out.push('\n');
    push_spaces(&mut out, margin);
    push_text(&mut out, "   |\n");
    out.push(' ');
    push_decimal(&mut out, (line + 1) as u64);
    push_text(&mut out, "  | ");
    append_from(&mut out, such_line, 0);
    assert(such_line@.skip(0) =~= such_line@);
    out.push('\n');
    push_spaces(&mut out, margin);
    push_text(&mut out, "   | ");
    push_spaces(&mut out, column);
    out.push('^');
    assert(out@ =~= error_view(file@, such_line@, message@, line as nat, column as nat));
    string_of(&out)
}

/// What is shown for a failure of the given message at the given place of
/// `content`: nothing where the place is unknown, else the view of the
/// failure under the line that failed. `None` where there is nothing to draw
/// from: an empty message, a line that the content does not have, or a place
/// at the end of the machine's numbers.
pub open spec fn rendered_error(
    file: Seq<char>,
    content: Seq<char>,
    message: Seq<char>,
    place: Option<(usize, usize)>,
) -> Option<Seq<char>> {
    match place {
        None => Some(Seq::empty()),
        Some((line, column)) => if message.len() == 0 || line == usize::MAX || column
            == usize::MAX || line_at(content, line as nat) is None {
            None
        } else {
            Some(
                error_view(
                    file,
                    line_at(content, line as nat)->0,
                    message,
                    line as nat,
                    column as nat,
                ),
            )
        },
    }
}

/// The text of a view, if there is one.
pub open spec fn view_text(view: Option<String>) -> Option<Seq<char>> {
    match view {
        Some(text) => Some(text@),
        None => None,
    }
}

/// What is shown for a failure of the given message at the given place of
/// `content`.
pub fn render_error(
    file: &str,
    content: &str,
    message: &str,
    place: Option<(usize, usize)>,
) -> (r: Option<String>)
    ensures
        view_text(r) == rendered_error(file@, content@, message@, place),
{
    match place {
        None => Some(String::new()),
        Some((line, column)) => {
            if message.unicode_len() == 0 || line == usize::MAX || column == usize::MAX {
                return None;
            }
            let chars = chars_of(content);
            match line_of(&chars, line) {
                Some(such_line) => Some(draw_error(file, &such_line, message, line, column)),
                None => None,
            }
        },
    }
}

/// What is shown for a failure to read the TOML text `content` of `file`:
/// the reader's message drawn at the place that the reader names, whatever
/// the two are.
pub fn render_toml_error(file: &str, content: String, error: toml::de::Error) -> (r: Option<String>)
    ensures
        exists|message: Seq<char>, place: Option<(usize, usize)>|
            view_text(r) == #[trigger] rendered_error(file@, content@, message, place),
{
    let message = reader_message(&error);
    let place = error.line_col();
    let r = render_error(file, content.as_str(), message.as_str(), place);
    assert(view_text(r) == rendered_error(file@, content@, message@, place));
    r
}

} // verus!
