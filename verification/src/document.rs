//! The profile as a TOML document whose layout survives an edit.

use toml_edit::{Document, TomlError};
use vstd::prelude::*;

verus! {

/// `toml_edit::Document`, a parsed TOML document that keeps comments, order
/// and spacing. Its inside is hidden from the verifier.
#[verifier::external_type_specification]
#[verifier::external_body]
pub struct ExDocument(Document);

/// `toml_edit::TomlError`, which says why a text is no TOML.
#[verifier::external_type_specification]
#[verifier::external_body]
pub struct ExTomlError(TomlError);

/// Whether a text is a TOML document, as `toml_edit` reads it.
pub uninterp spec fn is_toml(text: Seq<char>) -> bool;

/// `Document::from_str`, reached through `str::parse`: the document of a
/// text that is TOML, the parser's complaint for any other text.
#[verifier::external_body]
pub(crate) fn parse_document(text: &str) -> (r: Result<Document, TomlError>)
    ensures
        r is Ok == is_toml(text@),
{
    text.parse::<Document>()
}

/// `TomlError`'s `to_string`: the parser's complaint as text. Nothing is
/// said of the wording.
#[verifier::external_body]
pub(crate) fn complaint_text(error: &TomlError) -> (text: String) {
    error.to_string()
}

/// Whether the document has a place for a value under the key `key` of the
/// entry `entry` of the table `table`: on the way from the root, neither
/// what stands under `table` nor what stands under `entry` is anything but
/// a table, an inline table, or nothing yet.
pub uninterp spec fn has_place(
    doc: Document,
    table: Seq<char>,
    entry: Seq<char>,
    key: Seq<char>,
) -> bool;

/// The integer that the document holds under the key `key` of the entry
/// `entry` of the table `table`, if it holds an integer there.
pub uninterp spec fn kept_number(
    doc: Document,
    table: Seq<char>,
    entry: Seq<char>,
    key: Seq<char>,
) -> Option<int>;

/// The string that the document holds under the key `key` of the entry
/// `entry` of the table `table`, if it holds a string there.
pub uninterp spec fn kept_text(
    doc: Document,
    table: Seq<char>,
    entry: Seq<char>,
    key: Seq<char>,
) -> Option<Seq<char>>;

/// Whether two documents agree on one place: on whether there is room for
/// a value, and on the integer or the string that is held there.
pub open spec fn same_at(
    before: Document,
    after: Document,
    table: Seq<char>,
    entry: Seq<char>,
    key: Seq<char>,
) -> bool {
    &&& has_place(after, table, entry, key) == has_place(before, table, entry, key)
    &&& kept_number(after, table, entry, key) == kept_number(before, table, entry, key)
    &&& kept_text(after, table, entry, key) == kept_text(before, table, entry, key)
}

/// `toml_edit::Item::get_mut` from the document's root down the three keys,
/// then `toml_edit::value` for the integer, put in that place. A key that
/// is missing on the way is made, so the place is reached unless something
/// other than a table stands on the way; the result says whether it was
/// reached. Where it was, the document holds the integer there. Under the
/// same table and key, every other entry is as before.
#[verifier::external_body]
pub(crate) fn store_integer(
    doc: &mut Document,
    table: &str,
    entry: &str,
    key: &str,
    number: i64,
) -> (stored: bool)
    ensures
        stored == has_place(*old(doc), table@, entry@, key@),
        stored ==> kept_number(*final(doc), table@, entry@, key@) == Some(number as int),
        forall|other: Seq<char>|
            other != entry@ ==> #[trigger] same_at(*old(doc), *final(doc), table@, other, key@),
{
    let found = doc.as_item_mut().get_mut(table);
    match found.and_then(|found| found.get_mut(entry)).and_then(|found| found.get_mut(key)) {
        Some(slot) => {
            *slot = toml_edit::value(number);
            true
        },
        None => false,
    }
}

/// `toml_edit::Item::get_mut` from the document's root down the three keys,
/// then `toml_edit::value` for the string, put in that place. A key that is
/// missing on the way is made, so the place is reached unless something
/// other than a table stands on the way; the result says whether it was
/// reached. Where it was, the document holds the string there. Under the
/// same table and key, every other entry is as before.
#[verifier::external_body]
pub(crate) fn store_text(
    doc: &mut Document,
    table: &str,
    entry: &str,
    key: &str,
    text: String,
) -> (stored: bool)
    ensures
        stored == has_place(*old(doc), table@, entry@, key@),
        stored ==> kept_text(*final(doc), table@, entry@, key@) == Some(text@),
        forall|other: Seq<char>|
            other != entry@ ==> #[trigger] same_at(*old(doc), *final(doc), table@, other, key@),
{
    let found = doc.as_item_mut().get_mut(table);
    match found.and_then(|found| found.get_mut(entry)).and_then(|found| found.get_mut(key)) {
        Some(slot) => {
            *slot = toml_edit::value(text);
            true
        },
        None => false,
    }
}

} // verus!
