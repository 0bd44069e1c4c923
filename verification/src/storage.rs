//! Writing a new version back into the profile's document.

use crate::config::{IntegerOrString, VersionValue};
use crate::context::{ChangedVersion, ProfileContext};
use crate::document::{has_place, kept_number, kept_text, same_at, store_integer, store_text};
use crate::error::{CLIError, CmdResult, ErrorKind};
use crate::ordered::{version_entries, version_pairs};
use toml_edit::Document;
use vstd::prelude::*;

verus! {

/// Whether the document can keep the value: a string always, a number where
/// a signed 64-bit integer holds it.
pub open spec fn storable(value: VersionValue) -> bool {
    match value {
        VersionValue::Number(n) => n <= i64::MAX,
        VersionValue::Text(_) => true,
    }
}

/// Whether the document has a place for the value of the part called
/// `name`: under `parts`, the part's name and `value`.
pub open spec fn part_has_place(doc: Document, name: Seq<char>) -> bool {
    has_place(doc, "parts"@, name, "value"@)
}

/// Whether the document holds `value` as the value of the part called
/// `name`: a number as an integer, a string as a string.
pub open spec fn holds(doc: Document, name: Seq<char>, value: VersionValue) -> bool {
    match value {
        VersionValue::Number(n) => kept_number(doc, "parts"@, name, "value"@) == Some(n as int),
        VersionValue::Text(s) => kept_text(doc, "parts"@, name, "value"@) == Some(s),
    }
}

/// Whether entry `at` is the first one whose value the document cannot keep.
pub open spec fn first_unstorable(entries: Seq<(Seq<char>, VersionValue)>, at: int) -> bool {
    &&& 0 <= at < entries.len()
    &&& !storable(entries[at].1)
    &&& forall|k: int| 0 <= k < at ==> storable(#[trigger] entries[k].1)
}

/// Whether entry `at` is the first one for whose value the document has no
/// place.
pub open spec fn first_without_place(
    doc: Document,
    entries: Seq<(Seq<char>, VersionValue)>,
    at: int,
) -> bool {
    &&& 0 <= at < entries.len()
    &&& !part_has_place(doc, entries[at].0)
    &&& forall|k: int| 0 <= k < at ==> part_has_place(doc, #[trigger] entries[k].0)
}

/// Whether the document can keep every value and has a place for each.
pub open spec fn can_store(doc: Document, entries: Seq<(Seq<char>, VersionValue)>) -> bool {
    &&& forall|i: int| 0 <= i < entries.len() ==> storable(#[trigger] entries[i].1)
    &&& forall|i: int| 0 <= i < entries.len() ==> part_has_place(doc, #[trigger] entries[i].0)
}

/// The integer under which a part's number is kept in the document; `None`
/// for a number that no signed 64-bit integer holds.
pub fn integer_to_store(number: u64) -> (stored: Option<i64>)
    ensures
        match stored {
            Some(n) => n as int == number as int,
            None => number > i64::MAX,
        },
{
    if number <= 0x7fff_ffff_ffff_ffff {
        Some(number as i64)
    } else {
        None
    }
}

impl ProfileContext {
    /// Whether `r`, with the document as it is afterwards, is what storing
    /// the version `entries` in the document `before` gives. It succeeds
    /// exactly where the document can keep every value and has a place for
    /// each, and then holds every part's new value under the part's name. A
    /// number that is too large is refused before anything is stored: the
    /// failure names the first such part, and the document is as before.
    /// Else the failure names the first part without a place.
    pub open spec fn storage_outcome(
        before: Document,
        after: Document,
        entries: Seq<(Seq<char>, VersionValue)>,
        r: CmdResult,
    ) -> bool {
        match r {
            Ok(_) => {
                &&& can_store(before, entries)
                &&& forall|i: int|
                    0 <= i < entries.len() ==> holds(
                        after,
                        (#[trigger] entries[i]).0,
                        entries[i].1,
                    )
            },
            Err(e) => {
                ||| exists|at: int|
                    {
                        &&& #[trigger] first_unstorable(entries, at)
                        &&& e.is_of(ErrorKind::NumberTooLarge)
                        &&& e.context() == seq![("part"@, entries[at].0)]
                        &&& after == before
                    }
                ||| exists|at: int|
                    {
                        &&& forall|i: int|
                            0 <= i < entries.len() ==> storable(#[trigger] entries[i].1)
                        &&& #[trigger] first_without_place(before, entries, at)
                        &&& e.is_of(ErrorKind::Environment)
                        &&& e.context() == seq![("part"@, entries[at].0)]
                    }
            },
        }
    }

    /// Puts every value of the new version into the document, under the
    /// part's name. The model and the name of the profile stay as they are.
    pub fn update_storage(&mut self, changed_version: &ChangedVersion) -> (r: CmdResult)
        ensures
            final(self).profile_model == old(self).profile_model,
            final(self).profile_name == old(self).profile_name,
            r is Ok <==> can_store(old(self).profile_doc, version_entries(changed_version.new)),
            Self::storage_outcome(
                old(self).profile_doc,
                final(self).profile_doc,
                version_entries(changed_version.new),
                r,
            ),
    {
        let pairs = version_pairs(&changed_version.new);
        let ghost entries = version_entries(changed_version.new);
        let ghost before = self.profile_doc;
        // Nothing is stored unless the document can keep every number.
        let mut j: usize = 0;
        while j < pairs.len()
            invariant
                j <= pairs.len(),
                pairs@.len() == entries.len(),
                forall|i: int|
                    0 <= i < pairs@.len() ==> (#[trigger] pairs@[i]).0@ == entries[i].0
                        && pairs@[i].1@ == entries[i].1,
                forall|k: int| 0 <= k < j ==> storable(#[trigger] entries[k].1),
                entries == version_entries(changed_version.new),
                before == old(self).profile_doc,
                *self == *old(self),
            decreases pairs.len() - j,
        {
            let too_large = match pairs[j].1 {
                IntegerOrString::Integer(val) => integer_to_store(*val).is_none(),
                IntegerOrString::String(_) => false,
            };
            assert(entries[j as int].1 == pairs@[j as int].1@);
            if too_large {
                let e = CLIError::of(ErrorKind::NumberTooLarge).with("part", pairs[j].0.clone());
                assert(first_unstorable(entries, j as int));
                assert(e.context() =~= seq![("part"@, entries[j as int].0)]);
                return Err(e);
            }
            j = j + 1;
        }
        let mut j: usize = 0;
        while j < pairs.len()
            invariant
                j <= pairs.len(),
                pairs@.len() == entries.len(),
                forall|i: int|
                    0 <= i < pairs@.len() ==> (#[trigger] pairs@[i]).0@ == entries[i].0
                        && pairs@[i].1@ == entries[i].1,
                forall|i: int, k: int|
                    0 <= i < k < pairs@.len() ==> (#[trigger] pairs@[i]).0@ != (
                    #[trigger] pairs@[k]).0@,
                forall|k: int| 0 <= k < entries.len() ==> storable(#[trigger] entries[k].1),
                forall|k: int| 0 <= k < j ==> part_has_place(before, #[trigger] entries[k].0),
                forall|k: int|
                    0 <= k < j ==> holds(self.profile_doc, (#[trigger] entries[k]).0, entries[k].1),
                forall|k: int|
                    j <= k < entries.len() ==> part_has_place(
                        self.profile_doc,
                        #[trigger] entries[k].0,
                    ) == part_has_place(before, entries[k].0),
                entries == version_entries(changed_version.new),
                before == old(self).profile_doc,
                self.profile_model == old(self).profile_model,
                self.profile_name == old(self).profile_name,
            decreases pairs.len() - j,
        {
            let part = pairs[j].0;
            let ghost earlier = self.profile_doc;
            assert(entries[j as int].1 == pairs@[j as int].1@);
            assert(entries[j as int].0 == part@);
            let stored = match pairs[j].1 {
                IntegerOrString::Integer(val) => match integer_to_store(*val) {
                    Some(number) => store_integer(
                        &mut self.profile_doc,
                        "parts",
                        part.as_str(),
                        "value",
                        number,
                    ),
                    None => false,
                },
                IntegerOrString::String(val) => store_text(
                    &mut self.profile_doc,
                    "parts",
                    part.as_str(),
                    "value",
                    val.clone(),
                ),
            };
            assert(storable(entries[j as int].1));
            assert(stored == part_has_place(earlier, part@));
            if !stored {
                let e = CLIError::of(ErrorKind::Environment).with("part", part.clone());
                assert(first_without_place(before, entries, j as int));
                assert(e.context() =~= seq![("part"@, entries[j as int].0)]);
                return Err(e);
            }
            proof {
                assert forall|k: int| 0 <= k < entries.len() && k != j implies same_at(
                    earlier,
                    self.profile_doc,
                    "parts"@,
                    (#[trigger] entries[k]).0,
                    "value"@,
                ) by {
                    if k < j {
                        assert(pairs@[k].0@ != pairs@[j as int].0@);
                    } else {
                        assert(pairs@[j as int].0@ != pairs@[k].0@);
                    }
                }
            }
            j = j + 1;
        }
        Ok(())
    }
}

} // verus!
