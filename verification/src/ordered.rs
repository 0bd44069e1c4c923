//! The insertion-ordered map that holds a profile's parts, files and versions.
//!
//! The map itself is `linked_hash_map::LinkedHashMap`. The verifier cannot
//! look inside it, so what it holds is named here, and the few operations
//! that the library needs are stated over those names.

use crate::config::{File, FileModel, IntegerOrString, Part, PartModel, VersionValue};
use linked_hash_map::LinkedHashMap;
use vstd::prelude::*;

verus! {

/// `linked_hash_map::LinkedHashMap`, a hash map that remembers the order in
/// which its keys were inserted. Its inside is hidden from the verifier.
#[verifier::external_type_specification]
#[verifier::external_body]
#[verifier::reject_recursive_types(K)]
#[verifier::reject_recursive_types(V)]
#[verifier::reject_recursive_types(S)]
pub struct ExLinkedHashMap<K, V, S>(LinkedHashMap<K, V, S>);

/// A full version: every part's name with its value, most significant first.
pub type Version = LinkedHashMap<String, IntegerOrString<u64>>;

/// The parts that a map of parts holds, in insertion order.
pub uninterp spec fn part_entries(m: LinkedHashMap<String, Part>) -> Seq<(Seq<char>, PartModel)>;

/// The part values that a version holds, in insertion order.
pub uninterp spec fn version_entries(m: LinkedHashMap<String, IntegerOrString<u64>>) -> Seq<
    (Seq<char>, VersionValue),
>;

/// The files that a map of files holds, each with its rules, in insertion
/// order.
pub uninterp spec fn file_entries(m: LinkedHashMap<String, Vec<File>>) -> Seq<
    (Seq<char>, Seq<FileModel>),
>;

/// The views of a file's rules, in order.
pub open spec fn rules_view(rules: Seq<File>) -> Seq<FileModel> {
    Seq::new(rules.len(), |i: int| rules[i]@)
}

/// The names of the parts, in order.
pub open spec fn part_names(entries: Seq<(Seq<char>, PartModel)>) -> Seq<Seq<char>> {
    Seq::new(entries.len(), |i: int| entries[i].0)
}

/// The names of the files, in order.
pub open spec fn file_names(entries: Seq<(Seq<char>, Seq<FileModel>)>) -> Seq<Seq<char>> {
    Seq::new(entries.len(), |i: int| entries[i].0)
}

/// The entries without the one named `name`, the others in their order.
pub open spec fn without_name(entries: Seq<(Seq<char>, VersionValue)>, name: Seq<char>) -> Seq<
    (Seq<char>, VersionValue),
>
    decreases entries.len(),
{
    if entries.len() == 0 {
        entries
    } else if entries.last().0 == name {
        without_name(entries.drop_last(), name)
    } else {
        without_name(entries.drop_last(), name).push(entries.last())
    }
}

/// Taking out a name that is not there changes nothing.
pub proof fn without_absent_name(entries: Seq<(Seq<char>, VersionValue)>, name: Seq<char>)
    requires
        forall|i: int| 0 <= i < entries.len() ==> entries[i].0 != name,
    ensures
        without_name(entries, name) == entries,
    decreases entries.len(),
{
    if entries.len() > 0 {
        without_absent_name(entries.drop_last(), name);
        assert(entries.drop_last().push(entries.last()) =~= entries);
    }
}

/// `LinkedHashMap::iter`, collected: the parts with their names, in insertion
/// order. No name comes twice, since the map holds one entry for a key.
#[verifier::external_body]
pub(crate) fn part_pairs<'a>(m: &'a LinkedHashMap<String, Part>) -> (v: Vec<(&'a String, &'a Part)>)
    ensures
        v@.len() == part_entries(*m).len(),
        forall|i: int|
            0 <= i < v@.len() ==> (#[trigger] v@[i]).0@ == part_entries(*m)[i].0 && v@[i].1@
                == part_entries(*m)[i].1,
        forall|i: int, j: int| 0 <= i < j < v@.len() ==> (#[trigger] v@[i]).0@ != (#[trigger] v@[j]).0@,
{
    m.iter().collect()
}

/// `LinkedHashMap::iter`, collected: the part values of a version with their
/// names, in insertion order. No name comes twice.
#[verifier::external_body]
pub(crate) fn version_pairs<'a>(m: &'a Version) -> (v: Vec<(&'a String, &'a IntegerOrString<u64>)>)
    ensures
        v@.len() == version_entries(*m).len(),
        forall|i: int|
            0 <= i < v@.len() ==> (#[trigger] v@[i]).0@ == version_entries(*m)[i].0 && v@[i].1@
                == version_entries(*m)[i].1,
        forall|i: int, j: int| 0 <= i < j < v@.len() ==> (#[trigger] v@[i]).0@ != (#[trigger] v@[j]).0@,
{
    m.iter().collect()
}

/// `LinkedHashMap::iter`, collected: the files with their rules, in insertion
/// order. No file name comes twice.
#[verifier::external_body]
pub(crate) fn file_pairs<'a>(m: &'a LinkedHashMap<String, Vec<File>>) -> (v: Vec<
    (&'a String, &'a Vec<File>),
>)
    ensures
        v@.len() == file_entries(*m).len(),
        forall|i: int|
            0 <= i < v@.len() ==> (#[trigger] v@[i]).0@ == file_entries(*m)[i].0 && rules_view(
                v@[i].1@,
            ) == file_entries(*m)[i].1,
        forall|i: int, j: int| 0 <= i < j < v@.len() ==> (#[trigger] v@[i]).0@ != (#[trigger] v@[j]).0@,
{
    m.iter().collect()
}

/// `LinkedHashMap::new`: a version that holds nothing yet.
#[verifier::external_body]
pub(crate) fn empty_version() -> (m: Version)
    ensures
        version_entries(m) == Seq::<(Seq<char>, VersionValue)>::empty(),
{
    LinkedHashMap::new()
}

/// `LinkedHashMap::insert`: the entry comes last; an entry that the map held
/// under the same name leaves, and the others keep their order.
#[verifier::external_body]
pub(crate) fn insert_value(m: &mut Version, name: String, value: IntegerOrString<u64>)
    ensures
        version_entries(*final(m)) == without_name(version_entries(*old(m)), name@).push(
            (name@, value@),
        ),
{
    m.insert(name, value);
}

} // verus!
