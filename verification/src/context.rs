//! A loaded profile and what can be asked of it.

use crate::config::{IntegerOrString, Part, PartModel, ProfileConfig, VersionValue};
use crate::error::{CLIError, CmdResult, ErrorKind};
use crate::factory::{at_limit, default_of, default_of_part, next_of, next_of_part, part_at_limit};
use crate::ordered::{
    Version, empty_version, insert_value, part_entries, part_names, part_pairs, version_entries,
    without_absent_name,
};
use crate::seqs::{find_name, first_place, names_of};
use crate::transition::{bump_fits, first_failure, models_of, new_value, try_new_values};
use toml_edit::Document;
use vstd::prelude::*;

verus! {

/// A version before and after a change.
#[derive(Debug)]
pub struct ChangedVersion {
    pub old: Version,
    pub new: Version,
}

/// One rule of one file, rendered for the old and for the new version: the
/// bare version strings and the patterns that hold them.
#[derive(Debug)]
pub struct ChangedFile {
    pub name: String,
    pub old_part: String,
    pub old_version: String,
    pub new_part: String,
    pub new_version: String,
}

/// A loaded profile: its model, the document it was read from, and its name.
pub struct ProfileContext {
    pub profile_model: ProfileConfig,
    pub profile_doc: Document,
    pub profile_name: String,
}

/// The parts of a list of named parts, without their names.
pub open spec fn entry_parts(entries: Seq<(Seq<char>, PartModel)>) -> Seq<PartModel> {
    Seq::new(entries.len(), |i: int| entries[i].1)
}

/// The names and the values, pair by pair.
pub open spec fn named_values(names: Seq<Seq<char>>, values: Seq<VersionValue>) -> Seq<
    (Seq<char>, VersionValue),
> {
    Seq::new(names.len(), |i: int| (names[i], values[i]))
}

/// The current value of every part, in order.
pub open spec fn current_values(parts: Seq<PartModel>) -> Seq<VersionValue> {
    Seq::new(parts.len(), |i: int| parts[i].value)
}

/// The value of every part once the pivot `p` is bumped, in order.
pub open spec fn bumped_values(parts: Seq<PartModel>, p: int) -> Seq<VersionValue> {
    Seq::new(parts.len(), |i: int| new_value(parts, p, i)->Ok_0)
}

/// A version that holds the given values under the names of the parts, in
/// the order of the parts.
fn build_version(pairs: &Vec<(&String, &Part)>, values: &Vec<IntegerOrString<u64>>) -> (m: Version)
    requires
        values@.len() == pairs@.len(),
        forall|i: int, j: int|
            0 <= i < j < pairs@.len() ==> (#[trigger] pairs@[i]).0@ != (#[trigger] pairs@[j]).0@,
    ensures
        version_entries(m) == Seq::new(
            pairs@.len(),
            |i: int| (pairs@[i].0@, values@[i]@),
        ),
{
    let mut m = empty_version();
    let mut j: usize = 0;
    while j < pairs.len()
        invariant
            j <= pairs.len(),
            values@.len() == pairs@.len(),
            forall|i: int, k: int|
                0 <= i < k < pairs@.len() ==> (#[trigger] pairs@[i]).0@ != (#[trigger] pairs@[k]).0@,
            version_entries(m) == Seq::new(j as nat, |i: int| (pairs@[i].0@, values@[i]@)),
        decreases pairs.len() - j,
    {
        let ghost before = version_entries(m);
        proof {
            assert forall|i: int| 0 <= i < before.len() implies before[i].0 != pairs@[j as int].0@ by {
                assert(pairs@[i].0@ != pairs@[j as int].0@);
            }
            without_absent_name(before, pairs@[j as int].0@);
        }
        insert_value(&mut m, pairs[j].0.clone(), values[j].clone());
        j = j + 1;
        assert(version_entries(m) =~= Seq::new(j as nat, |i: int| (pairs@[i].0@, values@[i]@)));
    }
    m
}

/// The current value of every part, in order.
fn values_now(pairs: &Vec<(&String, &Part)>) -> (values: Vec<IntegerOrString<u64>>)
    ensures
        values@.len() == pairs@.len(),
        forall|i: int| 0 <= i < pairs@.len() ==> (#[trigger] values@[i])@ == pairs@[i].1@.value,
{
    let mut values: Vec<IntegerOrString<u64>> = Vec::new();
    let mut j: usize = 0;
    while j < pairs.len()
        invariant
            j <= pairs.len(),
            values@.len() == j,
            forall|i: int| 0 <= i < j ==> (#[trigger] values@[i])@ == pairs@[i].1@.value,
        decreases pairs.len() - j,
    {
        values.push(pairs[j].1.value.clone());
        j = j + 1;
    }
    values
}

impl ProfileContext {
    /// The parts of the profile, most significant first.
    pub open spec fn parts(&self) -> Seq<PartModel> {
        entry_parts(part_entries(self.profile_model.parts))
    }

    /// The names of the parts, in the order of the parts.
    pub open spec fn names(&self) -> Seq<Seq<char>> {
        part_names(part_entries(self.profile_model.parts))
    }

    /// The place of the part called `name`; the number of parts if there is
    /// none.
    pub open spec fn place(&self, name: Seq<char>) -> int {
        first_place(self.names(), name)
    }

    /// Whether bumping the part called `name` stays within the range of every
    /// integer that it comes to advance. Holds where there is no such part.
    pub open spec fn bump_in_range(&self, name: Seq<char>) -> bool {
        self.place(name) < self.names().len() ==> bump_fits(self.parts(), self.place(name))
    }

    /// The part called `part`.
    pub fn check_part_exists(&self, part: &str) -> (r: CmdResult<Part>)
        ensures
            match r {
                Ok(found) => self.place(part@) < self.names().len() && found@
                    == self.parts()[self.place(part@)],
                Err(e) => self.place(part@) == self.names().len() && e.is_plain(
                    ErrorKind::NoSuchVersionPart,
                ),
            },
    {
        let pairs = part_pairs(&self.profile_model.parts);
        assert(names_of(pairs@) =~= self.names());
        let at = find_name(&pairs, part);
        if at < pairs.len() {
            Ok(pairs[at].1.clone())
        } else {
            Err(CLIError::of(ErrorKind::NoSuchVersionPart))
        }
    }

    /// The value that the part called `part` takes when it is reset.
    pub fn fetch_default_of_part(&self, part: &str) -> (r: CmdResult<IntegerOrString<u64>>)
        ensures
            match r {
                Ok(v) => self.place(part@) < self.names().len() && default_of(
                    self.parts()[self.place(part@)],
                ) == Ok::<VersionValue, ErrorKind>(v@),
                Err(e) => if self.place(part@) == self.names().len() {
                    e.is_plain(ErrorKind::NoSuchVersionPart)
                } else {
                    default_of(self.parts()[self.place(part@)]) is Err && e.is_plain(
                        default_of(self.parts()[self.place(part@)])->Err_0,
                    )
                },
            },
    {
        let existed_part = match self.check_part_exists(part) {
            Ok(found) => found,
            Err(e) => {
                return Err(e);
            },
        };
        default_of_part(&existed_part)
    }

    /// Whether the part called `part` can advance within the range of its
    /// integer. Holds where there is no such part.
    pub fn part_can_advance(&self, part: &str) -> (b: bool)
        ensures
            b == (self.place(part@) < self.names().len() ==> !at_limit(
                self.parts()[self.place(part@)],
            )),
    {
        match self.check_part_exists(part) {
            Ok(found) => !part_at_limit(&found),
            Err(_) => true,
        }
    }

    /// The value that follows the current one of the part called `part`.
    pub fn fetch_next_of_part(&self, part: &str) -> (r: CmdResult<IntegerOrString<u64>>)
        requires
            self.place(part@) < self.names().len() ==> !at_limit(self.parts()[self.place(part@)]),
        ensures
            self.next_outcome(part@, r),
    {
        let existed_part = match self.check_part_exists(part) {
            Ok(found) => found,
            Err(e) => {
                return Err(e);
            },
        };
        next_of_part(&existed_part)
    }

    /// Whether bumping the part called `requested_part` stays within the
    /// range of every integer that it comes to advance.
    pub fn bump_stays_in_range(&self, requested_part: &str) -> (b: bool)
        ensures
            b == self.bump_in_range(requested_part@),
    {
        self.checked_bump_version(requested_part).is_some()
    }

    /// Whether `r` is what bumping the part called `name` gives. On success
    /// the old version holds every part's current value; in the new one
    /// every part that steps has its next value, every part after the pivot
    /// its default, and every other part its current value; both keep the
    /// order of the parts. The bump fails if there is no such part, or with
    /// the failure of the first part whose new value cannot be worked out.
    pub open spec fn bump_outcome(&self, name: Seq<char>, r: CmdResult<ChangedVersion>) -> bool {
        match r {
            Ok(changed) => {
                &&& self.place(name) < self.names().len()
                &&& forall|j: int|
                    0 <= j < self.parts().len() ==> (#[trigger] new_value(
                        self.parts(),
                        self.place(name),
                        j,
                    )) is Ok
                &&& version_entries(changed.old) == named_values(
                    self.names(),
                    current_values(self.parts()),
                )
                &&& version_entries(changed.new) == named_values(
                    self.names(),
                    bumped_values(self.parts(), self.place(name)),
                )
            },
            Err(e) => if self.place(name) == self.names().len() {
                e.is_plain(ErrorKind::NoSuchVersionPart)
            } else {
                exists|j: int|
                    first_failure(self.parts(), self.place(name), j) && e.is_plain(
                        (#[trigger] new_value(self.parts(), self.place(name), j))->Err_0,
                    )
            },
        }
    }

    /// Whether `r` is what advancing the part called `name` gives.
    pub open spec fn next_outcome(&self, name: Seq<char>, r: CmdResult<IntegerOrString<u64>>) -> bool {
        match r {
            Ok(v) => self.place(name) < self.names().len() && next_of(
                self.parts()[self.place(name)],
            ) == Ok::<VersionValue, ErrorKind>(v@),
            Err(e) => if self.place(name) == self.names().len() {
                e.is_plain(ErrorKind::NoSuchVersionPart)
            } else {
                next_of(self.parts()[self.place(name)]) is Err && e.is_plain(
                    next_of(self.parts()[self.place(name)])->Err_0,
                )
            },
        }
    }

    /// `fetch_next_of_part` where the part can advance within the range of
    /// its integer; `None` where it cannot.
    pub fn checked_fetch_next_of_part(&self, part: &str) -> (r: Option<
        CmdResult<IntegerOrString<u64>>,
    >)
        ensures
            r is Some <==> (self.place(part@) < self.names().len() ==> !at_limit(
                self.parts()[self.place(part@)],
            )),
            r matches Some(inner) ==> self.next_outcome(part@, inner),
    {
        if self.part_can_advance(part) {
            Some(self.fetch_next_of_part(part))
        } else {
            None
        }
    }

    /// The version as it stands: every part's current value under its name,
    /// in the order of the parts.
    pub fn current_version(&self) -> (version: Version)
        ensures
            version_entries(version) == named_values(self.names(), current_values(self.parts())),
    {
        let pairs = part_pairs(&self.profile_model.parts);
        assert(names_of(pairs@) =~= self.names());
        assert(models_of(pairs@) =~= self.parts());
        let values = values_now(&pairs);
        let version = build_version(&pairs, &values);
        assert(version_entries(version) =~= named_values(
            self.names(),
            current_values(self.parts()),
        ));
        version
    }

    /// The change from the version as it stands to the given one.
    pub fn move_version(&self, new_version: Version) -> (changed: ChangedVersion)
        ensures
            version_entries(changed.old) == named_values(
                self.names(),
                current_values(self.parts()),
            ),
            changed.new == new_version,
    {
        ChangedVersion { new: new_version, old: self.current_version() }
    }

    /// The version as it stands and as it is once the part called
    /// `requested_part` is bumped.
    pub fn bump_version(&self, requested_part: &str) -> (r: CmdResult<ChangedVersion>)
        requires
            self.bump_in_range(requested_part@),
        ensures
            self.bump_outcome(requested_part@, r),
    {
        match self.checked_bump_version(requested_part) {
            Some(r) => r,
            None => vstd::pervasive::unreached(),
        }
    }

    /// `bump_version` where the bump stays within the range of every integer
    /// that it comes to advance; `None` where it does not.
    pub fn checked_bump_version(&self, requested_part: &str) -> (r: Option<
        CmdResult<ChangedVersion>,
    >)
        ensures
            r is Some <==> self.bump_in_range(requested_part@),
            r matches Some(inner) ==> self.bump_outcome(requested_part@, inner),
    {
        let pairs = part_pairs(&self.profile_model.parts);
        assert(names_of(pairs@) =~= self.names());
        assert(models_of(pairs@) =~= self.parts());
        let p = find_name(&pairs, requested_part);
        if p >= pairs.len() {
            return Some(Err(CLIError::of(ErrorKind::NoSuchVersionPart)));
        }
        let old_version = self.current_version();
        let values = match try_new_values(&pairs, p) {
            Some(Ok(values)) => values,
            Some(Err(e)) => {
                return Some(Err(e));
            },
            None => {
                return None;
            },
        };
        let new_version = build_version(&pairs, &values);
        proof {
            let parts = self.parts();
            assert forall|j: int| 0 <= j < parts.len() implies (#[trigger] new_value(
                parts,
                p as int,
                j,
            )) is Ok by {
                let v = values@[j];
            }
            assert(version_entries(new_version) =~= named_values(
                self.names(),
                bumped_values(parts, p as int),
            )) by {
                assert forall|j: int| 0 <= j < parts.len() implies values@[j]@ == bumped_values(
                    parts,
                    p as int,
                )[j] by {
                    let v = values@[j];
                }
            }
        }
        Some(Ok(ChangedVersion { new: new_version, old: old_version }))
    }
}

} // verus!
