//! The declarative shape of a profile: version parts with their factories,
//! and the files in which the version is written.

use linked_hash_map::LinkedHashMap;
use vstd::prelude::*;

verus! {

/// What a version part holds, as contracts see it.
pub enum VersionValue {
    Text(Seq<char>),
    Number(nat),
}

/// A value that is either a string or an integer.
#[derive(Debug, PartialEq)]
pub enum IntegerOrString<T> {
    String(String),
    Integer(T),
}

impl View for IntegerOrString<u64> {
    type V = VersionValue;

    open spec fn view(&self) -> VersionValue {
        match *self {
            IntegerOrString::String(s) => VersionValue::Text(s@),
            IntegerOrString::Integer(n) => VersionValue::Number(n as nat),
        }
    }
}

/// The views of a run of values, in order.
pub open spec fn values_view(values: Seq<IntegerOrString<u64>>) -> Seq<VersionValue> {
    Seq::new(values.len(), |i: int| values[i]@)
}

/// How a value is written out: an integer in decimal, a string as it is.
pub open spec fn value_text(value: VersionValue) -> Seq<char> {
    match value {
        VersionValue::Text(s) => s,
        VersionValue::Number(n) => crate::text::decimal(n),
    }
}

impl Clone for IntegerOrString<u64> {
    fn clone(&self) -> (r: Self)
        ensures
            r@ == self@,
    {
        match self {
            IntegerOrString::String(s) => IntegerOrString::String(s.clone()),
            IntegerOrString::Integer(n) => IntegerOrString::Integer(*n),
        }
    }
}

impl IntegerOrString<u64> {
    /// The value written out: an integer in decimal, a string as it is.
    pub fn to_string(&self) -> (s: String)
        ensures
            s@ == value_text(self@),
    {
        match self {
            IntegerOrString::Integer(val) => crate::text::decimal_string(*val),
            IntegerOrString::String(val) => val.clone(),
        }
    }

    /// Whether two values are the same variant with the same content. A
    /// string never equals an integer, whatever it spells.
    pub fn same_as(&self, other: &IntegerOrString<u64>) -> (b: bool)
        ensures
            b == (self@ == other@),
    {
        match self {
            IntegerOrString::String(a) => match other {
                IntegerOrString::String(b) => {
                    let same = *a == *b;
                    same
                },
                IntegerOrString::Integer(_) => false,
            },
            IntegerOrString::Integer(a) => match other {
                IntegerOrString::String(_) => false,
                IntegerOrString::Integer(b) => *a == *b,
            },
        }
    }
}

/// The payload of an increment factory.
#[derive(Debug, PartialEq)]
pub struct IncrementPayload {
    pub default: Option<u64>,
}

impl Clone for IncrementPayload {
    fn clone(&self) -> (r: Self)
        ensures
            r == *self,
    {
        IncrementPayload { default: self.default }
    }
}

/// The rule by which a part's value advances and resets, as contracts see it.
pub enum FactoryModel {
    /// A number that grows by one; the payload is the value it resets to.
    Increment(nat),
    /// A chain of values walked in order, starting over after the last.
    Loop(Seq<VersionValue>),
}

/// The rule by which a part's value advances and resets.
#[derive(Debug, PartialEq)]
pub enum Factory {
    Increment(Option<IncrementPayload>),
    Loop(Vec<IntegerOrString<u64>>),
}

impl View for Factory {
    type V = FactoryModel;

    open spec fn view(&self) -> FactoryModel {
        match *self {
            Factory::Increment(payload) => FactoryModel::Increment(
                match payload {
                    Some(p) => match p.default {
                        Some(d) => d as nat,
                        None => 0,
                    },
                    None => 0,
                },
            ),
            Factory::Loop(chain) => FactoryModel::Loop(values_view(chain@)),
        }
    }
}

/// A copy of a chain of values.
pub fn clone_chain(chain: &Vec<IntegerOrString<u64>>) -> (r: Vec<IntegerOrString<u64>>)
    ensures
        values_view(r@) == values_view(chain@),
{
    let mut r: Vec<IntegerOrString<u64>> = Vec::new();
    let mut i: usize = 0;
    while i < chain.len()
        invariant
            i <= chain.len(),
            r@.len() == i,
            forall|j: int| 0 <= j < i ==> r@[j]@ == chain@[j]@,
        decreases chain.len() - i,
    {
        r.push(chain[i].clone());
        i = i + 1;
    }
    assert(values_view(r@) =~= values_view(chain@));
    r
}

impl Clone for Factory {
    fn clone(&self) -> (r: Self)
        ensures
            r@ == self@,
    {
        match self {
            Factory::Increment(payload) => Factory::Increment(
                match payload {
                    Some(p) => Some(p.clone()),
                    None => None,
                },
            ),
            Factory::Loop(chain) => Factory::Loop(clone_chain(chain)),
        }
    }
}

/// One version part, as contracts see it.
pub struct PartModel {
    pub value: VersionValue,
    pub factory: FactoryModel,
}

/// One named component of a version: its current value and its factory.
#[derive(Debug, PartialEq)]
pub struct Part {
    pub value: IntegerOrString<u64>,
    pub factory: Factory,
}

impl View for Part {
    type V = PartModel;

    open spec fn view(&self) -> PartModel {
        PartModel { value: self.value@, factory: self.factory@ }
    }
}

impl Clone for Part {
    fn clone(&self) -> (r: Self)
        ensures
            r@ == self@,
    {
        Part { value: self.value.clone(), factory: self.factory.clone() }
    }
}

/// How a file writes the version: a template of part placeholders, and the
/// pattern around it in which `{version}` stands for the rendered template.
#[derive(Debug)]
pub struct FileVersion {
    pub view: String,
    pub placement: String,
}

/// One replacement rule of a file.
#[derive(Debug)]
pub struct File {
    pub version: FileVersion,
    pub replaces_count: Option<u64>,
    pub enable_liquid_tempaltes: Option<bool>,
}

/// One replacement rule, as contracts see it.
pub struct FileModel {
    pub template: Seq<char>,
    pub placement: Seq<char>,
    pub replaces_count: Option<u64>,
}

impl View for File {
    type V = FileModel;

    open spec fn view(&self) -> FileModel {
        FileModel {
            template: self.version.view@,
            placement: self.version.placement@,
            replaces_count: self.replaces_count,
        }
    }
}

/// Commands to run once a version has changed.
#[derive(Debug)]
pub struct Hooks {
    pub afterwords: Option<LinkedHashMap<String, Vec<String>>>,
}

/// A whole profile: its parts, most significant first, the files that carry
/// the version, and the hooks.
#[derive(Debug)]
pub struct ProfileConfig {
    pub parts: LinkedHashMap<String, Part>,
    pub files: LinkedHashMap<String, Vec<File>>,
    pub hooks: Option<Hooks>,
}

} // verus!
