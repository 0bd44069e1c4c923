//! How a single part resets and advances under its factory.

use crate::config::{Factory, FactoryModel, IntegerOrString, Part, PartModel, VersionValue, values_view};
use crate::error::{CLIError, ErrorKind};
use crate::seqs::first_place;
use crate::text::{chars_of, parse_u64, parse_unsigned};
use vstd::prelude::*;

verus! {

/// The value that a part takes when it is reset: the factory's default for an
/// increment, the head of the chain for a loop.
pub open spec fn default_of(part: PartModel) -> Result<VersionValue, ErrorKind> {
    match part.factory {
        FactoryModel::Increment(default) => Ok(VersionValue::Number(default)),
        FactoryModel::Loop(chain) => if chain.len() == 0 {
            Err(ErrorKind::EmptyFactoryPayload)
        } else {
            Ok(chain[0])
        },
    }
}

/// The number that a value stands for: an integer itself, a string the
/// number that it spells.
pub open spec fn numeric(value: VersionValue) -> Option<nat> {
    match value {
        VersionValue::Number(n) => Some(n),
        VersionValue::Text(s) => match parse_u64(s) {
            Some(n) => Some(n as nat),
            None => None,
        },
    }
}

/// The value that follows a part's current one: the number plus one for an
/// increment; for a loop the chain element after the first one that equals
/// the current value, the head of the chain after the last.
pub open spec fn next_of(part: PartModel) -> Result<VersionValue, ErrorKind> {
    match part.factory {
        FactoryModel::Increment(_) => match numeric(part.value) {
            Some(n) => Ok(VersionValue::Number(n + 1)),
            None => Err(ErrorKind::NotAnInteger),
        },
        FactoryModel::Loop(chain) => {
            let at = first_place(chain, part.value);
            if at >= chain.len() {
                Err(ErrorKind::CurrentValueNotInChain)
            } else if at + 1 < chain.len() {
                Ok(chain[at + 1])
            } else {
                Ok(chain[0])
            }
        },
    }
}

/// Whether advancing the part would leave the range of its integer: an
/// increment part that stands at the largest number.
pub open spec fn at_limit(part: PartModel) -> bool {
    part.factory is Increment && numeric(part.value) == Some(u64::MAX as nat)
}

/// Whether advancing the part brings it back to its default.
pub open spec fn wraps(part: PartModel) -> bool {
    &&& next_of(part) is Ok
    &&& default_of(part) is Ok
    &&& next_of(part)->Ok_0 == default_of(part)->Ok_0
}

/// The number that a value stands for, if any.
pub fn numeric_of(value: &IntegerOrString<u64>) -> (r: Option<u64>)
    ensures
        match r {
            Some(n) => numeric(value@) == Some(n as nat),
            None => numeric(value@) is None,
        },
{
    match value {
        IntegerOrString::Integer(n) => Some(*n),
        IntegerOrString::String(s) => {
            let chars = chars_of(s.as_str());
            parse_unsigned(&chars)
        },
    }
}

/// Whether advancing the part would leave the range of its integer.
pub fn part_at_limit(part: &Part) -> (b: bool)
    ensures
        b == at_limit(part@),
{
    match &part.factory {
        Factory::Increment(_) => match numeric_of(&part.value) {
            Some(n) => n == u64::MAX,
            None => false,
        },
        Factory::Loop(_) => false,
    }
}

/// The value that the part takes when it is reset.
pub fn default_of_part(part: &Part) -> (r: Result<IntegerOrString<u64>, CLIError>)
    ensures
        match r {
            Ok(v) => default_of(part@) == Ok::<VersionValue, ErrorKind>(v@),
            Err(e) => default_of(part@) is Err && e.is_plain(default_of(part@)->Err_0),
        },
{
    match &part.factory {
        Factory::Increment(payload) => Ok(
            IntegerOrString::Integer(
                match payload {
                    Some(payload) => match payload.default {
                        Some(d) => d,
                        None => 0,
                    },
                    None => 0,
                },
            ),
        ),
        Factory::Loop(chain) => {
            if chain.len() == 0 {
                Err(CLIError::of(ErrorKind::EmptyFactoryPayload))
            } else {
                Ok(chain[0].clone())
            }
        },
    }
}

/// The place of the first chain element that equals `value`; the length of
/// the chain if none does.
pub fn place_in_chain(chain: &Vec<IntegerOrString<u64>>, value: &IntegerOrString<u64>) -> (at: usize)
    ensures
        at == first_place(values_view(chain@), value@),
        at <= chain.len(),
{
    let ghost model = values_view(chain@);
    let mut i: usize = 0;
    assert(model.skip(0) =~= model);
    while i < chain.len()
        invariant
            i <= chain.len(),
            model == values_view(chain@),
            first_place(model, value@) == i + first_place(model.skip(i as int), value@),
        decreases chain.len() - i,
    {
        assert(model.skip(i as int)[0] == chain@[i as int]@);
        if chain[i].same_as(value) {
            return i;
        }
        assert(model.skip(i as int).skip(1) =~= model.skip(i + 1));
        i = i + 1;
    }
    i
}

/// The value that follows the part's current one.
pub fn next_of_part(part: &Part) -> (r: Result<IntegerOrString<u64>, CLIError>)
    requires
        !at_limit(part@),
    ensures
        match r {
            Ok(v) => next_of(part@) == Ok::<VersionValue, ErrorKind>(v@),
            Err(e) => next_of(part@) is Err && e.is_plain(next_of(part@)->Err_0),
        },
{
    match &part.factory {
        Factory::Increment(_) => match numeric_of(&part.value) {
            Some(n) => Ok(IntegerOrString::Integer(n + 1)),
            None => Err(CLIError::of(ErrorKind::NotAnInteger)),
        },
        Factory::Loop(chain) => {
            let at = place_in_chain(chain, &part.value);
            if at >= chain.len() {
                Err(CLIError::of(ErrorKind::CurrentValueNotInChain))
            } else if at + 1 < chain.len() {
                Ok(chain[at + 1].clone())
            } else {
                Ok(chain[0].clone())
            }
        },
    }
}

} // verus!
