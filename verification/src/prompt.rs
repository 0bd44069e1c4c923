//! Taking a version that the user types in, part by part.

use crate::config::{Factory, FactoryModel, IntegerOrString, Part, PartModel, VersionValue, value_text, values_view};
use crate::render::value_chars;
use crate::text::{chars_of, parse_u64, parse_unsigned, string_of};
use vstd::prelude::*;

verus! {

/// Whether `at` is the first place in `chain` whose value is written as
/// `answer`.
pub open spec fn first_written_as(chain: Seq<VersionValue>, answer: Seq<char>, at: int) -> bool {
    &&& 0 <= at < chain.len()
    &&& value_text(chain[at]) == answer
    &&& forall|k: int| 0 <= k < at ==> value_text(#[trigger] chain[k]) != answer
}

/// The value that an answer gives to a part. An increment part takes any
/// unsigned integer. A loop part takes the first element of its chain that
/// is written as the answer. Any other answer is turned down.
pub open spec fn accepted(part: PartModel, answer: Seq<char>, value: Option<VersionValue>) -> bool {
    match part.factory {
        FactoryModel::Increment(_) => value == match parse_u64(answer) {
            Some(n) => Some(VersionValue::Number(n as nat)),
            None => None,
        },
        FactoryModel::Loop(chain) => match value {
            Some(v) => exists|at: int| first_written_as(chain, answer, at) && #[trigger] chain[at] == v,
            None => forall|k: int| 0 <= k < chain.len() ==> value_text(#[trigger] chain[k]) != answer,
        },
    }
}

/// Whether two texts are the same.
pub fn same_chars(a: &Vec<char>, b: &Vec<char>) -> (same: bool)
    ensures
        same == (a@ == b@),
{
    if a.len() != b.len() {
        return false;
    }
    let mut i: usize = 0;
    while i < a.len()
        invariant
            i <= a.len(),
            a.len() == b.len(),
            forall|k: int| 0 <= k < i ==> a@[k] == b@[k],
        decreases a.len() - i,
    {
        if a[i] != b[i] {
            return false;
        }
        i = i + 1;
    }
    assert(a@ =~= b@);
    true
}

/// The line without its last character, which ends it.
pub fn without_line_end(line: &str) -> (answer: String)
    ensures
        answer@ == if line@.len() == 0 {
            line@
        } else {
            line@.drop_last()
        },
{
    let mut chars = chars_of(line);
    let _ = chars.pop();
    string_of(&chars)
}

/// The value that the answer gives to the part, or `None` where the part
/// cannot take it and the question is to be asked again.
pub fn accept_answer(part_info: &Part, answer: &str) -> (r: Option<IntegerOrString<u64>>)
    ensures
        accepted(
            part_info@,
            answer@,
            match r {
                Some(v) => Some(v@),
                None => None,
            },
        ),
{
    let typed = chars_of(answer);
    match &part_info.factory {
        Factory::Increment(_payload) => match parse_unsigned(&typed) {
            Some(value) => Some(IntegerOrString::Integer(value)),
            None => None,
        },
        Factory::Loop(payload) => {
            let ghost chain = values_view(payload@);
            let mut i: usize = 0;
            while i < payload.len()
                invariant
                    i <= payload.len(),
                    chain == values_view(payload@),
                    part_info@.factory == FactoryModel::Loop(chain),
                    typed@ == answer@,
                    forall|k: int| 0 <= k < i ==> value_text(#[trigger] chain[k]) != answer@,
                decreases payload.len() - i,
            {
                let available_part = &payload[i];
                assert(chain[i as int] == available_part@);
                let stringified_part = value_chars(available_part);
                if same_chars(&stringified_part, &typed) {
                    let picked = available_part.clone();
                    assert(first_written_as(chain, answer@, i as int) && chain[i as int]
                        == picked@);
                    return Some(picked);
                }
                i = i + 1;
            }
            None
        },
    }
}

} // verus!
