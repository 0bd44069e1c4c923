//! The new version that follows from advancing one part: which parts step
//! forward, which are reset and which stay.

use crate::config::{IntegerOrString, Part, PartModel, VersionValue};
use crate::error::{CLIError, ErrorKind};
use crate::factory::{
    at_limit, default_of, default_of_part, next_of, next_of_part, part_at_limit, wraps,
};
use vstd::prelude::*;

verus! {

/// Whether the carry that starts at the pivot `p` arrives at the more
/// significant part `j`: every part from the pivot up to the one just below
/// `j` comes back to its default when it advances.
pub open spec fn carried_to(parts: Seq<PartModel>, p: int, j: int) -> bool {
    forall|i: int| j < i <= p ==> wraps(#[trigger] parts[i])
}

/// Whether part `j` advances when the pivot `p` is bumped: the pivot itself,
/// and for a loop pivot every more significant part that the carry reaches.
pub open spec fn steps(parts: Seq<PartModel>, p: int, j: int) -> bool {
    j == p || (parts[p].factory is Loop && 0 <= j < p && carried_to(parts, p, j))
}

/// The value of part `j` once the pivot `p` is bumped: a part that steps
/// takes its next value, a less significant part than the pivot is reset to
/// its default, and any other part keeps what it has.
pub open spec fn new_value(parts: Seq<PartModel>, p: int, j: int) -> Result<
    VersionValue,
    ErrorKind,
> {
    if steps(parts, p, j) {
        next_of(parts[j])
    } else if j > p {
        default_of(parts[j])
    } else {
        Ok(parts[j].value)
    }
}

/// Whether part `i` is worked out before part `j`: an increment pivot goes
/// through the parts from the most significant down, a loop pivot from the
/// least significant up.
pub open spec fn visited_before(parts: Seq<PartModel>, p: int, i: int, j: int) -> bool {
    if parts[p].factory is Loop {
        i > j
    } else {
        i < j
    }
}

/// Whether the work comes as far as part `j`: the new value of every part
/// that is worked out before it can be worked out.
pub open spec fn reached(parts: Seq<PartModel>, p: int, j: int) -> bool {
    forall|i: int|
        0 <= i < parts.len() && visited_before(parts, p, i, j) ==> (#[trigger] new_value(
            parts,
            p,
            i,
        )) is Ok
}

/// Whether part `j` is the first one whose new value cannot be worked out.
pub open spec fn first_failure(parts: Seq<PartModel>, p: int, j: int) -> bool {
    &&& 0 <= j < parts.len()
    &&& new_value(parts, p, j) is Err
    &&& reached(parts, p, j)
}

/// Whether part `j` is one that the work comes to, that is to step, and
/// that stands at the largest number.
pub open spec fn overflows_at(parts: Seq<PartModel>, p: int, j: int) -> bool {
    &&& 0 <= j < parts.len()
    &&& steps(parts, p, j)
    &&& at_limit(parts[j])
    &&& reached(parts, p, j)
}

/// Whether bumping the pivot stays within the range of every integer that
/// it comes to advance.
pub open spec fn bump_fits(parts: Seq<PartModel>, p: int) -> bool {
    forall|j: int| !overflows_at(parts, p, j)
}

/// The parts of a list of named parts, in order.
pub open spec fn models_of(pairs: Seq<(&String, &Part)>) -> Seq<PartModel> {
    Seq::new(pairs.len(), |i: int| pairs[i].1@)
}

/// Whether `values` are the new values of all parts once the pivot `p` is
/// bumped.
pub open spec fn is_bumped(parts: Seq<PartModel>, p: int, values: Seq<IntegerOrString<u64>>) -> bool {
    &&& values.len() == parts.len()
    &&& forall|j: int|
        0 <= j < parts.len() ==> new_value(parts, p, j) == Ok::<VersionValue, ErrorKind>(
            (#[trigger] values[j])@,
        )
}

/// The values in reverse order.
pub fn reversed(values: Vec<IntegerOrString<u64>>) -> (r: Vec<IntegerOrString<u64>>)
    ensures
        r@.len() == values@.len(),
        forall|j: int| 0 <= j < r@.len() ==> (#[trigger] r@[j])@ == values@[values@.len() - 1 - j]@,
{
    let mut rest = values;
    let mut r: Vec<IntegerOrString<u64>> = Vec::new();
    let ghost all = rest@;
    while rest.len() > 0
        invariant
            rest@.len() + r@.len() == all.len(),
            forall|j: int| 0 <= j < rest@.len() ==> rest@[j] == all[j],
            forall|j: int| 0 <= j < r@.len() ==> (#[trigger] r@[j])@ == all[all.len() - 1 - j]@,
        decreases rest.len(),
    {
        let last = rest.pop();
        match last {
            Some(v) => {
                r.push(v);
            },
            None => {},
        }
    }
    r
}

/// Whether `r` is what working out the new values gives: the new value of
/// every part, or the failure of the first part whose value cannot be
/// worked out.
pub open spec fn values_outcome(
    parts: Seq<PartModel>,
    p: int,
    r: Result<Vec<IntegerOrString<u64>>, CLIError>,
) -> bool {
    match r {
        Ok(values) => is_bumped(parts, p, values@),
        Err(e) => exists|j: int|
            first_failure(parts, p, j) && e.is_plain((#[trigger] new_value(parts, p, j))->Err_0),
    }
}

/// The new value of every part, in the order of the parts, once the pivot `p`
/// is bumped, or the failure of the first part whose value cannot be worked
/// out; `None` where the work comes to a part that is to step and stands at
/// the largest number.
pub fn try_new_values(pairs: &Vec<(&String, &Part)>, p: usize) -> (r: Option<
    Result<Vec<IntegerOrString<u64>>, CLIError>,
>)
    requires
        p < pairs.len(),
    ensures
        r is Some <==> bump_fits(models_of(pairs@), p as int),
        r matches Some(inner) ==> values_outcome(models_of(pairs@), p as int, inner),
{
    let ghost parts = models_of(pairs@);
    let n = pairs.len();
    assert(parts[p as int] == pairs@[p as int].1@);
    match &pairs[p].1.factory {
        crate::config::Factory::Increment(_) => {
            let mut values: Vec<IntegerOrString<u64>> = Vec::new();
            let mut j: usize = 0;
            while j < n
                invariant
                    j <= n,
                    n == pairs.len(),
                    p < n,
                    parts == models_of(pairs@),
                    parts[p as int].factory is Increment,
                    values@.len() == j,
                    forall|k: int| 0 <= k < j && steps(parts, p as int, k) ==> !at_limit(parts[k]),
                    forall|k: int|
                        0 <= k < j ==> new_value(parts, p as int, k) == Ok::<
                            VersionValue,
                            ErrorKind,
                        >((#[trigger] values@[k])@),
                decreases n - j,
            {
                assert(parts[j as int] == pairs@[j as int].1@);
                proof {
                    assert forall|i: int|
                        0 <= i < parts.len() && visited_before(
                            parts,
                            p as int,
                            i,
                            j as int,
                        ) implies (#[trigger] new_value(parts, p as int, i)) is Ok by {
                        let earlier = values@[i];
                    }
                }
                let computed = if j == p {
                    if part_at_limit(pairs[j].1) {
                        assert(overflows_at(parts, p as int, j as int));
                        return None;
                    }
                    next_of_part(pairs[j].1)
                } else if j > p {
                    default_of_part(pairs[j].1)
                } else {
                    Ok(pairs[j].1.value.clone())
                };
                match computed {
                    Ok(v) => {
                        values.push(v);
                    },
                    Err(e) => {
                        assert(first_failure(parts, p as int, j as int));
                        assert forall|k: int| !overflows_at(parts, p as int, k) by {
                            if k > j && 0 <= k < parts.len() {
                                assert(visited_before(parts, p as int, j as int, k));
                            }
                        }
                        return Some(Err(e));
                    },
                }
                j = j + 1;
            }
            Some(Ok(values))
        },
        crate::config::Factory::Loop(_) => {
            // Least significant part first; `backwards` holds the values in
            // the order in which they are worked out.
            let mut backwards: Vec<IntegerOrString<u64>> = Vec::new();
            let mut j: usize = n;
            let mut carry: bool = false;
            while j > 0
                invariant
                    j <= n,
                    n == pairs.len(),
                    p < n,
                    parts == models_of(pairs@),
                    parts[p as int].factory is Loop,
                    backwards@.len() == n - j,
                    j <= p ==> carry == carried_to(parts, p as int, j - 1),
                    forall|k: int| j <= k < n && steps(parts, p as int, k) ==> !at_limit(parts[k]),
                    forall|k: int|
                        j <= k < n ==> new_value(parts, p as int, k) == Ok::<
                            VersionValue,
                            ErrorKind,
                        >((#[trigger] backwards@[n - 1 - k])@),
                decreases j,
            {
                let at: usize = j - 1;
                assert(parts[at as int] == pairs@[at as int].1@);
                proof {
                    assert forall|i: int|
                        0 <= i < parts.len() && visited_before(
                            parts,
                            p as int,
                            i,
                            at as int,
                        ) implies (#[trigger] new_value(parts, p as int, i)) is Ok by {
                        let earlier = backwards@[n - 1 - i];
                    }
                }
                let steps_here: bool = at == p || (at < p && carry);
                assert(steps_here == steps(parts, p as int, at as int));
                let computed = if steps_here {
                    if part_at_limit(pairs[at].1) {
                        assert(overflows_at(parts, p as int, at as int));
                        return None;
                    }
                    next_of_part(pairs[at].1)
                } else if at > p {
                    default_of_part(pairs[at].1)
                } else {
                    Ok(pairs[at].1.value.clone())
                };
                match computed {
                    Ok(v) => {
                        if steps_here {
                            match default_of_part(pairs[at].1) {
                                Ok(d) => {
                                    carry = v.same_as(&d);
                                },
                                Err(e) => {
                                    carry = false;
                                },
                            }
                            assert(carry == wraps(parts[at as int]));
                        }
                        proof {
                            if at <= p && at > 0 {
                                if steps_here {
                                    assert(carried_to(parts, p as int, at - 1) == wraps(
                                        parts[at as int],
                                    )) by {
                                        if wraps(parts[at as int]) {
                                            assert forall|i: int| at - 1 < i <= p implies wraps(
                                                #[trigger] parts[i],
                                            ) by {}
                                        }
                                    }
                                } else {
                                    assert(!carried_to(parts, p as int, at as int));
                                    assert(!carried_to(parts, p as int, at - 1));
                                }
                            }
                        }
                        backwards.push(v);
                    },
                    Err(e) => {
                        assert(first_failure(parts, p as int, at as int));
                        assert forall|k: int| !overflows_at(parts, p as int, k) by {
                            if 0 <= k < at {
                                assert(visited_before(parts, p as int, at as int, k));
                            }
                        }
                        return Some(Err(e));
                    },
                }
                j = at;
            }
            let values = reversed(backwards);
            Some(Ok(values))
        },
    }
}

/// Bumping an increment part leaves every more significant part as it is,
/// gives the pivot its number plus one, and resets every less significant
/// part to its own default.
pub proof fn increment_pivot_resets_what_follows(parts: Seq<PartModel>, p: int, j: int)
    requires
        0 <= p < parts.len(),
        0 <= j < parts.len(),
        parts[p].factory is Increment,
    ensures
        j < p ==> new_value(parts, p, j) == Ok::<VersionValue, ErrorKind>(parts[j].value),
        j == p ==> new_value(parts, p, j) == next_of(parts[p]),
        j == p ==> (crate::factory::numeric(parts[p].value) matches Some(n) ==> new_value(
            parts,
            p,
            j,
        ) == Ok::<VersionValue, ErrorKind>(VersionValue::Number(n + 1))),
        j > p ==> new_value(parts, p, j) == default_of(parts[j]),
{
}

/// Bumping a loop part that does not come back to its default carries
/// nothing: the pivot takes its next value, every more significant part
/// stays as it is, and every less significant part is reset to its default.
pub proof fn loop_pivot_without_carry(parts: Seq<PartModel>, p: int, j: int)
    requires
        0 <= p < parts.len(),
        0 <= j < parts.len(),
        parts[p].factory is Loop,
        !wraps(parts[p]),
    ensures
        j < p ==> new_value(parts, p, j) == Ok::<VersionValue, ErrorKind>(parts[j].value),
        j == p ==> new_value(parts, p, j) == next_of(parts[p]),
        j > p ==> new_value(parts, p, j) == default_of(parts[j]),
{
    if j < p {
        assert(!carried_to(parts, p, j));
    }
}

/// Bumping a loop part that comes back to its default carries over to the
/// part above it, which takes its own next value. A part that thereby comes
/// back to its default hands the carry on to the part above; the first part
/// that does not absorbs it, and every part above that one stays as it is.
pub proof fn loop_pivot_carries(parts: Seq<PartModel>, p: int, k: int, j: int)
    requires
        0 <= k < p < parts.len(),
        parts[p].factory is Loop,
        forall|i: int| k < i <= p ==> wraps(#[trigger] parts[i]),
    ensures
        new_value(parts, p, k) == next_of(parts[k]),
        k > 0 && wraps(parts[k]) ==> new_value(parts, p, k - 1) == next_of(parts[k - 1]),
        0 <= j < k && !wraps(parts[k]) ==> new_value(parts, p, j) == Ok::<VersionValue, ErrorKind>(
            parts[j].value,
        ),
{
    assert(carried_to(parts, p, k));
    if wraps(parts[k]) {
        if k > 0 {
            assert(carried_to(parts, p, k - 1));
        }
    } else if 0 <= j < k {
        assert(!carried_to(parts, p, j));
    }
}

} // verus!
