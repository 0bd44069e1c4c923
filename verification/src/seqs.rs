//! Finding a value in a sequence.

use vstd::prelude::*;

verus! {

/// Whether `at` is the first place of `value` in `s`.
pub open spec fn first_at<T>(s: Seq<T>, value: T, at: int) -> bool {
    &&& 0 <= at < s.len()
    &&& s[at] == value
    &&& forall|k: int| 0 <= k < at ==> s[k] != value
}

/// The first place of `value` in `s`; the length of `s` if it is absent.
pub open spec fn first_place<T>(s: Seq<T>, value: T) -> int
    decreases s.len(),
{
    if s.len() == 0 {
        0
    } else if s[0] == value {
        0
    } else {
        1 + first_place(s.skip(1), value)
    }
}

/// `first_place` is the least index that holds the value, and the length of
/// the sequence exactly when no index does.
pub proof fn first_place_is_first<T>(s: Seq<T>, value: T)
    ensures
        0 <= first_place(s, value) <= s.len(),
        first_place(s, value) < s.len() ==> first_at(s, value, first_place(s, value)),
        first_place(s, value) == s.len() ==> forall|k: int| 0 <= k < s.len() ==> s[k] != value,
    decreases s.len(),
{
    if s.len() > 0 && s[0] != value {
        let rest = s.skip(1);
        first_place_is_first(rest, value);
        let p = first_place(rest, value);
        assert forall|k: int| 0 <= k < p + 1 && k < s.len() implies s[k] != value by {
            if k > 0 {
                assert(rest[k - 1] == s[k]);
            }
        }
        if p < rest.len() {
            assert(rest[p] == s[p + 1]);
        }
    }
}

/// Where a value is first found once one more element stands at the end.
pub proof fn first_place_push<T>(s: Seq<T>, last: T, value: T)
    ensures
        first_place(s.push(last), value) == if first_place(s, value) < s.len() {
            first_place(s, value)
        } else if last == value {
            s.len() as int
        } else {
            s.len() as int + 1
        },
    decreases s.len(),
{
    first_place_is_first(s, value);
    if s.len() == 0 {
        assert(s.push(last).skip(1) =~= s);
    } else if s[0] != value {
        assert(s.push(last).skip(1) =~= s.skip(1).push(last));
        first_place_push(s.skip(1), last, value);
        first_place_is_first(s.skip(1), value);
    }
}

/// The names under which a list of pairs is kept, in order.
pub open spec fn names_of<T>(pairs: Seq<(&String, &T)>) -> Seq<Seq<char>> {
    Seq::new(pairs.len(), |i: int| pairs[i].0@)
}

/// The place of the first pair kept under `name`; the length of the list if
/// there is none.
pub fn find_name<T>(pairs: &Vec<(&String, &T)>, name: &str) -> (at: usize)
    ensures
        at == first_place(names_of(pairs@), name@),
        at <= pairs.len(),
{
    let wanted = String::from_str(name);
    let ghost names = names_of(pairs@);
    let mut i: usize = 0;
    assert(names.skip(0) =~= names);
    while i < pairs.len()
        invariant
            i <= pairs.len(),
            names == names_of(pairs@),
            wanted@ == name@,
            first_place(names, name@) == i + first_place(names.skip(i as int), name@),
        decreases pairs.len() - i,
    {
        assert(names.skip(i as int)[0] == pairs@[i as int].0@);
        let same = *pairs[i].0 == wanted;
        if same {
            return i;
        }
        assert(names.skip(i as int).skip(1) =~= names.skip(i + 1));
        i = i + 1;
    }
    i
}

} // verus!
