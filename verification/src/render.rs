//! Writing a version into templates and placement patterns.

use crate::config::{IntegerOrString, VersionValue, value_text};
use crate::context::ProfileContext;
use crate::ordered::{Version, version_entries, version_pairs};
use crate::text::{append_from, chars_of, count_matches, replace_all, replace_limited, string_of};
use vstd::prelude::*;

verus! {

/// The token that stands for the part called `name`: the name in braces.
pub open spec fn placeholder(name: Seq<char>) -> Seq<char> {
    seq!['{'] + name + seq!['}']
}

/// `template` with the placeholder of every part replaced by the part's
/// value, one part after the other in the order of the version. A token that
/// names no part stays as it is.
pub open spec fn render(template: Seq<char>, version: Seq<(Seq<char>, VersionValue)>) -> Seq<char>
    decreases version.len(),
{
    if version.len() == 0 {
        template
    } else {
        replace_all(
            render(template, version.drop_last()),
            placeholder(version.last().0),
            value_text(version.last().1),
        )
    }
}

/// `placement` with every `{version}` replaced by the rendered version.
pub open spec fn render_placement(placement: Seq<char>, rendered: Seq<char>) -> Seq<char> {
    replace_all(placement, "{version}"@, rendered)
}

/// The values written out and joined by dots.
pub open spec fn dotted(version: Seq<(Seq<char>, VersionValue)>) -> Seq<char>
    decreases version.len(),
{
    if version.len() == 0 {
        Seq::empty()
    } else if version.len() == 1 {
        value_text(version[0].1)
    } else {
        dotted(version.drop_last()) + seq!['.'] + value_text(version.last().1)
    }
}

/// Whether `text` holds the placeholder of none of the version's parts.
pub open spec fn free_of_placeholders(text: Seq<char>, version: Seq<(Seq<char>, VersionValue)>) -> bool {
    forall|i: int|
        0 <= i < version.len() ==> count_matches(text, placeholder((#[trigger] version[i]).0)) == 0
}

/// Rendering leaves a text without placeholders as it is.
pub proof fn render_keeps_plain_text(text: Seq<char>, version: Seq<(Seq<char>, VersionValue)>)
    requires
        free_of_placeholders(text, version),
    ensures
        render(text, version) == text,
    decreases version.len(),
{
    if version.len() > 0 {
        let shorter = version.drop_last();
        assert forall|i: int| 0 <= i < shorter.len() implies count_matches(
            text,
            placeholder((#[trigger] shorter[i]).0),
        ) == 0 by {
            assert(shorter[i] == version[i]);
        }
        render_keeps_plain_text(text, shorter);
        let last = version[version.len() - 1];
        assert(count_matches(text, placeholder(last.0)) == 0);
    }
}

/// Rendering is idempotent wherever the rendered text holds no placeholder
/// any more: rendering it once again changes nothing.
pub proof fn render_is_idempotent(template: Seq<char>, version: Seq<(Seq<char>, VersionValue)>)
    requires
        free_of_placeholders(render(template, version), version),
    ensures
        render(render(template, version), version) == render(template, version),
{
    render_keeps_plain_text(render(template, version), version);
}

/// The characters of a value written out.
pub fn value_chars(value: &IntegerOrString<u64>) -> (v: Vec<char>)
    ensures
        v@ == value_text(value@),
{
    match value {
        IntegerOrString::Integer(n) => {
            let mut out: Vec<char> = Vec::new();
            crate::text::push_decimal(&mut out, *n);
            assert(out@ =~= value_text(value@));
            out
        },
        IntegerOrString::String(s) => chars_of(s.as_str()),
    }
}

/// The placeholder of the part called `name`.
pub fn placeholder_chars(name: &str) -> (v: Vec<char>)
    ensures
        v@ == placeholder(name@),
{
    let mut v: Vec<char> = Vec::new();
    v.push('{');
    let inner = chars_of(name);
    append_from(&mut v, &inner, 0);
    assert(inner@.skip(0) =~= inner@);
    v.push('}');
    assert(v@ =~= placeholder(name@));
    v
}

/// The template with the version written into it.
pub fn insert_version_into_string(string: &str, version: &Version) -> (rendered: String)
    ensures
        rendered@ == render(string@, version_entries(*version)),
{
    let pairs = version_pairs(version);
    let ghost entries = version_entries(*version);
    let mut current = chars_of(string);
    let mut j: usize = 0;
    assert(entries.take(0) =~= Seq::empty());
    while j < pairs.len()
        invariant
            j <= pairs.len(),
            pairs@.len() == entries.len(),
            forall|i: int|
                0 <= i < pairs@.len() ==> (#[trigger] pairs@[i]).0@ == entries[i].0 && pairs@[i].1@
                    == entries[i].1,
            current@ == render(string@, entries.take(j as int)),
        decreases pairs.len() - j,
    {
        let token = placeholder_chars(pairs[j].0.as_str());
        let value = value_chars(pairs[j].1);
        let ghost upto = entries.take(j + 1);
        assert(upto.drop_last() =~= entries.take(j as int));
        assert(upto.last() == entries[j as int]);
        current = replace_limited(&current, &token, &value, None);
        j = j + 1;
    }
    assert(entries.take(j as int) =~= entries);
    string_of(&current)
}

/// The placement pattern with the rendered version in the place of every
/// `{version}`.
pub fn insert_into_placement(placement: &str, rendered: &str) -> (placed: String)
    ensures
        placed@ == render_placement(placement@, rendered@),
{
    let pattern = chars_of(placement);
    let token = chars_of("{version}");
    let with = chars_of(rendered);
    let out = replace_limited(&pattern, &token, &with, None);
    string_of(&out)
}

impl ProfileContext {
    /// The values of the version written out and joined by dots.
    pub fn version_to_string(&self, version: &Version) -> (s: String)
        ensures
            s@ == dotted(version_entries(*version)),
    {
        let pairs = version_pairs(version);
        let ghost entries = version_entries(*version);
        let mut out: Vec<char> = Vec::new();
        let mut j: usize = 0;
        assert(entries.take(0) =~= Seq::empty());
        while j < pairs.len()
            invariant
                j <= pairs.len(),
                pairs@.len() == entries.len(),
                forall|i: int|
                    0 <= i < pairs@.len() ==> (#[trigger] pairs@[i]).0@ == entries[i].0 && pairs@[i].1@
                        == entries[i].1,
                out@ == dotted(entries.take(j as int)),
            decreases pairs.len() - j,
        {
            let ghost upto = entries.take(j + 1);
            assert(upto.drop_last() =~= entries.take(j as int));
            assert(upto.last() == entries[j as int]);
            assert(upto[0] == entries[0]);
            if j != 0 {
                out.push('.');
            }
            let value = value_chars(pairs[j].1);
            append_from(&mut out, &value, 0);
            assert(value@.skip(0) =~= value@);
            assert(out@ =~= dotted(upto));
            j = j + 1;
        }
        assert(entries.take(j as int) =~= entries);
        string_of(&out)
    }
}

} // verus!
