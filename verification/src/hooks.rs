//! The arguments of the commands that run once a version has changed.

use crate::config::{VersionValue, value_text};
use crate::context::ChangedVersion;
use crate::ordered::{Version, version_entries, version_pairs};
use crate::render::value_chars;
use crate::text::{append_from, chars_of, matches_at, occurs_at, replace_all, replace_limited, string_of};
use vstd::prelude::*;

verus! {

/// The token that stands for the part called `name` in the version that
/// `tag` names: the tag, a dot and the name, in braces.
pub open spec fn tagged_placeholder(tag: Seq<char>, name: Seq<char>) -> Seq<char> {
    seq!['{'] + tag + seq!['.'] + name + seq!['}']
}

/// `text` with the tagged placeholder of every part replaced by the part's
/// value, one part after the other in the order of the version.
pub open spec fn render_tagged(
    text: Seq<char>,
    tag: Seq<char>,
    version: Seq<(Seq<char>, VersionValue)>,
) -> Seq<char>
    decreases version.len(),
{
    if version.len() == 0 {
        text
    } else {
        replace_all(
            render_tagged(text, tag, version.drop_last()),
            tagged_placeholder(tag, version.last().0),
            value_text(version.last().1),
        )
    }
}

/// What is to be done with one argument of a hook.
pub enum HookArgModel {
    /// The user is asked under this prompt, and the answer is the argument.
    Ask(Seq<char>),
    /// The argument is ready to be handed on.
    Ready(Seq<char>),
}

/// What is to be done with one argument of a hook.
#[derive(Debug)]
pub enum HookArg {
    /// The user is asked under this prompt, and the answer is the argument.
    Ask(String),
    /// The argument is ready to be handed on.
    Ready(String),
}

impl View for HookArg {
    type V = HookArgModel;

    open spec fn view(&self) -> HookArgModel {
        match *self {
            HookArg::Ask(prompt) => HookArgModel::Ask(prompt@),
            HookArg::Ready(arg) => HookArgModel::Ready(arg@),
        }
    }
}

/// What is to be done with the argument `arg`. Behind `!ASK:` stands a
/// prompt. Behind `!FORMAT:` stands a text in which `{old.<part>}` and
/// `{new.<part>}` give way to the part's value in the old and in the new
/// version, the old ones first. Any other argument is handed on as it is.
pub open spec fn processed(
    arg: Seq<char>,
    old: Seq<(Seq<char>, VersionValue)>,
    new: Seq<(Seq<char>, VersionValue)>,
) -> HookArgModel {
    if occurs_at(arg, "!ASK:"@, 0) {
        HookArgModel::Ask(arg.skip("!ASK:"@.len() as int))
    } else if occurs_at(arg, "!FORMAT:"@, 0) {
        HookArgModel::Ready(
            render_tagged(
                render_tagged(arg.skip("!FORMAT:"@.len() as int), "old"@, old),
                "new"@,
                new,
            ),
        )
    } else {
        HookArgModel::Ready(arg)
    }
}

/// The tagged placeholder of the part called `name`.
pub fn tagged_placeholder_chars(tag: &str, name: &str) -> (v: Vec<char>)
    ensures
        v@ == tagged_placeholder(tag@, name@),
{
    let mut v: Vec<char> = Vec::new();
    v.push('{');
    let tag_chars = chars_of(tag);
    append_from(&mut v, &tag_chars, 0);
    assert(tag_chars@.skip(0) =~= tag_chars@);
    v.push('.');
    let inner = chars_of(name);
    append_from(&mut v, &inner, 0);
    assert(inner@.skip(0) =~= inner@);
    v.push('}');
    assert(v@ =~= tagged_placeholder(tag@, name@));
    v
}

/// The text with the tagged placeholders of the version's parts replaced by
/// their values.
pub fn insert_tagged(text: Vec<char>, tag: &str, version: &Version) -> (out: Vec<char>)
    ensures
        out@ == render_tagged(text@, tag@, version_entries(*version)),
{
    let pairs = version_pairs(version);
    let ghost entries = version_entries(*version);
    let ghost start = text@;
    let mut current = text;
    let mut j: usize = 0;
    assert(entries.take(0) =~= Seq::empty());
    while j < pairs.len()
        invariant
            j <= pairs.len(),
            pairs@.len() == entries.len(),
            forall|i: int|
                0 <= i < pairs@.len() ==> (#[trigger] pairs@[i]).0@ == entries[i].0 && pairs@[i].1@
                    == entries[i].1,
            current@ == render_tagged(start, tag@, entries.take(j as int)),
        decreases pairs.len() - j,
    {
        let token = tagged_placeholder_chars(tag, pairs[j].0.as_str());
        let value = value_chars(pairs[j].1);
        let ghost upto = entries.take(j + 1);
        assert(upto.drop_last() =~= entries.take(j as int));
        assert(upto.last() == entries[j as int]);
        current = replace_limited(&current, &token, &value, None);
        j = j + 1;
    }
    assert(entries.take(j as int) =~= entries);
    current
}

/// What is to be done with one argument of a hook, given the change of
/// version that the hook follows.
pub fn process_arg(arg: &str, changed_version: &ChangedVersion) -> (r: HookArg)
    ensures
        r@ == processed(
            arg@,
            version_entries(changed_version.old),
            version_entries(changed_version.new),
        ),
{
    let chars = chars_of(arg);
    let ask = chars_of("!ASK:");
    let format = chars_of("!FORMAT:");
    assert(chars@.skip(0) =~= chars@);
    if matches_at(&chars, &ask, 0) {
        let mut prompt: Vec<char> = Vec::new();
        append_from(&mut prompt, &chars, ask.len());
        assert(prompt@ =~= arg@.skip("!ASK:"@.len() as int));
        HookArg::Ask(string_of(&prompt))
    } else if matches_at(&chars, &format, 0) {
        let mut formatable: Vec<char> = Vec::new();
        append_from(&mut formatable, &chars, format.len());
        assert(formatable@ =~= arg@.skip("!FORMAT:"@.len() as int));
        let with_old = insert_tagged(formatable, "old", &changed_version.old);
        let with_new = insert_tagged(with_old, "new", &changed_version.new);
        HookArg::Ready(string_of(&with_new))
    } else {
        HookArg::Ready(string_of(&chars))
    }
}

} // verus!
