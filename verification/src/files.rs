//! The rules of a profile's files, rendered for a change of version and
//! applied to the contents of the files one after the other.

use crate::config::{FileModel, VersionValue};
use crate::context::{ChangedFile, ChangedVersion, ProfileContext};
use crate::error::{CLIError, CmdResult, ErrorKind};
use crate::ordered::{file_entries, file_names, file_pairs, rules_view, version_entries};
use crate::render::{insert_into_placement, insert_version_into_string, render, render_placement};
use crate::replace::{replace_in_content, replacement};
use crate::seqs::{find_name, first_place, names_of};
use crate::run::ReplacementRun;
use vstd::prelude::*;

verus! {

/// One rendered rule, as contracts see it.
pub struct ChangedFileModel {
    pub name: Seq<char>,
    pub old_part: Seq<char>,
    pub old_version: Seq<char>,
    pub new_part: Seq<char>,
    pub new_version: Seq<char>,
}

impl View for ChangedFile {
    type V = ChangedFileModel;

    open spec fn view(&self) -> ChangedFileModel {
        ChangedFileModel {
            name: self.name@,
            old_part: self.old_part@,
            old_version: self.old_version@,
            new_part: self.new_part@,
            new_version: self.new_version@,
        }
    }
}

/// The views of a list of rendered rules, in order.
pub open spec fn changes_view(files: Seq<ChangedFile>) -> Seq<ChangedFileModel> {
    Seq::new(files.len(), |i: int| files[i]@)
}

/// One rule of the file called `name`, rendered for the old and for the new
/// version.
pub open spec fn rendered_rule(
    name: Seq<char>,
    rule: FileModel,
    old: Seq<(Seq<char>, VersionValue)>,
    new: Seq<(Seq<char>, VersionValue)>,
) -> ChangedFileModel {
    ChangedFileModel {
        name,
        old_part: render_placement(rule.placement, render(rule.template, old)),
        old_version: render(rule.template, old),
        new_part: render_placement(rule.placement, render(rule.template, new)),
        new_version: render(rule.template, new),
    }
}

/// All rules of one file rendered, in their order.
pub open spec fn rendered_rules(
    name: Seq<char>,
    rules: Seq<FileModel>,
    old: Seq<(Seq<char>, VersionValue)>,
    new: Seq<(Seq<char>, VersionValue)>,
) -> Seq<ChangedFileModel> {
    Seq::new(rules.len(), |k: int| rendered_rule(name, rules[k], old, new))
}

/// The rules of all files rendered: file after file, and within a file rule
/// after rule.
pub open spec fn prepared(
    files: Seq<(Seq<char>, Seq<FileModel>)>,
    old: Seq<(Seq<char>, VersionValue)>,
    new: Seq<(Seq<char>, VersionValue)>,
) -> Seq<ChangedFileModel>
    decreases files.len(),
{
    if files.len() == 0 {
        Seq::empty()
    } else {
        prepared(files.drop_last(), old, new) + rendered_rules(
            files.last().0,
            files.last().1,
            old,
            new,
        )
    }
}

impl ProfileContext {
    /// The files of the profile with their rules, in order.
    pub open spec fn files(&self) -> Seq<(Seq<char>, Seq<FileModel>)> {
        file_entries(self.profile_model.files)
    }

    /// Every rule of every file, rendered for the old and for the new
    /// version, in the order in which the rules are to be applied.
    pub fn prepare_replacemts(&self, changed_version: &ChangedVersion) -> (r: CmdResult<
        Vec<ChangedFile>,
    >)
        ensures
            r matches Ok(changed) && changes_view(changed@) == prepared(
                self.files(),
                version_entries(changed_version.old),
                version_entries(changed_version.new),
            ),
    {
        let ghost old = version_entries(changed_version.old);
        let ghost new = version_entries(changed_version.new);
        let ghost files = self.files();
        let pairs = file_pairs(&self.profile_model.files);
        let mut changed_files: Vec<ChangedFile> = Vec::new();
        let mut i: usize = 0;
        assert(files.take(0) =~= Seq::empty());
        assert(changes_view(changed_files@) =~= Seq::empty());
        while i < pairs.len()
            invariant
                i <= pairs.len(),
                pairs@.len() == files.len(),
                old == version_entries(changed_version.old),
                new == version_entries(changed_version.new),
                forall|k: int|
                    0 <= k < pairs@.len() ==> (#[trigger] pairs@[k]).0@ == files[k].0 && rules_view(
                        pairs@[k].1@,
                    ) == files[k].1,
                changes_view(changed_files@) == prepared(files.take(i as int), old, new),
            decreases pairs.len() - i,
        {
            let file_name = pairs[i].0;
            let file_replacements = pairs[i].1;
            let ghost done = changes_view(changed_files@);
            let ghost rules = rules_view(file_replacements@);
            let ghost upto = files.take(i + 1);
            assert(upto.drop_last() =~= files.take(i as int));
            assert(upto.last() == files[i as int]);
            let mut k: usize = 0;
            while k < file_replacements.len()
                invariant
                    k <= file_replacements.len(),
                    rules == rules_view(file_replacements@),
                    old == version_entries(changed_version.old),
                    new == version_entries(changed_version.new),
                    changes_view(changed_files@) == done + rendered_rules(
                        file_name@,
                        rules,
                        old,
                        new,
                    ).take(k as int),
                decreases file_replacements.len() - k,
            {
                let file_replacement = &file_replacements[k];
                assert(rules[k as int] == file_replacement@);
                let old_version = insert_version_into_string(
                    file_replacement.version.view.as_str(),
                    &changed_version.old,
                );
                let old_part = insert_into_placement(
                    file_replacement.version.placement.as_str(),
                    old_version.as_str(),
                );
                let new_version = insert_version_into_string(
                    file_replacement.version.view.as_str(),
                    &changed_version.new,
                );
                let new_part = insert_into_placement(
                    file_replacement.version.placement.as_str(),
                    new_version.as_str(),
                );
                let ghost before = changed_files@;
                let ghost all = rendered_rules(file_name@, rules, old, new);
                let change = ChangedFile {
                    name: file_name.clone(),
                    old_part,
                    new_part,
                    new_version,
                    old_version,
                };
                assert(change@ == all[k as int]);
                changed_files.push(change);
                assert(changes_view(changed_files@) =~= changes_view(before).push(change@));
                assert(all.take(k + 1) =~= all.take(k as int).push(all[k as int]));
                k = k + 1;
                assert(changes_view(changed_files@) =~= done + rendered_rules(
                    file_name@,
                    rules,
                    old,
                    new,
                ).take(k as int));
            }
            assert(rendered_rules(file_name@, rules, old, new).take(k as int) =~= rendered_rules(
                file_name@,
                rules,
                old,
                new,
            ));
            i = i + 1;
        }
        assert(files.take(i as int) =~= files);
        Ok(changed_files)
    }
}

impl ProfileContext {
    /// The rule of the file called `name` that the run is to apply next, if
    /// the profile holds that file and one of its rules is left.
    pub open spec fn pending_rule(&self, run: ReplacementRun, name: Seq<char>) -> Option<FileModel> {
        let at = first_place(file_names(self.files()), name);
        if at < self.files().len() && run.hits(name) < self.files()[at].1.len() {
            Some(self.files()[at].1[run.hits(name) as int])
        } else {
            None
        }
    }

    /// Whether `r`, with the run as it is afterwards, is what applying the
    /// next rule of a file gives. The rule works on the content that the run
    /// holds for the file, or on the loaded one where the run has not come to
    /// the file yet. On success the run counts one rule more for the file
    /// and holds the new content; for every other file it is as before. On
    /// failure the run is as before: the file is unavailable where there is
    /// no content to work on, else the failure is that of the replacement.
    /// A run in which every file stands once stays so.
    pub open spec fn change_outcome(
        &self,
        before: ReplacementRun,
        after: ReplacementRun,
        file: ChangedFileModel,
        loaded: Option<Seq<char>>,
        r: CmdResult<String>,
    ) -> bool {
        let rule = self.pending_rule(before, file.name)->0;
        let content = match before.content(file.name) {
            Some(held) => Some(held),
            None => loaded,
        };
        match r {
            Ok(changed) => {
                &&& before.wf() ==> after.wf()
                &&& content is Some
                &&& replacement(content->0, file.old_part, file.new_part, rule.replaces_count)
                    == Ok::<Seq<char>, ErrorKind>(changed@)
                &&& after.hits(file.name) == before.hits(file.name) + 1
                &&& after.content(file.name) == Some(changed@)
                &&& forall|other: Seq<char>|
                    other != file.name ==> after.hits(other) == before.hits(other)
                        && after.content(other) == before.content(other)
            },
            Err(e) => {
                &&& after.records@ == before.records@
                &&& if content is None {
                    e.is_plain(ErrorKind::FileUnavailable)
                } else {
                    let outcome = replacement(
                        content->0,
                        file.old_part,
                        file.new_part,
                        rule.replaces_count,
                    );
                    &&& outcome is Err
                    &&& e.is_of(outcome->Err_0)
                    &&& e.context() == if outcome->Err_0 == ErrorKind::OldVersionNotFound {
                        seq![
                            ("profile"@, self.profile_name@),
                            ("file"@, file.name),
                            ("old_match"@, file.old_part),
                        ]
                    } else {
                        Seq::empty()
                    }
                }
            },
        }
    }

    /// The expected count of the rule of the file called `name` that the run
    /// is to apply next; `None` where no such rule is left.
    pub fn pending_count(&self, run: &ReplacementRun, name: &str) -> (r: Option<Option<u64>>)
        ensures
            match r {
                Some(count) => self.pending_rule(*run, name@) is Some && self.pending_rule(
                    *run,
                    name@,
                )->0.replaces_count == count,
                None => self.pending_rule(*run, name@) is None,
            },
            r is Some ==> run.hits(name@) < usize::MAX,
    {
        let pairs = file_pairs(&self.profile_model.files);
        assert(names_of(pairs@) =~= file_names(self.files()));
        let at = find_name(&pairs, name);
        if at >= pairs.len() {
            return None;
        }
        let hits = run.hits_of(name);
        let rules = pairs[at].1;
        assert(rules_view(rules@) == self.files()[at as int].1);
        if hits < rules.len() {
            assert(rules_view(rules@)[hits as int] == rules@[hits as int]@);
            Some(rules[hits].replaces_count)
        } else {
            None
        }
    }

    /// Applies the next rule of a file to its content and returns the new
    /// content. `loaded` is the content as it was read; it is asked for only
    /// where the run does not hold the file yet.
    pub fn change_files_content(
        &self,
        run: &mut ReplacementRun,
        file: &ChangedFile,
        loaded: Option<String>,
    ) -> (r: CmdResult<String>)
        requires
            self.pending_rule(*old(run), file.name@) is Some,
        ensures
            self.change_outcome(
                *old(run),
                *final(run),
                file@,
                match loaded {
                    Some(text) => Some(text@),
                    None => None,
                },
                r,
            ),
    {
        let count = match self.pending_count(run, file.name.as_str()) {
            Some(count) => count,
            None => {
                return Err(CLIError::of(ErrorKind::FileUnavailable));
            },
        };
        let content = match run.content_of(file.name.as_str()) {
            Some(held) => held,
            None => match loaded {
                Some(text) => text,
                None => {
                    return Err(CLIError::of(ErrorKind::FileUnavailable));
                },
            },
        };
        match replace_in_content(
            content.as_str(),
            file.old_part.as_str(),
            file.new_part.as_str(),
            count,
        ) {
            Ok(changed) => {
                run.record(file.name.as_str(), changed.clone());
                Ok(changed)
            },
            Err(e) => {
                match e.kind {
                    ErrorKind::OldVersionNotFound => {
                        let e = e.with("profile", self.profile_name.clone()).with(
                            "file",
                            file.name.clone(),
                        ).with("old_match", file.old_part.clone());
                        assert(e.context() =~= seq![
                            ("profile"@, self.profile_name@),
                            ("file"@, file.name@),
                            ("old_match"@, file.old_part@),
                        ]);
                        Err(e)
                    },
                    _ => Err(e),
                }
            },
        }
    }

    /// `change_files_content` where the profile holds the file and one of its
    /// rules is left for the run to apply; `None` where not.
    pub fn checked_change_files_content(
        &self,
        run: &mut ReplacementRun,
        file: &ChangedFile,
        loaded: Option<String>,
    ) -> (r: Option<CmdResult<String>>)
        ensures
            r is Some <==> self.pending_rule(*old(run), file.name@) is Some,
            r is None ==> final(run).records@ == old(run).records@,
            r matches Some(inner) ==> self.change_outcome(
                *old(run),
                *final(run),
                file@,
                match loaded {
                    Some(text) => Some(text@),
                    None => None,
                },
                inner,
            ),
    {
        if self.pending_count(run, file.name.as_str()).is_some() {
            Some(self.change_files_content(run, file, loaded))
        } else {
            None
        }
    }
}

} // verus!
