//! What a run of replacements remembers: how many rules of each file have
//! been applied, and the content that the file has by now.

use crate::seqs::{first_place, first_place_is_first, first_place_push};
use vstd::prelude::*;

verus! {

/// What a run remembers of one file.
#[derive(Debug)]
pub struct FileProgress {
    pub name: String,
    pub hits: usize,
    pub content: String,
}

/// The files that a run of replacements has changed so far.
#[derive(Debug)]
pub struct ReplacementRun {
    pub records: Vec<FileProgress>,
}

impl ReplacementRun {
    /// The names of the files that the run has changed, in the order in
    /// which it came to them.
    pub open spec fn names(&self) -> Seq<Seq<char>> {
        Seq::new(self.records@.len(), |i: int| self.records@[i].name@)
    }

    /// Whether every file stands in the run once: no two records bear the
    /// same name.
    pub open spec fn wf(&self) -> bool {
        forall|i: int, j: int|
            0 <= i < j < self.records@.len() ==> self.records@[i].name@ != self.records@[j].name@
    }

    /// The place of the file called `name`; the number of files if the run
    /// has not come to it.
    pub open spec fn place(&self, name: Seq<char>) -> int {
        first_place(self.names(), name)
    }

    /// How many rules of the file called `name` have been applied.
    pub open spec fn hits(&self, name: Seq<char>) -> nat {
        if self.place(name) < self.records@.len() {
            self.records@[self.place(name)].hits as nat
        } else {
            0
        }
    }

    /// The content that the file called `name` has by now, if the run has
    /// come to it.
    pub open spec fn content(&self, name: Seq<char>) -> Option<Seq<char>> {
        if self.place(name) < self.records@.len() {
            Some(self.records@[self.place(name)].content@)
        } else {
            None
        }
    }

    /// A run that has not come to any file.
    pub fn new() -> (run: ReplacementRun)
        ensures
            run.wf(),
            forall|name: Seq<char>| run.hits(name) == 0 && run.content(name) is None,
    {
        let run = ReplacementRun { records: Vec::new() };
        assert(run.names() =~= Seq::<Seq<char>>::empty());
        run
    }

    /// The place of the file called `name`.
    pub fn position(&self, name: &str) -> (at: usize)
        ensures
            at == self.place(name@),
            at <= self.records@.len(),
    {
        let wanted = String::from_str(name);
        let ghost names = self.names();
        let mut i: usize = 0;
        assert(names.skip(0) =~= names);
        while i < self.records.len()
            invariant
                i <= self.records@.len(),
                names == self.names(),
                wanted@ == name@,
                first_place(names, name@) == i + first_place(names.skip(i as int), name@),
            decreases self.records@.len() - i,
        {
            assert(names.skip(i as int)[0] == self.records@[i as int].name@);
            let same = self.records[i].name == wanted;
            if same {
                return i;
            }
            assert(names.skip(i as int).skip(1) =~= names.skip(i + 1));
            i = i + 1;
        }
        i
    }

    /// How many rules of the file called `name` have been applied.
    pub fn hits_of(&self, name: &str) -> (n: usize)
        ensures
            n == self.hits(name@),
    {
        let at = self.position(name);
        if at < self.records.len() {
            self.records[at].hits
        } else {
            0
        }
    }

    /// The content that the file called `name` has by now.
    pub fn content_of(&self, name: &str) -> (r: Option<String>)
        ensures
            match r {
                Some(text) => self.content(name@) == Some(text@),
                None => self.content(name@) is None,
            },
    {
        let at = self.position(name);
        if at < self.records.len() {
            Some(self.records[at].content.clone())
        } else {
            None
        }
    }

    /// Notes that one more rule of the file called `name` has been applied
    /// and that the file now has the given content. Nothing changes for any
    /// other file, and a run in which every file stands once stays so.
    pub fn record(&mut self, name: &str, content: String)
        requires
            old(self).hits(name@) < usize::MAX,
        ensures
            old(self).wf() ==> final(self).wf(),
            final(self).hits(name@) == old(self).hits(name@) + 1,
            final(self).content(name@) == Some(content@),
            forall|other: Seq<char>|
                other != name@ ==> final(self).hits(other) == old(self).hits(other)
                    && final(self).content(other) == old(self).content(other),
    {
        let at = self.position(name);
        let ghost before = *self;
        proof {
            first_place_is_first(before.names(), name@);
        }
        if at < self.records.len() {
            assert(before.names()[at as int] == name@);
            let hits = self.records[at].hits;
            self.records.set(
                at,
                FileProgress { name: String::from_str(name), hits: hits + 1, content },
            );
            assert(self.names() =~= before.names());
            proof {
                if before.wf() {
                    assert forall|i: int, j: int| 0 <= i < j < self.records@.len() implies self.records@[i].name@
                        != self.records@[j].name@ by {
                        assert(self.names()[i] == before.names()[i]);
                        assert(self.names()[j] == before.names()[j]);
                    }
                }
                assert forall|other: Seq<char>| other != name@ implies self.hits(other)
                    == before.hits(other) && self.content(other) == before.content(other) by {
                    first_place_is_first(before.names(), other);
                }
            }
        } else {
            self.records.push(FileProgress { name: String::from_str(name), hits: 1, content });
            assert(self.names() =~= before.names().push(name@));
            proof {
                if before.wf() {
                    assert forall|i: int, j: int| 0 <= i < j < self.records@.len() implies self.records@[i].name@
                        != self.records@[j].name@ by {
                        assert(self.records@[i] == before.records@[i]);
                        assert(before.names()[i] == before.records@[i].name@);
                        if j < before.records@.len() {
                            assert(self.records@[j] == before.records@[j]);
                        }
                    }
                }
                first_place_push(before.names(), name@, name@);
                assert forall|other: Seq<char>| other != name@ implies self.hits(other)
                    == before.hits(other) && self.content(other) == before.content(other) by {
                    first_place_push(before.names(), name@, other);
                    first_place_is_first(before.names(), other);
                    if before.place(other) < before.records@.len() {
                        assert(self.records@[before.place(other)] == before.records@[before.place(
                            other,
                        )]);
                    }
                }
            }
        }
    }
}

} // verus!
