//! Failures: a stable kind, a symbolic title, a description and context.

use vstd::prelude::*;

verus! {

/// What went wrong.
#[derive(Debug, Clone, Copy, PartialEq, Eq, Structural)]
pub enum ErrorKind {
    /// A part name that the profile does not hold.
    NoSuchVersionPart,
    /// A loop factory without any chain element.
    EmptyFactoryPayload,
    /// An increment part whose value is a string that spells no integer.
    NotAnInteger,
    /// A loop part whose value is not in its own chain.
    CurrentValueNotInChain,
    /// The old version is nowhere in a file, and no count was asked for.
    OldVersionNotFound,
    /// The old version is in a file fewer times than the rule asks for.
    InsufficientMatches,
    /// A file that is missing, or cannot be read or written.
    FileUnavailable,
    /// A profile whose text is no TOML.
    InvalidSyntax,
    /// A number that the profile's document cannot keep.
    NumberTooLarge,
    /// Anything that the surroundings of the engine report.
    Environment,
}

/// A failure as it is shown to the user.
#[derive(Debug)]
pub struct CLIError {
    pub kind: ErrorKind,
    pub title: &'static str,
    pub description: &'static str,
    pub payload: Vec<(&'static str, String)>,
}

/// What every command returns.
pub type CmdResult<S = ()> = Result<S, CLIError>;

impl ErrorKind {
    /// The symbolic title under which failures of the engine are shown.
    pub open spec fn title(self) -> Seq<char> {
        match self {
            ErrorKind::NoSuchVersionPart => "NoSuchVersionPartExists"@,
            ErrorKind::EmptyFactoryPayload => "LoopFactoryPayloadIsEmpty"@,
            ErrorKind::NotAnInteger => "CannotParsePartValueToInteger"@,
            ErrorKind::CurrentValueNotInChain => "CurrentValueOfLoopedPartDoesNotExist"@,
            ErrorKind::OldVersionNotFound => "FileDoesNotContainOldVersion"@,
            ErrorKind::InsufficientMatches => "NotEnoughOldVersionMatches"@,
            ErrorKind::FileUnavailable => "NoSuchFileForReplacements"@,
            ErrorKind::InvalidSyntax => "TOMLInvalidSyntax"@,
            ErrorKind::NumberTooLarge => "PartValueIsTooLarge"@,
            ErrorKind::Environment => "EnvironmentFailure"@,
        }
    }

    /// What is said to the user about failures of the engine.
    pub open spec fn description(self) -> Seq<char> {
        match self {
            ErrorKind::NoSuchVersionPart => "Such version part does not exist"@,
            ErrorKind::EmptyFactoryPayload => "Loop factory payload cannot be empty"@,
            ErrorKind::NotAnInteger => "Version part value is not a valid integer"@,
            ErrorKind::CurrentValueNotInChain => "Version part managed by a loop factory with no such part in payload"@,
            ErrorKind::OldVersionNotFound => "Changed files has no old version in it's content"@,
            ErrorKind::InsufficientMatches => "Count of old version entries is not as supposed"@,
            ErrorKind::FileUnavailable => "No such file to make version replacements"@,
            ErrorKind::InvalidSyntax => "Invalid syntax in a profile configuration file"@,
            ErrorKind::NumberTooLarge => "Version part value is too large to be kept in a profile file"@,
            ErrorKind::Environment => "The environment reported a failure"@,
        }
    }
}

impl CLIError {
    /// Whether the failure is of kind `kind`, under that kind's title and
    /// description.
    pub open spec fn is_of(&self, kind: ErrorKind) -> bool {
        &&& self.kind == kind
        &&& self.title@ == kind.title()
        &&& self.description@ == kind.description()
    }

    /// The context of the failure: keys with their values, in order.
    pub open spec fn context(&self) -> Seq<(Seq<char>, Seq<char>)> {
        Seq::new(self.payload@.len(), |i: int| (self.payload@[i].0@, self.payload@[i].1@))
    }

    /// Whether the failure is of kind `kind`, under that kind's title and
    /// description, and without any context.
    pub open spec fn is_plain(&self, kind: ErrorKind) -> bool {
        &&& self.is_of(kind)
        &&& self.context() == Seq::<(Seq<char>, Seq<char>)>::empty()
    }

    /// A failure of the given kind without context.
    pub fn of(kind: ErrorKind) -> (e: CLIError)
        ensures
            e.is_plain(kind),
    {
        let (title, description): (&'static str, &'static str) = match kind {
            ErrorKind::NoSuchVersionPart => (
                "NoSuchVersionPartExists",
                "Such version part does not exist",
            ),
            ErrorKind::EmptyFactoryPayload => (
                "LoopFactoryPayloadIsEmpty",
                "Loop factory payload cannot be empty",
            ),
            ErrorKind::NotAnInteger => (
                "CannotParsePartValueToInteger",
                "Version part value is not a valid integer",
            ),
            ErrorKind::CurrentValueNotInChain => (
                "CurrentValueOfLoopedPartDoesNotExist",
                "Version part managed by a loop factory with no such part in payload",
            ),
            ErrorKind::OldVersionNotFound => (
                "FileDoesNotContainOldVersion",
                "Changed files has no old version in it's content",
            ),
            ErrorKind::InsufficientMatches => (
                "NotEnoughOldVersionMatches",
                "Count of old version entries is not as supposed",
            ),
            ErrorKind::FileUnavailable => (
                "NoSuchFileForReplacements",
                "No such file to make version replacements",
            ),
            ErrorKind::InvalidSyntax => (
                "TOMLInvalidSyntax",
                "Invalid syntax in a profile configuration file",
            ),
            ErrorKind::NumberTooLarge => (
                "PartValueIsTooLarge",
                "Version part value is too large to be kept in a profile file",
            ),
            ErrorKind::Environment => ("EnvironmentFailure", "The environment reported a failure"),
        };
        let e = CLIError { kind, title, description, payload: Vec::new() };
        assert(e.context() =~= Seq::<(Seq<char>, Seq<char>)>::empty());
        e
    }

    /// The line of dashes that stands on either side of a failure's title in
    /// a terminal of the given width.
    pub fn header_rule(width: u16, title_len: usize) -> (line: String)
        requires
            title_len + 6 <= width,
        ensures
            line@ == Seq::new(((width - title_len - 6) / 2) as nat, |i: int| '-'),
    {
        let count: usize = (width as usize - title_len - 6) / 2;
        let mut dashes: Vec<char> = Vec::new();
        let mut i: usize = 0;
        while i < count
            invariant
                i <= count,
                dashes@ == Seq::new(i as nat, |k: int| '-'),
            decreases count - i,
        {
            dashes.push('-');
            i = i + 1;
            assert(dashes@ =~= Seq::new(i as nat, |k: int| '-'));
        }
        crate::text::string_of(&dashes)
    }

    /// The same failure with one more entry of context.
    pub fn with(self, key: &'static str, value: String) -> (e: CLIError)
        ensures
            e.kind == self.kind,
            e.title == self.title,
            e.description == self.description,
            e.context() == self.context().push((key@, value@)),
    {
        let mut payload = self.payload;
        payload.push((key, value));
        assert(Seq::new(payload@.len(), |i: int| (payload@[i].0@, payload@[i].1@))
            =~= self.context().push((key@, value@)));
        CLIError { kind: self.kind, title: self.title, description: self.description, payload }
    }
}

} // verus!
