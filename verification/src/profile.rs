//! Bringing a profile into memory.

use crate::config::ProfileConfig;
use crate::context::ProfileContext;
use crate::document::{complaint_text, is_toml, parse_document};
use crate::error::{CLIError, CmdResult, ErrorKind};
use crate::text::{append_from, chars_of, string_of};
use toml_edit::Document;
use vstd::prelude::*;

verus! {

/// The name of the file that keeps the profile called `profile`.
pub fn profile_file_name(profile: &str) -> (name: String)
    ensures
        name@ == profile@ + ".version.toml"@,
{
    let mut name = chars_of(profile);
    let ending = chars_of(".version.toml");
    append_from(&mut name, &ending, 0);
    assert(ending@.skip(0) =~= ending@);
    string_of(&name)
}

/// The name under which a profile is kept where none is asked for.
pub fn profile_or_default(profile: &Option<String>) -> (name: String)
    ensures
        name@ == match *profile {
            Some(given) => given@,
            None => "project"@,
        },
{
    match profile {
        Some(given) => given.clone(),
        None => String::from_str("project"),
    }
}

/// The document that the text `profile_content` of the file at `path`
/// spells. Fails exactly where the content is no TOML, and then names the
/// path and the parser's complaint.
pub fn read_document(path: &str, profile_content: &str) -> (r: CmdResult<Document>)
    ensures
        r is Ok <==> is_toml(profile_content@),
        r matches Err(e) ==> e.is_of(ErrorKind::InvalidSyntax) && e.context().len() == 2
            && e.context()[0] == ("path"@, path@) && e.context()[1].0 == "error"@,
{
    match parse_document(profile_content) {
        Ok(profile_doc) => Ok(profile_doc),
        Err(err) => Err(
            CLIError::of(ErrorKind::InvalidSyntax).with("path", String::from_str(path)).with(
                "error",
                complaint_text(&err),
            ),
        ),
    }
}

impl ProfileContext {
    /// The profile called `profile`, read as `profile_model` from the
    /// document `profile_doc`.
    pub fn load(profile: &str, profile_doc: Document, profile_model: ProfileConfig) -> (loaded:
        ProfileContext)
        ensures
            loaded.profile_model == profile_model,
            loaded.profile_doc == profile_doc,
            loaded.profile_name@ == profile@,
    {
        ProfileContext { profile_model, profile_doc, profile_name: String::from_str(profile) }
    }
}

} // verus!
