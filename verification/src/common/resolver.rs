//! Where the text of an imported module comes from.
use vstd::prelude::*;
use crate::common::text::{chars_of, push_str, string_from_chars};
use std::path::PathBuf;

verus! {

/// `std::path::PathBuf`, carried through as it is: nothing is known of
/// what a path holds.
#[verifier::external_type_specification]
#[verifier::external_body]
pub struct ExPathBuf(PathBuf);

/// The text of a module and the path it was found at, if it has one.
pub struct ContentResolveResult {
    pub content: String,
    pub filepath: Option<PathBuf>,
}

/// A source of module texts.
pub trait ContentResolver {
    /// The text of the module `to_resolve`, asked for from the module at
    /// `from_path`, or a message that says why there is none.
    fn resolve(&mut self, from_path: &Option<PathBuf>, to_resolve: &String) -> Result<
        ContentResolveResult,
        String,
    >;
}


/// The request names a file relative to the module that asks: it begins
/// with a dot. Every other request names a module of the embedded library.
pub open spec fn file_request(request: Seq<char>) -> bool {
    request.len() > 0 && request[0] == '.'
}

/// Whether the request names a file relative to the module that asks.
pub fn is_file_request(to_resolve: &String) -> (r: bool)
    ensures
        r == file_request(to_resolve@),
{
    let cs = chars_of(to_resolve.as_str());
    cs.len() > 0 && cs[0] == '.'
}

/// The name under which the embedded library holds the module
/// `to_resolve`.
pub fn library_file_name(to_resolve: &String) -> (r: String)
    ensures
        r@ == to_resolve@ + ".lisp"@,
{
    let mut out: Vec<char> = Vec::new();
    push_str(&mut out, to_resolve.as_str());
    push_str(&mut out, ".lisp");
    assert(out@ =~= to_resolve@ + ".lisp"@);
    string_from_chars(&out)
}

/// Why a resolver found no text.
pub enum ResolveFailure {
    /// The working directory is not known.
    CurrentDir,
    /// The path of the file cannot be made absolute.
    Canonicalize,
    /// The file cannot be opened.
    Open,
    /// The content is not UTF-8.
    NotUtf8,
    /// The embedded library has no such module.
    NotInLibrary,
}

/// The message of a resolver that found no text for `request`.
pub open spec fn failure_message(failure: ResolveFailure, request: Seq<char>) -> Seq<char> {
    match failure {
        ResolveFailure::CurrentDir => "could not get current directly"@,
        ResolveFailure::Canonicalize => "could not canonicalize \""@ + request + "\""@,
        ResolveFailure::Open => "could not open \""@ + request + "\""@,
        ResolveFailure::NotUtf8 => "could not read \""@ + request + "\" as UTF-8"@,
        ResolveFailure::NotInLibrary => "not found built-in lib \""@ + request + "\""@,
    }
}

/// The message of a resolver that found no text for `to_resolve`.
pub fn resolve_failure(failure: ResolveFailure, to_resolve: &String) -> (r: String)
    ensures
        r@ == failure_message(failure, to_resolve@),
{
    let mut out: Vec<char> = Vec::new();
    match failure {
        ResolveFailure::CurrentDir => {
            push_str(&mut out, "could not get current directly");
        },
        ResolveFailure::Canonicalize => {
            push_str(&mut out, "could not canonicalize \"");
            push_str(&mut out, to_resolve.as_str());
            push_str(&mut out, "\"");
        },
        ResolveFailure::Open => {
            push_str(&mut out, "could not open \"");
            push_str(&mut out, to_resolve.as_str());
            push_str(&mut out, "\"");
        },
        ResolveFailure::NotUtf8 => {
            push_str(&mut out, "could not read \"");
            push_str(&mut out, to_resolve.as_str());
            push_str(&mut out, "\" as UTF-8");
        },
        ResolveFailure::NotInLibrary => {
            push_str(&mut out, "not found built-in lib \"");
            push_str(&mut out, to_resolve.as_str());
            push_str(&mut out, "\"");
        },
    }
    assert(out@ =~= failure_message(failure, to_resolve@));
    string_from_chars(&out)
}

} // verus!
