//! The errors of the library's operations.
use vstd::prelude::*;

verus! {

#[verifier::external_type_specification]
#[verifier::external_body]
pub struct ExIoError(std::io::Error);

#[verifier::external_type_specification]
#[verifier::external_body]
pub struct ExFetchError(ureq::Error);

#[verifier::external_type_specification]
#[verifier::external_body]
pub struct ExAtomError(atom_syndication::Error);

/// Reading the remote feed list failed.
#[derive(Debug)]
pub enum RemoteFeedUrlsError {
    Io(std::io::Error),
    UrlParse(url::ParseError),
}

/// Setting up the state at startup failed.
#[derive(Debug)]
pub enum StateCreationError {
    RootMustBeDir,
    Io(std::io::Error),
    UrlParse(url::ParseError),
    Fetch(ureq::Error),
    BadPrefix,
}

/// Performing a task failed.
#[derive(Debug)]
pub enum PerformError {
    Io(std::io::Error),
    Fetch(ureq::Error),
    MissingLocalFile,
    UrlParse(url::ParseError),
    BadPrefix,
    Atom(atom_syndication::Error),
    Render,
}

} // verus!
