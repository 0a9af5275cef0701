//! A comment-submission pipeline for statically generated sites.
//!
//! An untrusted comment submission arrives over HTTP and is turned into a
//! reviewable change to a content repository: a topic branch, an appended or
//! newly created data file, and a pull request proposing that change.
//!
//! The crate holds the logic of that pipeline: admission (size cap, CORS
//! preflight, a global rate limit), decoding the submission, generating the
//! comment identifier, the ordered workflow of remote repository operations
//! modelled as a state machine, and the mapping of outcomes to HTTP
//! responses. The remote calls themselves (HTTP serving, the repository
//! hosting API) are performed by the surrounding program, which drives the
//! state machine with the results.

pub mod codec;
pub mod decode;
pub mod ident;
pub mod limit;
pub mod parse;
pub mod pipeline;
pub mod respond;
pub mod text;
