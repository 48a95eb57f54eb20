//! The terminal outcome of one invocation: the extracted result text on
//! success, or a failure with a kind from the fixed taxonomy, a verified
//! human-readable message, and the diagnostic file the caller's sink used.

use vstd::prelude::*;
use vstd::string::*;
use crate::json_text::{spec_decimal, decimal_string};
use crate::classify::{Classification, ClassificationModel};

verus! {

/// The failure taxonomy. Every failure is terminal; none is retried.
#[derive(Clone, Copy, Debug, PartialEq, Eq, Structural)]
pub enum FailureKind {
    /// Connection, TLS, timeout or redirect-limit trouble.
    TransportError,
    /// A status outside the success range.
    ServerError,
    /// A success status whose body does not look like JSON.
    UnexpectedContentType,
    /// A JSON body without the required `text` string member.
    DecodeError,
}

/// What one invocation of the pipeline ends in.
pub enum Outcome {
    Success { text: String },
    Failure { kind: FailureKind, message: String, diagnostic_path: Option<String> },
}

/// Spec-level mirror of `Outcome`.
pub enum OutcomeModel {
    Success { text: Seq<char> },
    Failure { kind: FailureKind, message: Seq<char>, diagnostic_path: Option<Seq<char>> },
}

impl View for Outcome {
    type V = OutcomeModel;

    open spec fn view(&self) -> OutcomeModel {
        match self {
            Outcome::Success { text } => OutcomeModel::Success { text: text@ },
            Outcome::Failure { kind, message, diagnostic_path } => (OutcomeModel::Failure {
                kind: *kind,
                message: message@,
                diagnostic_path: match diagnostic_path {
                    Some(p) => Some(p@),
                    None => None,
                },
            }),
        }
    }
}

/// The fixed diagnostic file name for a failure kind: one name per kind
/// that persists a body, none for the kinds that do not.
pub open spec fn spec_diagnostic_file_name(k: FailureKind) -> Option<Seq<char>> {
    match k {
        FailureKind::ServerError => Some("error_response.html"@),
        FailureKind::UnexpectedContentType => Some("html_response_body.html"@),
        FailureKind::TransportError => None,
        FailureKind::DecodeError => None,
    }
}

/// The diagnostic file a failure kind persists the body under, if any.
pub fn diagnostic_file_name(k: FailureKind) -> (r: Option<&'static str>)
    ensures
        r is Some <==> spec_diagnostic_file_name(k) is Some,
        r matches Some(n) ==> spec_diagnostic_file_name(k) matches Some(m) && n@ == m,
{
    match k {
        FailureKind::ServerError => Some("error_response.html"),
        FailureKind::UnexpectedContentType => Some("html_response_body.html"),
        FailureKind::TransportError => None,
        FailureKind::DecodeError => None,
    }
}

/// The failure kind a classification surfaces as, none on success.
pub open spec fn spec_failure_kind(c: ClassificationModel) -> Option<FailureKind> {
    match c {
        ClassificationModel::Accepted { .. } => None,
        ClassificationModel::HttpError { .. } => Some(FailureKind::ServerError),
        ClassificationModel::NotJson => Some(FailureKind::UnexpectedContentType),
        ClassificationModel::SchemaMismatch => Some(FailureKind::DecodeError),
    }
}

/// Maps a classification to the kind its failure carries.
pub fn failure_kind_of(c: &Classification) -> (r: Option<FailureKind>)
    ensures
        r == spec_failure_kind(c@),
{
    match c {
        Classification::Accepted { .. } => None,
        Classification::HttpError { .. } => Some(FailureKind::ServerError),
        Classification::NotJson => Some(FailureKind::UnexpectedContentType),
        Classification::SchemaMismatch => Some(FailureKind::DecodeError),
    }
}

/// Law: the diagnostic target is a function of the failure kind alone, so a
/// later failure of the same kind lands on the same file name, and the
/// caller's write replaces the earlier body rather than extending the file.
pub proof fn lemma_diagnostic_target_fixed(c1: ClassificationModel, c2: ClassificationModel)
    requires
        spec_failure_kind(c1) == spec_failure_kind(c2),
        spec_failure_kind(c1) is Some,
    ensures
        spec_diagnostic_file_name(spec_failure_kind(c1)->0) == spec_diagnostic_file_name(
            spec_failure_kind(c2)->0),
{
}

/// The note a failure message ends with: where the body was persisted, or
/// that persisting it failed.
pub open spec fn spec_path_note(p: Option<Seq<char>>) -> Seq<char> {
    match p {
        Some(path) => "; the response body was saved to: "@ + path,
        None => "; the response body could not be saved"@,
    }
}

pub open spec fn spec_server_error_message(status: u16, p: Option<Seq<char>>) -> Seq<char> {
    "the remote endpoint returned an error response (status "@ + spec_decimal(status as nat)
        + ")"@ + spec_path_note(p)
}

pub open spec fn spec_content_type_message(p: Option<Seq<char>>) -> Seq<char> {
    "the remote endpoint returned a response that is not JSON (HTML detected)"@ + spec_path_note(p)
}

pub open spec fn spec_decode_error_message(body: Seq<char>) -> Seq<char> {
    "the response was JSON but not of the expected shape; response body: "@ + body
}

pub open spec fn spec_transport_message(url: Seq<char>, cause: Seq<char>) -> Seq<char> {
    "the request to the remote endpoint failed (URL: "@ + url + "): "@ + cause
}

/// View of an optional owned path.
pub open spec fn spec_opt_path(p: Option<String>) -> Option<Seq<char>> {
    match p {
        Some(s) => Some(s@),
        None => None,
    }
}

fn append_path_note(m: &mut String, p: &Option<String>)
    ensures
        final(m)@ == old(m)@ + spec_path_note(spec_opt_path(*p)),
{
    match p {
        Some(path) => {
            m.append("; the response body was saved to: ");
            m.append(path.as_str());
            proof {
                assert(old(m)@ + "; the response body was saved to: "@ + path@ =~= old(m)@
                    + spec_path_note(spec_opt_path(*p)));
            }
        },
        None => {
            m.append("; the response body could not be saved");
        },
    }
}

/// The outcome a classified response surfaces as, given where the caller's
/// diagnostic sink persisted the body (if it did). Only the two persisting
/// kinds carry a path; a decode failure instead carries the body inline.
pub open spec fn spec_outcome_for(c: ClassificationModel, body: Seq<char>,
    p: Option<Seq<char>>) -> OutcomeModel {
    match c {
        ClassificationModel::Accepted { text } => OutcomeModel::Success { text },
        ClassificationModel::HttpError { status } => (OutcomeModel::Failure {
            kind: FailureKind::ServerError,
            message: spec_server_error_message(status, p),
            diagnostic_path: p,
        }),
        ClassificationModel::NotJson => (OutcomeModel::Failure {
            kind: FailureKind::UnexpectedContentType,
            message: spec_content_type_message(p),
            diagnostic_path: p,
        }),
        ClassificationModel::SchemaMismatch => (OutcomeModel::Failure {
            kind: FailureKind::DecodeError,
            message: spec_decode_error_message(body),
            diagnostic_path: None,
        }),
    }
}

/// Builds the caller-facing outcome for a classified response.
pub fn outcome_for(c: Classification, body: &str, diagnostic_path: Option<String>) -> (o: Outcome)
    ensures
        o@ == spec_outcome_for(c@, body@, spec_opt_path(diagnostic_path)),
{
    match c {
        Classification::Accepted { text } => Outcome::Success { text },
        Classification::HttpError { status } => {
            let mut m = String::new();
            m.append("the remote endpoint returned an error response (status ");
            let digits = decimal_string(status as u64);
            m.append(digits.as_str());
            m.append(")");
            append_path_note(&mut m, &diagnostic_path);
            proof {
                assert(Seq::<char>::empty()
                    + "the remote endpoint returned an error response (status "@
                    + spec_decimal(status as nat) + ")"@ + spec_path_note(
                    spec_opt_path(diagnostic_path)) =~= spec_server_error_message(
                    status as u16, spec_opt_path(diagnostic_path)));
            }
            Outcome::Failure {
                kind: FailureKind::ServerError,
                message: m,
                diagnostic_path,
            }
        },
        Classification::NotJson => {
            let mut m = String::new();
            m.append("the remote endpoint returned a response that is not JSON (HTML detected)");
            append_path_note(&mut m, &diagnostic_path);
            proof {
                assert(Seq::<char>::empty()
                    + "the remote endpoint returned a response that is not JSON (HTML detected)"@
                    + spec_path_note(spec_opt_path(diagnostic_path)) =~= spec_content_type_message(
                    spec_opt_path(diagnostic_path)));
            }
            Outcome::Failure {
                kind: FailureKind::UnexpectedContentType,
                message: m,
                diagnostic_path,
            }
        },
        Classification::SchemaMismatch => {
            let mut m = String::new();
            m.append("the response was JSON but not of the expected shape; response body: ");
            m.append(body);
            proof {
                assert(Seq::<char>::empty()
                    + "the response was JSON but not of the expected shape; response body: "@
                    + body@ =~= spec_decode_error_message(body@));
            }
            Outcome::Failure {
                kind: FailureKind::DecodeError,
                message: m,
                diagnostic_path: None,
            }
        },
    }
}

/// Builds the outcome for a transport failure: the message names the target
/// URL and the underlying cause, and no diagnostic file is involved.
pub fn transport_failure(url: &str, cause: &str) -> (o: Outcome)
    ensures
        o@ == (OutcomeModel::Failure {
            kind: FailureKind::TransportError,
            message: spec_transport_message(url@, cause@),
            diagnostic_path: None,
        }),
{
    let mut m = String::new();
    m.append("the request to the remote endpoint failed (URL: ");
    m.append(url);
    m.append("): ");
    m.append(cause);
    proof {
        assert(Seq::<char>::empty() + "the request to the remote endpoint failed (URL: "@ + url@
            + "): "@ + cause@ =~= spec_transport_message(url@, cause@));
    }
    Outcome::Failure { kind: FailureKind::TransportError, message: m, diagnostic_path: None }
}

impl Outcome {
    /// The result text, or the failure message: the string form the
    /// surrounding layer hands to its caller.
    pub fn into_result(self) -> (r: Result<String, String>)
        ensures
            self@ matches OutcomeModel::Success { text } ==> r matches Ok(t) && t@ == text,
            self@ matches OutcomeModel::Failure { kind, message, .. } ==> r matches Err(e)
                && e@ == message,
    {
        match self {
            Outcome::Success { text } => Ok(text),
            Outcome::Failure { message, .. } => Err(message),
        }
    }
}

} // verus!
