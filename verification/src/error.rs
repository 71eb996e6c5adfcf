//! The failures the plugin reports, and the text each one is reported with.

use vstd::prelude::*;
use vstd::string::*;
use crate::registry::{available_text, available_text_spec, lemma_available_text, Features};

verus! {

/// Why a request for a secret, or the set-up of the backend, failed.
#[derive(Debug, Clone, PartialEq, Eq)]
pub enum ClientError {
    /// The requested name is not a resource URI; holds the name.
    InvalidResourceUri(String),
    /// The kernel command line could not be read; holds the cause.
    BootReadError(String),
    /// No token of the command line starts with `agent.aa_kbc_params=`.
    MissingParameter,
    /// The parameter's value is not of the form `kind::host`.
    MalformedParameter,
    /// The kind token names no backend of this build; holds the token.
    UnknownBackend(String),
    /// The backend's constructor failed; holds its cause.
    BackendConstructionError(String),
    /// The backend failed to fetch the resource; holds its cause.
    BackendOperationError(String),
}

impl ClientError {
    /// The text of the error in a build with `features`, as a sequence of
    /// characters. An unknown backend is reported with its token and with the
    /// tokens of the kinds that the build holds.
    pub open spec fn message_spec(self, features: Features) -> Seq<char> {
        match self {
            ClientError::InvalidResourceUri(name) => "illegal kbs resource uri: "@ + name@,
            ClientError::BootReadError(cause) => "read kernel cmdline failed: "@ + cause@,
            ClientError::MissingParameter =>
                "no `agent.aa_kbc_params` provided in kernel commandline!"@,
            ClientError::MalformedParameter =>
                "Illegal `agent.aa_kbc_params` format provided in kernel commandline."@,
            ClientError::UnknownBackend(token) => "unknown kbc name "@ + token@
                + ", only support "@ + available_text_spec(features) + "."@,
            ClientError::BackendConstructionError(cause) => cause@,
            ClientError::BackendOperationError(cause) => cause@,
        }
    }

    /// Renders the error as the text shown to callers of a build with
    /// `features`. Causes that come from a backend are shown as the backend
    /// gave them; an unknown backend is answered with the kinds of the build.
    pub fn message(&self, features: Features) -> (text: String)
        ensures
            text@ == self.message_spec(features),
    {
        match self {
            ClientError::InvalidResourceUri(name) => String::from_str(
                "illegal kbs resource uri: ",
            ).concat(name.as_str()),
            ClientError::BootReadError(cause) => String::from_str(
                "read kernel cmdline failed: ",
            ).concat(cause.as_str()),
            ClientError::MissingParameter => String::from_str(
                "no `agent.aa_kbc_params` provided in kernel commandline!",
            ),
            ClientError::MalformedParameter => String::from_str(
                "Illegal `agent.aa_kbc_params` format provided in kernel commandline.",
            ),
            ClientError::UnknownBackend(token) => {
                let available = available_text(features);
                String::from_str("unknown kbc name ").concat(token.as_str()).concat(
                    ", only support ",
                ).concat(available.as_str()).concat(".")
            },
            ClientError::BackendConstructionError(cause) => cause.clone(),
            ClientError::BackendOperationError(cause) => cause.clone(),
        }
    }
}

/// The report of an unknown backend, written out: the token that was asked
/// for, then the tokens of the kinds that the build holds and of no other.
pub proof fn lemma_unknown_backend_message(token: String, features: Features)
    ensures
        ClientError::UnknownBackend(token).message_spec(features) == "unknown kbc name "@
            + token@ + ", only support "@ + ((if features.kbs {
            "`cc_kbc`, "@
        } else {
            Seq::empty()
        }) + (if features.sev {
            "`online_sev_kbc`, "@
        } else {
            Seq::empty()
        }) + "`offline_fs_kbc`"@) + "."@,
{
    lemma_available_text(features);
}

} // verus!
