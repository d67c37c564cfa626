//! The validation callback: from the server's token and role to the reply.
//!
//! The texts come as bytes. A callback that [`validate_cb_start`] lets through submits its request
//! to the worker, and [`validate_cb_finish`] turns the worker's answer into the reply.
use crate::text::{contains_nul, parse_utf8, utf8_error_text};
use crate::validator::{Identity, ValidationResult};
use vstd::prelude::*;
use vstd::string::*;
use vstd::utf8::*;

verus! {

/// What the callback table has to start with.
pub const PG_OAUTH_VALIDATOR_MAGIC: u32 = 0x20250220;

/// What the server is told about a token.
#[derive(Debug)]
pub struct ValidatorModuleResult {
    pub authorized: bool,
    pub authn_id: Option<String>,
}

/// The reply to the server: whether the validator could do its work, and what it found.
#[derive(Debug)]
pub struct CallbackReply {
    pub completed: bool,
    pub result: ValidatorModuleResult,
}

/// What a reply stands for.
pub struct ReplyView {
    pub completed: bool,
    pub authorized: bool,
    pub authn_id: Option<Seq<char>>,
}

impl View for CallbackReply {
    type V = ReplyView;

    open spec fn view(&self) -> ReplyView {
        ReplyView {
            completed: self.completed,
            authorized: self.result.authorized,
            authn_id: match self.result.authn_id {
                Some(id) => Some(id@),
                None => None,
            },
        }
    }
}

/// A reply that grants nothing.
pub open spec fn denial(completed: bool) -> ReplyView {
    ReplyView { completed, authorized: false, authn_id: None }
}

/// A reply that grants nothing.
fn deny(completed: bool) -> (reply: CallbackReply)
    ensures
        reply@ == denial(completed),
{
    CallbackReply { completed, result: ValidatorModuleResult { authorized: false, authn_id: None } }
}

/// What the callback does with its arguments.
pub enum CallbackStep {
    /// Submit this request to the worker.
    Submit { token: String, role: String },
    /// Reply at once, for this reason.
    Refuse { reason: String, reply: CallbackReply },
}

/// The role that is submitted for the given bytes.
pub open spec fn role_text(role: Seq<u8>) -> Seq<char> {
    if valid_utf8(role) {
        decode_utf8(role)
    } else {
        "unknown"@
    }
}

/// Reads the token and the role. Without a readable token there is nothing to validate; an
/// unreadable role is replaced.
pub fn validate_cb_start(token: &[u8], role: &[u8]) -> (step: CallbackStep)
    ensures
        match step {
            CallbackStep::Submit { token: token_text, role: submitted_role } => {
                &&& valid_utf8(token@)
                &&& token_text@ == decode_utf8(token@)
                &&& submitted_role@ == role_text(role@)
            },
            CallbackStep::Refuse { reason, reply } => {
                &&& !valid_utf8(token@)
                &&& reason@ == utf8_error_text(token@)
                &&& reply@ == denial(false)
            },
        },
{
    let token = match parse_utf8(token) {
        Ok(token) => token,
        Err(reason) => {
            return CallbackStep::Refuse { reason, reply: deny(false) };
        },
    };
    let role = match parse_utf8(role) {
        Ok(role) => role,
        Err(_) => "unknown".to_owned(),
    };
    CallbackStep::Submit { token, role }
}

/// The reply to a validation: the identity, unless it cannot be handed over as a C string because
/// it has a NUL in it, or a denial.
pub open spec fn reply_to(outcome: Result<Identity, Seq<char>>) -> ReplyView {
    match outcome {
        Ok(identity) => if identity.authenticated_id.contains('\0') {
            denial(false)
        } else {
            ReplyView {
                completed: true,
                authorized: identity.authorized,
                authn_id: Some(identity.authenticated_id),
            }
        },
        Err(_) => denial(true),
    }
}

/// What the worker's answer stands for.
pub open spec fn answer_view(outcome: Result<ValidationResult, String>) -> Result<
    Identity,
    Seq<char>,
> {
    match outcome {
        Ok(result) => Ok(result@),
        Err(message) => Err(message@),
    }
}

/// Turns the worker's answer into the reply.
pub fn validate_cb_finish(outcome: Result<ValidationResult, String>) -> (reply: CallbackReply)
    ensures
        reply@ == reply_to(answer_view(outcome)),
{
    match outcome {
        Ok(result) => {
            if contains_nul(result.authenticated_id.as_str()) {
                deny(false)
            } else {
                CallbackReply {
                    completed: true,
                    result: ValidatorModuleResult {
                        authorized: result.authorized,
                        authn_id: Some(result.authenticated_id),
                    },
                }
            }
        },
        Err(_) => deny(true),
    }
}

} // verus!
