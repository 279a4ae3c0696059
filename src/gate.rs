use vstd::prelude::*;

use crate::subject::Subject;

verus! {

/// What the authorization engine answered for one access request.
#[derive(Debug, Clone, Copy, PartialEq, Eq, Structural)]
pub enum Decision {
    Allow,
    Deny,
}

/// The authorization engine could not be reached or could not evaluate the request.
#[derive(Debug)]
pub struct PolicyEngineError {
    pub message: String,
}

/// Why the authorization check refused access. Every variant reaches the caller as the same
/// `Forbidden` field error; they stay apart so that each can be logged as such.
#[derive(Debug, Clone, Copy, PartialEq, Eq, Structural)]
pub enum GateError {
    /// The request carries no identity, so the engine is not asked.
    Unauthenticated,
    /// The engine answered `Deny`.
    Denied,
    /// The engine failed; access is refused all the same.
    EngineFailed,
}

/// What a protected field names to the engine: the action performed and the
/// resource it is performed on.
#[derive(Debug)]
pub struct Guard {
    pub action: String,
    pub resource: String,
}

/// The question put to the authorization engine: may `principal` perform
/// `action` on `resource`?
#[derive(Debug)]
pub struct AccessRequest {
    pub principal: String,
    pub action: String,
    pub resource: String,
}

impl Guard {
    pub fn duplicate(&self) -> (r: Guard)
        ensures
            r == *self,
    {
        Guard { action: self.action.clone(), resource: self.resource.clone() }
    }
}

/// The message that a refused field carries in the response.
pub open spec fn forbidden_message() -> Seq<char> {
    seq!['F', 'o', 'r', 'b', 'i', 'd', 'd', 'e', 'n']
}

impl GateError {
    /// The caller-visible message, the same for every variant.
    pub fn message(&self) -> (r: String)
        ensures
            r@ == forbidden_message(),
    {
        let s = "Forbidden";
        proof {
            reveal_strlit("Forbidden");
            assert(s@ =~= forbidden_message());
        }
        String::from_str(s)
    }
}

/// The verdict of the authorization check for a subject, given what the engine answered.
pub open spec fn gate_verdict(
    subject: Option<Seq<char>>,
    outcome: Result<Decision, ()>,
) -> Result<(), GateError> {
    match subject {
        None => Err(GateError::Unauthenticated),
        Some(_) => match outcome {
            Ok(Decision::Allow) => Ok(()),
            Ok(Decision::Deny) => Err(GateError::Denied),
            Err(_) => Err(GateError::EngineFailed),
        },
    }
}

/// The engine's answer with the error's content left out.
pub open spec fn outcome_shape(outcome: &Result<Decision, PolicyEngineError>) -> Result<Decision, ()> {
    match outcome {
        Ok(d) => Ok(*d),
        Err(_) => Err(()),
    }
}

/// The access request to put to the engine for `subject` under `guard`, or
/// `None` for an anonymous subject, which is refused without asking.
pub fn access_request(subject: &Subject, guard: &Guard) -> (r: Option<AccessRequest>)
    ensures
        r is None <==> subject@ is None,
        r matches Some(q) ==> (subject@ == Some(q.principal@) && q.action@ == guard.action@
            && q.resource@ == guard.resource@),
{
    match &subject.0 {
        None => None,
        Some(p) => Some(
            AccessRequest {
                principal: p.clone(),
                action: guard.action.clone(),
                resource: guard.resource.clone(),
            },
        ),
    }
}

/// Fail-closed authorization: access is granted only to a subject with an
/// identity for whom the engine answered `Allow`. A denial and an engine
/// failure both refuse access.
pub fn check(subject: &Subject, outcome: &Result<Decision, PolicyEngineError>) -> (r: Result<
    (),
    GateError,
>)
    ensures
        r == gate_verdict(subject@, outcome_shape(outcome)),
        r is Ok <==> (subject@ is Some && outcome_shape(outcome) == Ok::<Decision, ()>(
            Decision::Allow,
        )),
{
    if subject.is_anonymous() {
        return Err(GateError::Unauthenticated);
    }
    match outcome {
        Ok(Decision::Allow) => Ok(()),
        Ok(Decision::Deny) => Err(GateError::Denied),
        Err(_) => Err(GateError::EngineFailed),
    }
}

} // verus!
