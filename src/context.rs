use std::sync::Arc;

use vstd::prelude::*;

use crate::executor::{check_selection, execute, has_field, lemma_anonymous_ignores_engine, response_of, selection_valid, RequestError, Response};
use crate::gate::{access_request, check, AccessRequest, Decision, GateError, Guard, PolicyEngineError};
use crate::schema::{Operation, Schema};
use crate::subject::Subject;

verus! {

#[verifier::external_type_specification]
#[verifier::external_body]
pub struct ExOso(oso::Oso);

#[verifier::external_type_specification]
#[verifier::external_body]
pub struct ExOsoError(oso::OsoError);

#[verifier::external_type_specification]
#[verifier::external_body]
pub struct ExDatabaseConnection(sea_orm::DatabaseConnection);

/// The process-wide handles shared by every request: the pooled database
/// connection and the authorization engine. It is built once at startup and
/// only read afterwards.
pub struct Context {
    /// The database connection pool.
    pub db: Arc<sea_orm::DatabaseConnection>,
    /// The authorization engine.
    pub oso: oso::Oso,
}

/// Relies on oso::Oso::is_allowed: evaluates the loaded policy's `allow` rule
/// for (actor, action, resource); `Ok(true)` when a result is found, `Ok(false)`
/// when none is, `Err` when evaluation fails. What it answers depends on the
/// policy loaded into the engine, so nothing is promised of it here.
#[verifier::external_body]
fn engine_is_allowed(engine: &oso::Oso, actor: &String, action: &String, resource: &String) -> (r:
    Result<bool, oso::OsoError>) {
    engine.is_allowed(actor.clone(), action.clone(), resource.clone())
}

impl Context {
    /// Asks the authorization engine whether `subject` may perform the
    /// guarded action. An anonymous subject is refused without asking; an
    /// engine failure refuses as a denial does.
    pub fn authorize(&self, subject: &Subject, guard: &Guard) -> (r: Result<(), GateError>)
        ensures
            subject@ is None ==> r == Err::<(), GateError>(GateError::Unauthenticated),
            subject@ is Some ==> r != Err::<(), GateError>(GateError::Unauthenticated),
    {
        let request = match access_request(subject, guard) {
            None => {
                return Err(GateError::Unauthenticated);
            },
            Some(q) => q,
        };
        let outcome = self.ask(&request);
        check(subject, &outcome)
    }

    /// Puts one access request to the authorization engine and reads its
    /// answer with `decision_of`.
    pub fn ask(&self, request: &AccessRequest) -> (r: Result<Decision, PolicyEngineError>) {
        let answer = engine_is_allowed(
            &self.oso,
            &request.principal,
            &request.action,
            &request.resource,
        );
        decision_of(answer)
    }
}

/// Reads the engine's answer: `true` allows, `false` denies, and an
/// evaluation error stays an error, which the authorization check refuses.
pub fn decision_of(answer: Result<bool, oso::OsoError>) -> (r: Result<Decision, PolicyEngineError>)
    ensures
        answer matches Ok(b) ==> r == Ok::<Decision, PolicyEngineError>(
            if b {
                Decision::Allow
            } else {
                Decision::Deny
            },
        ),
        answer is Err ==> r is Err,
{
    match answer {
        Ok(true) => Ok(Decision::Allow),
        Ok(false) => Ok(Decision::Deny),
        Err(e) => Err(PolicyEngineError { message: e.to_string() }),
    }
}

/// What the resolvers of one request share: its subject, the principal
/// record resolved for it (not yet looked up when the scope is made), and
/// the process-wide context. It lives as long as the request.
pub struct RequestScope<'a> {
    pub subject: &'a Subject,
    pub principal: Option<String>,
    pub ctx: &'a Context,
}

impl<'a> RequestScope<'a> {
    pub fn new(subject: &'a Subject, ctx: &'a Context) -> (r: RequestScope<'a>)
        ensures
            r.subject == subject,
            r.ctx == ctx,
            r.principal is None,
    {
        RequestScope { subject, principal: None, ctx }
    }

    /// The check a resolver makes before it reads or changes a protected
    /// resource, for the subject of this request.
    pub fn authorize(&self, guard: &Guard) -> (r: Result<(), GateError>)
        ensures
            self.subject@ is None ==> r == Err::<(), GateError>(GateError::Unauthenticated),
            self.subject@ is Some ==> r != Err::<(), GateError>(GateError::Unauthenticated),
    {
        self.ctx.authorize(self.subject, guard)
    }
}

/// Answers one GraphQL operation for `subject`: asks the engine about each
/// selected protected field when the subject has an identity, then executes
/// the selection on the operation's root. Whatever the engine answers, the
/// response is the one `execute` gives for some answers of the engine; for
/// an anonymous subject it is the one `execute` gives for any answers. An
/// unknown field rejects the request before the engine is asked.
///
/// The resolvers' results come in as `resolved`, so they are computed before
/// this call: a resolver that reads or changes a protected resource must make
/// its own check first, through `RequestScope::authorize`.
pub fn graphql_handler(
    schema: &Schema,
    ctx: &Context,
    subject: &Subject,
    operation: Operation,
    selection: &Vec<String>,
    resolved: &Vec<Result<String, String>>,
) -> (r: Result<Response, RequestError>)
    requires
        schema.wf(),
        resolved@.len() == selection@.len(),
    ensures
        r is Ok <==> selection_valid(schema.root_spec(operation), selection@),
        r matches Err(RequestError::UnknownField { name }) ==> exists|i: int|
            0 <= i < selection@.len() && selection@[i]@ == name@ && !has_field(
                schema.root_spec(operation),
                name@,
            ),
        r matches Ok(resp) ==> exists|ds: Seq<Result<Decision, PolicyEngineError>>|
            ds.len() == selection@.len() && response_of(
                resp,
                schema.root_spec(operation),
                selection@,
                subject@,
                ds,
                resolved@,
            ),
        subject@ is None ==> (r matches Ok(resp) ==> forall|
            ds: Seq<Result<Decision, PolicyEngineError>>,
        |
            ds.len() == selection@.len() ==> #[trigger] response_of(
                resp,
                schema.root_spec(operation),
                selection@,
                subject@,
                ds,
                resolved@,
            )),
{
    let root = schema.root(operation);
    check_selection(root, selection)?;
    let mut decisions: Vec<Result<Decision, PolicyEngineError>> = Vec::new();
    let n = selection.len();
    let mut i: usize = 0;
    while i < n
        invariant
            n == selection@.len(),
            0 <= i <= n,
            decisions@.len() == i,
        decreases n - i,
    {
        let mut decision: Result<Decision, PolicyEngineError> = Ok(Decision::Deny);
        if let Some(k) = crate::schema::find_field(root, selection[i].as_str()) {
            if let Some(guard) = &root[k].guard {
                if let Some(request) = access_request(subject, guard) {
                    decision = ctx.ask(&request);
                }
            }
        }
        decisions.push(decision);
        i = i + 1;
    }
    let r = execute(root, selection, subject, &decisions, resolved);
    proof {
        if r is Ok {
            let resp = r->Ok_0;
            assert(decisions@.len() == selection@.len() && response_of(
                resp,
                schema.root_spec(operation),
                selection@,
                subject@,
                decisions@,
                resolved@,
            ));
            if subject@ is None {
                assert forall|ds: Seq<Result<Decision, PolicyEngineError>>|
                    ds.len() == selection@.len() implies #[trigger] response_of(
                    resp,
                    schema.root_spec(operation),
                    selection@,
                    subject@,
                    ds,
                    resolved@,
                ) by {
                    lemma_anonymous_ignores_engine(
                        schema.root_spec(operation),
                        selection@,
                        decisions@,
                        ds,
                        resolved@,
                    );
                }
            }
        }
    }
    r
}

} // verus!
