use std::sync::Arc;

use flowist::context::{decision_of, graphql_handler, Context, RequestScope};
use flowist::executor::{check_selection, execute, resolve_field, RequestError};
use flowist::gate::{access_request, check, Decision, GateError, Guard, PolicyEngineError};
use flowist::schema::{
    compose, create_schema, find_field, FieldDef, Mutation, ObjectModule, Operation, Query,
    Schema, SchemaError,
};
use flowist::subject::{extract_subject, Subject};

fn public_field(name: &str) -> FieldDef {
    FieldDef { name: name.to_string(), guard: None, nullable: true }
}

fn protected_field(name: &str, nullable: bool) -> FieldDef {
    FieldDef {
        name: name.to_string(),
        guard: Some(Guard { action: "read".to_string(), resource: "secret".to_string() }),
        nullable,
    }
}

fn names(v: &[&str]) -> Vec<String> {
    v.iter().map(|s| s.to_string()).collect()
}

fn engine_error() -> PolicyEngineError {
    PolicyEngineError { message: "unreachable".to_string() }
}

fn context_with_policy(policy: &str) -> Context {
    let mut engine = oso::Oso::new();
    engine.load_str(policy).unwrap();
    Context { db: Arc::new(sea_orm::DatabaseConnection::Disconnected), oso: engine }
}

#[test]
fn subject_from_bearer_header() {
    assert_eq!(extract_subject(Some("Bearer alice")).0, Some("alice".to_string()));
    assert_eq!(extract_subject(Some("Bearer a b")).0, Some("a b".to_string()));
}

#[test]
fn subject_anonymous_without_credentials() {
    assert!(extract_subject(None).is_anonymous());
    assert!(extract_subject(Some("")).is_anonymous());
    assert!(extract_subject(Some("Bearer ")).is_anonymous());
    assert!(extract_subject(Some("Bearer")).is_anonymous());
    assert!(extract_subject(Some("bearer alice")).is_anonymous());
    assert!(extract_subject(Some("Basic YWxpY2U6")).is_anonymous());
    assert!(Subject::anonymous().is_anonymous());
}

#[test]
fn gate_allows_only_explicit_allow() {
    let alice = Subject(Some("alice".to_string()));
    assert_eq!(check(&alice, &Ok(Decision::Allow)), Ok(()));
    assert_eq!(check(&alice, &Ok(Decision::Deny)), Err(GateError::Denied));
    assert_eq!(check(&alice, &Err(engine_error())), Err(GateError::EngineFailed));
    let anon = Subject(None);
    assert_eq!(check(&anon, &Ok(Decision::Allow)), Err(GateError::Unauthenticated));
    assert_eq!(check(&anon, &Err(engine_error())), Err(GateError::Unauthenticated));
    assert_eq!(GateError::Denied.message(), "Forbidden");
    assert_eq!(GateError::EngineFailed.message(), "Forbidden");
    assert_eq!(GateError::Unauthenticated.message(), "Forbidden");
}

#[test]
fn access_request_names_subject_and_guard() {
    let guard = Guard { action: "read".to_string(), resource: "secret".to_string() };
    let q = access_request(&Subject(Some("alice".to_string())), &guard).unwrap();
    assert_eq!(q.principal, "alice");
    assert_eq!(q.action, "read");
    assert_eq!(q.resource, "secret");
    assert!(access_request(&Subject(None), &guard).is_none());
}

#[test]
fn compose_keeps_module_order() {
    let a = ObjectModule { fields: vec![public_field("users"), public_field("me")] };
    let b = ObjectModule { fields: vec![protected_field("secret", true)] };
    let all = compose(&vec![a, b]).unwrap();
    let got: Vec<&str> = all.iter().map(|f| f.name.as_str()).collect();
    assert_eq!(got, vec!["users", "me", "secret"]);
}

#[test]
fn compose_rejects_name_collision() {
    let a = ObjectModule { fields: vec![public_field("users"), public_field("me")] };
    let b = ObjectModule { fields: vec![public_field("me")] };
    match compose(&vec![a, b]) {
        Err(SchemaError::Conflict { name }) => assert_eq!(name, "me"),
        Ok(_) => panic!("collision accepted"),
    }
    let c = ObjectModule { fields: vec![public_field("x"), public_field("x")] };
    assert!(compose(&vec![c]).is_err());
    assert!(compose(&vec![]).unwrap().is_empty());
}

#[test]
fn compose_order_does_not_matter() {
    let mk_a = || ObjectModule { fields: vec![public_field("users"), public_field("me")] };
    let mk_b = || ObjectModule { fields: vec![public_field("posts")] };
    let ab = compose(&vec![mk_a(), mk_b()]).unwrap();
    let ba = compose(&vec![mk_b(), mk_a()]).unwrap();
    let mut x: Vec<String> = ab.iter().map(|f| f.name.clone()).collect();
    let mut y: Vec<String> = ba.iter().map(|f| f.name.clone()).collect();
    x.sort();
    y.sort();
    assert_eq!(x, y);
    let mk_c = || ObjectModule { fields: vec![public_field("me")] };
    assert!(compose(&vec![mk_a(), mk_c()]).is_err());
    assert!(compose(&vec![mk_c(), mk_a()]).is_err());
}

#[test]
fn service_schema_builds() {
    let s = create_schema(&Query::default(), &Mutation::default()).unwrap();
    assert!(s.query.is_empty());
    assert!(s.mutation.is_empty());
    let q = ObjectModule { fields: vec![public_field("a")] };
    let m = ObjectModule { fields: vec![public_field("a")] };
    let both = Schema::build(&vec![q], &vec![m]).unwrap();
    assert_eq!(both.query.len(), 1);
    assert_eq!(both.mutation.len(), 1);
}

#[test]
fn find_field_by_name() {
    let fields = vec![public_field("a"), public_field("bb")];
    assert_eq!(find_field(&fields, "bb"), Some(1));
    assert_eq!(find_field(&fields, "b"), None);
}

#[test]
fn public_fields_without_auth() {
    let root = vec![public_field("hello"), public_field("version")];
    let sel = names(&["hello", "version"]);
    let subject = extract_subject(None);
    let decisions = vec![Ok(Decision::Deny), Err(engine_error())];
    let resolved = vec![Ok("world".to_string()), Ok("1".to_string())];
    let resp = execute(&root, &sel, &subject, &decisions, &resolved).unwrap();
    assert!(resp.errors.is_empty());
    let data = resp.data.unwrap();
    assert_eq!(data.len(), 2);
    assert_eq!(data[0].name, "hello");
    assert_eq!(data[0].value, Some("world".to_string()));
    assert_eq!(data[1].name, "version");
    assert_eq!(data[1].value, Some("1".to_string()));
}

#[test]
fn protected_field_denied() {
    let root = vec![protected_field("field", true)];
    let sel = names(&["field"]);
    let subject = Subject(Some("alice".to_string()));
    let resolved = vec![Ok("secret data".to_string())];
    let resp = execute(&root, &sel, &subject, &vec![Ok(Decision::Deny)], &resolved).unwrap();
    let data = resp.data.unwrap();
    assert_eq!(data.len(), 1);
    assert_eq!(data[0].name, "field");
    assert_eq!(data[0].value, None);
    assert_eq!(resp.errors.len(), 1);
    assert_eq!(resp.errors[0].message, "Forbidden");
    assert_eq!(resp.errors[0].path, names(&["field"]));
}

#[test]
fn protected_field_engine_failure_is_forbidden() {
    let root = vec![public_field("open"), protected_field("field", true)];
    let sel = names(&["open", "field"]);
    let subject = Subject(Some("alice".to_string()));
    let decisions = vec![Ok(Decision::Allow), Err(engine_error())];
    let resolved = vec![Ok("o".to_string()), Ok("secret data".to_string())];
    let resp = execute(&root, &sel, &subject, &decisions, &resolved).unwrap();
    let data = resp.data.unwrap();
    assert_eq!(data[0].value, Some("o".to_string()));
    assert_eq!(data[1].value, None);
    assert_eq!(resp.errors.len(), 1);
    assert_eq!(resp.errors[0].message, "Forbidden");
    assert_eq!(resp.errors[0].path, names(&["field"]));
}

#[test]
fn protected_field_allowed() {
    let root = vec![protected_field("field", false)];
    let sel = names(&["field"]);
    let subject = Subject(Some("alice".to_string()));
    let resolved = vec![Ok("secret data".to_string())];
    let resp = execute(&root, &sel, &subject, &vec![Ok(Decision::Allow)], &resolved).unwrap();
    assert!(resp.errors.is_empty());
    assert_eq!(resp.data.unwrap()[0].value, Some("secret data".to_string()));
}

#[test]
fn anonymous_request_protected_field_forbidden() {
    let root = vec![public_field("open"), protected_field("field", true)];
    let sel = names(&["field", "open"]);
    let decisions = vec![Ok(Decision::Allow), Ok(Decision::Allow)];
    let resolved = vec![Ok("secret".to_string()), Ok("o".to_string())];
    let resp = execute(&root, &sel, &Subject(None), &decisions, &resolved).unwrap();
    let data = resp.data.unwrap();
    assert_eq!(data[0].value, None);
    assert_eq!(data[1].value, Some("o".to_string()));
    assert_eq!(resp.errors.len(), 1);
    assert_eq!(resp.errors[0].message, "Forbidden");
    assert_eq!(resp.errors[0].path, names(&["field"]));
}

#[test]
fn resolver_error_listed_with_path() {
    let root = vec![public_field("a"), public_field("b"), public_field("c")];
    let sel = names(&["a", "b", "c"]);
    let decisions = vec![Ok(Decision::Deny), Ok(Decision::Deny), Ok(Decision::Deny)];
    let resolved = vec![Err("boom".to_string()), Ok("2".to_string()), Err("bang".to_string())];
    let resp = execute(&root, &sel, &Subject(None), &decisions, &resolved).unwrap();
    let data = resp.data.unwrap();
    assert_eq!(data[0].value, None);
    assert_eq!(data[1].value, Some("2".to_string()));
    assert_eq!(data[2].value, None);
    assert_eq!(resp.errors.len(), 2);
    assert_eq!(resp.errors[0].message, "boom");
    assert_eq!(resp.errors[0].path, names(&["a"]));
    assert_eq!(resp.errors[1].message, "bang");
    assert_eq!(resp.errors[1].path, names(&["c"]));
}

#[test]
fn non_nullable_failure_voids_data() {
    let root = vec![public_field("a"), protected_field("must", false)];
    let sel = names(&["a", "must"]);
    let decisions = vec![Ok(Decision::Allow), Ok(Decision::Deny)];
    let resolved = vec![Ok("1".to_string()), Ok("2".to_string())];
    let subject = Subject(Some("bob".to_string()));
    let resp = execute(&root, &sel, &subject, &decisions, &resolved).unwrap();
    assert!(resp.data.is_none());
    assert_eq!(resp.errors.len(), 1);
    assert_eq!(resp.errors[0].message, "Forbidden");
    assert_eq!(resp.errors[0].path, names(&["must"]));
}

#[test]
fn unknown_field_rejected() {
    let root = vec![public_field("a")];
    let sel = names(&["a", "zzz"]);
    let decisions = vec![Ok(Decision::Allow), Ok(Decision::Allow)];
    let resolved = vec![Ok("1".to_string()), Ok("2".to_string())];
    match execute(&root, &sel, &Subject(None), &decisions, &resolved) {
        Err(RequestError::UnknownField { name }) => assert_eq!(name, "zzz"),
        Ok(_) => panic!("unknown field accepted"),
    }
}

#[test]
fn resolve_field_passes_value_when_allowed() {
    let f = protected_field("f", true);
    let alice = Subject(Some("alice".to_string()));
    let v = Ok("data".to_string());
    assert_eq!(resolve_field(&f, &alice, &Ok(Decision::Allow), &v), Ok("data".to_string()));
    assert_eq!(resolve_field(&f, &alice, &Ok(Decision::Deny), &v), Err("Forbidden".to_string()));
    let p = public_field("p");
    assert_eq!(resolve_field(&p, &Subject(None), &Ok(Decision::Deny), &v), Ok("data".to_string()));
}

#[test]
fn engine_answers_through_context() {
    let ctx = context_with_policy("allow(\"alice\", \"read\", \"secret\");");
    let guard = Guard { action: "read".to_string(), resource: "secret".to_string() };
    assert_eq!(ctx.authorize(&Subject(Some("alice".to_string())), &guard), Ok(()));
    assert_eq!(
        ctx.authorize(&Subject(Some("bob".to_string())), &guard),
        Err(GateError::Denied)
    );
    assert_eq!(ctx.authorize(&Subject(None), &guard), Err(GateError::Unauthenticated));
    let write = Guard { action: "write".to_string(), resource: "secret".to_string() };
    assert_eq!(
        ctx.authorize(&Subject(Some("alice".to_string())), &write),
        Err(GateError::Denied)
    );
}

#[test]
fn handler_applies_engine_decisions() {
    let ctx = context_with_policy("allow(\"alice\", \"read\", \"secret\");");
    let schema = Schema::build(
        &vec![ObjectModule { fields: vec![public_field("open"), protected_field("field", true)] }],
        &vec![],
    )
    .unwrap();
    let sel = names(&["open", "field"]);
    let resolved = vec![Ok("o".to_string()), Ok("secret data".to_string())];
    let alice = extract_subject(Some("Bearer alice"));
    let ok = graphql_handler(&schema, &ctx, &alice, Operation::Query, &sel, &resolved).unwrap();
    assert!(ok.errors.is_empty());
    assert_eq!(ok.data.unwrap()[1].value, Some("secret data".to_string()));
    let bob = extract_subject(Some("Bearer bob"));
    let denied = graphql_handler(&schema, &ctx, &bob, Operation::Query, &sel, &resolved).unwrap();
    let data = denied.data.unwrap();
    assert_eq!(data[0].value, Some("o".to_string()));
    assert_eq!(data[1].value, None);
    assert_eq!(denied.errors.len(), 1);
    assert_eq!(denied.errors[0].message, "Forbidden");
    assert_eq!(denied.errors[0].path, names(&["field"]));
    assert!(graphql_handler(&schema, &ctx, &bob, Operation::Mutation, &sel, &resolved).is_err());
}

#[test]
fn engine_answer_read_as_decision() {
    assert_eq!(decision_of(Ok(true)).unwrap(), Decision::Allow);
    assert_eq!(decision_of(Ok(false)).unwrap(), Decision::Deny);
    let failed = decision_of(Err(oso::OsoError::Custom { message: "down".to_string() }));
    assert_eq!(failed.unwrap_err().message, "down");
}

#[test]
fn selection_checked_before_execution() {
    let root = vec![public_field("a"), public_field("b")];
    assert!(check_selection(&root, &names(&["b", "a"])).is_ok());
    assert!(check_selection(&root, &vec![]).is_ok());
    match check_selection(&root, &names(&["a", "nope"])) {
        Err(RequestError::UnknownField { name }) => assert_eq!(name, "nope"),
        Ok(_) => panic!("unknown field accepted"),
    }
}

#[test]
fn handler_rejects_unknown_field() {
    let ctx = context_with_policy("allow(\"alice\", \"read\", \"secret\");");
    let schema = Schema::build(
        &vec![ObjectModule { fields: vec![protected_field("field", true)] }],
        &vec![],
    )
    .unwrap();
    let sel = names(&["field", "missing"]);
    let resolved = vec![Ok("x".to_string()), Ok("y".to_string())];
    let alice = Subject(Some("alice".to_string()));
    match graphql_handler(&schema, &ctx, &alice, Operation::Query, &sel, &resolved) {
        Err(RequestError::UnknownField { name }) => assert_eq!(name, "missing"),
        Ok(_) => panic!("unknown field accepted"),
    }
}

#[test]
fn request_scope_checks_for_its_subject() {
    let ctx = context_with_policy("allow(\"alice\", \"read\", \"secret\");");
    let guard = Guard { action: "read".to_string(), resource: "secret".to_string() };
    let alice = Subject(Some("alice".to_string()));
    let scope = RequestScope::new(&alice, &ctx);
    assert!(scope.principal.is_none());
    assert_eq!(scope.authorize(&guard), Ok(()));
    let anon = Subject(None);
    let scope = RequestScope::new(&anon, &ctx);
    assert_eq!(scope.authorize(&guard), Err(GateError::Unauthenticated));
}

#[test]
fn subject_compares_by_principal() {
    assert_eq!(extract_subject(Some("Bearer alice")), Subject(Some("alice".to_string())));
    assert_eq!(extract_subject(None), Subject::anonymous());
    assert_ne!(extract_subject(Some("Bearer alice")), Subject(None));
}
