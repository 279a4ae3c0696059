use vstd::prelude::*;

use crate::gate::{check, forbidden_message, gate_verdict, outcome_shape, Decision, PolicyEngineError};
use crate::schema::{field_names, find_field, FieldDef};
use crate::subject::Subject;

verus! {

/// One error of a response: what went wrong and the path of the field it concerns.
#[derive(Debug)]
pub struct FieldError {
    pub message: String,
    pub path: Vec<String>,
}

/// One selected root field in the data tree, null where it did not resolve.
#[derive(Debug)]
pub struct Entry {
    pub name: String,
    pub value: Option<String>,
}

/// The result of one request: the data tree (null when a non-nullable field
/// failed) and the errors, in the order of the selection.
#[derive(Debug)]
pub struct Response {
    pub data: Option<Vec<Entry>>,
    pub errors: Vec<FieldError>,
}

/// The request was rejected before execution.
#[derive(Debug)]
pub enum RequestError {
    /// The selection names a field that the root does not have.
    UnknownField { name: String },
}

/// A resolver's result, or its error message, as text.
pub open spec fn text_result(r: Result<String, String>) -> Result<Seq<char>, Seq<char>> {
    match r {
        Ok(v) => Ok(v@),
        Err(e) => Err(e@),
    }
}

/// What one field yields: a protected field that the authorization check refuses yields the
/// `Forbidden` error whatever its resolver produced; any other field yields
/// its resolver's result.
pub open spec fn field_outcome(
    field: FieldDef,
    subject: Option<Seq<char>>,
    decision: Result<Decision, ()>,
    resolved: Result<Seq<char>, Seq<char>>,
) -> Result<Seq<char>, Seq<char>> {
    if field.guard is Some && gate_verdict(subject, decision) is Err {
        Err(forbidden_message())
    } else {
        resolved
    }
}

/// Whether the root has a field named `n`.
pub open spec fn has_field(root: Seq<FieldDef>, n: Seq<char>) -> bool {
    exists|j: int| 0 <= j < root.len() && root[j].name@ == n
}

/// The position of a field of the root named `n`.
pub open spec fn field_index(root: Seq<FieldDef>, n: Seq<char>) -> int {
    choose|j: int| 0 <= j < root.len() && root[j].name@ == n
}

/// The field of the root named `n`.
pub open spec fn field_named(root: Seq<FieldDef>, n: Seq<char>) -> FieldDef {
    root[field_index(root, n)]
}

/// Whether every selected name is a field of the root.
pub open spec fn selection_valid(root: Seq<FieldDef>, sel: Seq<String>) -> bool {
    forall|i: int| 0 <= i < sel.len() ==> has_field(root, #[trigger] sel[i]@)
}

/// The outcome of the `i`-th selected field.
pub open spec fn outcome_at(
    root: Seq<FieldDef>,
    sel: Seq<String>,
    subject: Option<Seq<char>>,
    decisions: Seq<Result<Decision, PolicyEngineError>>,
    resolved: Seq<Result<String, String>>,
    i: int,
) -> Result<Seq<char>, Seq<char>> {
    field_outcome(
        field_named(root, sel[i]@),
        subject,
        outcome_shape(&decisions[i]),
        text_result(resolved[i]),
    )
}

/// The outcomes of all selected fields, in order.
pub open spec fn outcomes(
    root: Seq<FieldDef>,
    sel: Seq<String>,
    subject: Option<Seq<char>>,
    decisions: Seq<Result<Decision, PolicyEngineError>>,
    resolved: Seq<Result<String, String>>,
) -> Seq<Result<Seq<char>, Seq<char>>> {
    Seq::new(sel.len(), |i: int| outcome_at(root, sel, subject, decisions, resolved, i))
}

/// The errors of a list of outcomes, each with the path of its field.
pub open spec fn error_list(outs: Seq<Result<Seq<char>, Seq<char>>>, names: Seq<Seq<char>>) -> Seq<
    (Seq<char>, Seq<Seq<char>>),
>
    decreases outs.len(),
{
    if outs.len() == 0 {
        Seq::empty()
    } else {
        let prev = error_list(outs.drop_last(), names);
        match outs.last() {
            Err(m) => prev.push((m, seq![names[outs.len() - 1]])),
            Ok(_) => prev,
        }
    }
}

/// Whether a field that may not be null failed, which voids the data tree.
pub open spec fn voids_data(
    root: Seq<FieldDef>,
    sel: Seq<String>,
    outs: Seq<Result<Seq<char>, Seq<char>>>,
) -> bool {
    exists|i: int|
        0 <= i < sel.len() && outs[i] is Err && !(#[trigger] field_named(root, sel[i]@)).nullable
}

pub open spec fn error_view(e: FieldError) -> (Seq<char>, Seq<Seq<char>>) {
    (e.message@, e.path@.map_values(|s: String| s@))
}

pub open spec fn errors_view(es: Seq<FieldError>) -> Seq<(Seq<char>, Seq<Seq<char>>)> {
    es.map_values(|e: FieldError| error_view(e))
}

pub open spec fn ok_value(r: Result<Seq<char>, Seq<char>>) -> Option<Seq<char>> {
    match r {
        Ok(v) => Some(v),
        Err(_) => None,
    }
}

pub open spec fn names_of(sel: Seq<String>) -> Seq<Seq<char>> {
    sel.map_values(|s: String| s@)
}

/// Resolves one field: consults the authorization check first when the field is protected,
/// and lets the resolver's result through only when the authorization check allows it.
pub fn resolve_field(
    field: &FieldDef,
    subject: &Subject,
    decision: &Result<Decision, PolicyEngineError>,
    resolved: &Result<String, String>,
) -> (r: Result<String, String>)
    ensures
        text_result(r) == field_outcome(
            *field,
            subject@,
            outcome_shape(decision),
            text_result(*resolved),
        ),
{
    if field.guard.is_some() {
        if let Err(e) = check(subject, decision) {
            return Err(e.message());
        }
    }
    match resolved {
        Ok(v) => Ok(v.clone()),
        Err(m) => Err(m.clone()),
    }
}

pub open spec fn opt_text(o: Option<String>) -> Option<Seq<char>> {
    match o {
        Some(v) => Some(v@),
        None => None,
    }
}

/// `resp` is the response to the selection `sel` on `root` for `subject`,
/// given the engine's answers and the resolvers' results: the errors in
/// selection order, each with its path; the data tree null exactly when a
/// non-nullable field failed; otherwise each selected field with its value,
/// or null where it failed.
pub open spec fn response_of(
    resp: Response,
    root: Seq<FieldDef>,
    sel: Seq<String>,
    subject: Option<Seq<char>>,
    decisions: Seq<Result<Decision, PolicyEngineError>>,
    resolved: Seq<Result<String, String>>,
) -> bool {
    let outs = outcomes(root, sel, subject, decisions, resolved);
    &&& errors_view(resp.errors@) == error_list(outs, names_of(sel))
    &&& (resp.data is None <==> voids_data(root, sel, outs))
    &&& (resp.data matches Some(d) ==> d@.len() == sel.len() && forall|i: int|
        0 <= i < d@.len() ==> (#[trigger] d@[i]).name@ == sel[i]@ && opt_text(d@[i].value)
            == ok_value(outs[i]))
}

proof fn lemma_field_named(root: Seq<FieldDef>, n: Seq<char>, k: int)
    requires
        field_names(root).no_duplicates(),
        0 <= k < root.len(),
        root[k].name@ == n,
    ensures
        has_field(root, n),
        field_named(root, n) == root[k],
{
    assert(0 <= k < root.len() && root[k].name@ == n);
    let j = field_index(root, n);
    assert(0 <= j < root.len() && root[j].name@ == n);
    let names = field_names(root);
    assert(names[j] == root[j].name@);
    assert(names[k] == root[k].name@);
    if j != k {
        assert(names[j] != names[k]);
    }

}

/// Checks that every selected name is a field of the root, before anything
/// is resolved or authorized.
pub fn check_selection(root: &Vec<FieldDef>, selection: &Vec<String>) -> (r: Result<(), RequestError>)
    ensures
        r is Ok <==> selection_valid(root@, selection@),
        r matches Err(RequestError::UnknownField { name }) ==> exists|i: int|
            0 <= i < selection@.len() && selection@[i]@ == name@ && !has_field(root@, name@),
{
    let mut i: usize = 0;
    while i < selection.len()
        invariant
            0 <= i <= selection@.len(),
            forall|j: int| 0 <= j < i ==> has_field(root@, #[trigger] selection@[j]@),
        decreases selection@.len() - i,
    {
        match find_field(root, selection[i].as_str()) {
            Some(k) => {
                assert(root@[k as int].name@ == selection@[i as int]@);
            },
            None => {
                return Err(RequestError::UnknownField { name: selection[i].clone() });
            },
        }
        i = i + 1;
    }
    Ok(())
}

/// Executes a selection of root fields for one request. For the `i`-th
/// selected field, `decisions[i]` is what the authorization engine answered
/// for it (read only when the field is protected and the subject has an
/// identity) and `resolved[i]` is what its resolver produced. A field error
/// leaves that field null and is listed with its path; it voids the whole
/// data tree only when the field may not be null.
pub fn execute(
    root: &Vec<FieldDef>,
    selection: &Vec<String>,
    subject: &Subject,
    decisions: &Vec<Result<Decision, PolicyEngineError>>,
    resolved: &Vec<Result<String, String>>,
) -> (r: Result<Response, RequestError>)
    requires
        field_names(root@).no_duplicates(),
        decisions@.len() == selection@.len(),
        resolved@.len() == selection@.len(),
    ensures
        r is Ok <==> selection_valid(root@, selection@),
        r matches Err(RequestError::UnknownField { name }) ==> exists|i: int|
            0 <= i < selection@.len() && selection@[i]@ == name@ && !has_field(root@, name@),
        r matches Ok(resp) ==> response_of(resp, root@, selection@, subject@, decisions@, resolved@),
{
    let ghost outs = outcomes(root@, selection@, subject@, decisions@, resolved@);
    let ghost names = names_of(selection@);
    let mut entries: Vec<Entry> = Vec::new();
    let mut errors: Vec<FieldError> = Vec::new();
    let mut voided = false;
    let n = selection.len();
    let mut i: usize = 0;
    while i < n
        invariant
            n == selection@.len(),
            decisions@.len() == n,
            resolved@.len() == n,
            field_names(root@).no_duplicates(),
            outs == outcomes(root@, selection@, subject@, decisions@, resolved@),
            names == names_of(selection@),
            0 <= i <= n,
            forall|j: int| 0 <= j < i ==> has_field(root@, #[trigger] selection@[j]@),
            entries@.len() == i,
            forall|j: int|
                0 <= j < i ==> (#[trigger] entries@[j]).name@ == selection@[j]@ && opt_text(
                    entries@[j].value,
                ) == ok_value(outs[j]),
            errors_view(errors@) == error_list(outs.take(i as int), names),
            voided <==> exists|j: int|
                0 <= j < i && outs[j] is Err && !(#[trigger] field_named(
                    root@,
                    selection@[j]@,
                )).nullable,
        decreases n - i,
    {
        let name = &selection[i];
        let k = match find_field(root, name.as_str()) {
            Some(k) => k,
            None => {
                return Err(RequestError::UnknownField { name: name.clone() });
            },
        };
        proof {
            lemma_field_named(root@, selection@[i as int]@, k as int);
        }
        let out = resolve_field(&root[k], subject, &decisions[i], &resolved[i]);
        assert(text_result(out) == outs[i as int]);
        let ghost old_errors = errors@;
        match out {
            Ok(v) => {
                entries.push(Entry { name: name.clone(), value: Some(v) });
            },
            Err(m) => {
                entries.push(Entry { name: name.clone(), value: None });
                let path = vec![name.clone()];
                errors.push(FieldError { message: m, path });
                proof {
                    assert(path@.map_values(|s: String| s@) =~= seq![names[i as int]]);
                    assert(errors_view(errors@) =~= errors_view(old_errors).push(
                        error_view(errors@.last()),
                    ));
                }
                if !root[k].nullable {
                    voided = true;
                }
            },
        }
        proof {
            assert(outs.take(i + 1).drop_last() =~= outs.take(i as int));
            assert(outs.take(i + 1).last() == outs[i as int]);
        }
        i = i + 1;
    }
    assert(outs.take(n as int) =~= outs);
    let data = if voided {
        None
    } else {
        Some(entries)
    };
    Ok(Response { data, errors })
}

proof fn lemma_error_listed(outs: Seq<Result<Seq<char>, Seq<char>>>, names: Seq<Seq<char>>, i: int)
    requires
        0 <= i < outs.len(),
        outs[i] is Err,
    ensures
        error_list(outs, names).contains((outs[i]->Err_0, seq![names[i]])),
    decreases outs.len(),
{
    let prev = error_list(outs.drop_last(), names);
    if i == outs.len() - 1 {
        let l = error_list(outs, names);
        assert(l == prev.push((outs[i]->Err_0, seq![names[i]])));
        assert(l[l.len() - 1] == (outs[i]->Err_0, seq![names[i]]));
    } else {
        lemma_error_listed(outs.drop_last(), names, i);
        let x = (outs[i]->Err_0, seq![names[i]]);
        let k = choose|k: int| 0 <= k < prev.len() && prev[k] == x;
        match outs.last() {
            Err(m) => {
                assert(error_list(outs, names)[k] == x);
            },
            Ok(_) => {},
        }
    }
}

/// A protected field whose authorization check fails, because the engine denied,
/// failed, or the caller is anonymous, never carries data: its value is null
/// and a `Forbidden` error with the field's path is listed.
pub proof fn lemma_refused_field_withheld(
    root: Seq<FieldDef>,
    sel: Seq<String>,
    subject: Option<Seq<char>>,
    decisions: Seq<Result<Decision, PolicyEngineError>>,
    resolved: Seq<Result<String, String>>,
    i: int,
)
    requires
        0 <= i < sel.len(),
        decisions.len() == sel.len(),
        resolved.len() == sel.len(),
        field_named(root, sel[i]@).guard is Some,
        gate_verdict(subject, outcome_shape(&decisions[i])) is Err,
    ensures
        ok_value(outcomes(root, sel, subject, decisions, resolved)[i]) is None,
        error_list(outcomes(root, sel, subject, decisions, resolved), names_of(sel)).contains(
            (forbidden_message(), seq![sel[i]@]),
        ),
{
    let outs = outcomes(root, sel, subject, decisions, resolved);
    assert(outs[i] == Err::<Seq<char>, Seq<char>>(forbidden_message()));
    lemma_error_listed(outs, names_of(sel), i);
}

/// A request without identity still executes: every protected field yields
/// the `Forbidden` error, whatever the engine would say, and every other field
/// yields its resolver's result.
pub proof fn lemma_anonymous_request(
    root: Seq<FieldDef>,
    sel: Seq<String>,
    decisions: Seq<Result<Decision, PolicyEngineError>>,
    resolved: Seq<Result<String, String>>,
    i: int,
)
    requires
        0 <= i < sel.len(),
    ensures
        crate::subject::principal_of_request(None) is None,
        field_named(root, sel[i]@).guard is Some ==> outcomes(root, sel, None, decisions, resolved)[i]
            == Err::<Seq<char>, Seq<char>>(forbidden_message()),
        field_named(root, sel[i]@).guard is None ==> outcomes(root, sel, None, decisions, resolved)[i]
            == text_result(resolved[i]),
{
}

/// Without an identity the engine's answers do not matter: any two lists of
/// answers give the same outcome for every selected field.
pub proof fn lemma_anonymous_ignores_engine(
    root: Seq<FieldDef>,
    sel: Seq<String>,
    d1: Seq<Result<Decision, PolicyEngineError>>,
    d2: Seq<Result<Decision, PolicyEngineError>>,
    resolved: Seq<Result<String, String>>,
)
    ensures
        outcomes(root, sel, None, d1, resolved) == outcomes(root, sel, None, d2, resolved),
{
    assert(outcomes(root, sel, None, d1, resolved) =~= outcomes(root, sel, None, d2, resolved));
}

proof fn lemma_all_ok_no_errors(outs: Seq<Result<Seq<char>, Seq<char>>>, names: Seq<Seq<char>>)
    requires
        forall|i: int| 0 <= i < outs.len() ==> (#[trigger] outs[i]) is Ok,
    ensures
        error_list(outs, names) == Seq::<(Seq<char>, Seq<Seq<char>>)>::empty(),
    decreases outs.len(),
{
    if outs.len() > 0 {
        let prev = outs.drop_last();
        assert forall|i: int| 0 <= i < prev.len() implies (#[trigger] prev[i]) is Ok by {
            assert(prev[i] == outs[i]);
        }
        lemma_all_ok_no_errors(prev, names);
        assert(outs.last() == outs[outs.len() - 1]);
    }
}

/// A selection of public fields whose resolvers all succeed is answered in
/// full, for any subject and any engine answers: no errors, a data tree, and
/// each field with its resolver's value.
pub proof fn lemma_public_selection_succeeds(
    root: Seq<FieldDef>,
    sel: Seq<String>,
    subject: Option<Seq<char>>,
    decisions: Seq<Result<Decision, PolicyEngineError>>,
    resolved: Seq<Result<String, String>>,
)
    requires
        decisions.len() == sel.len(),
        resolved.len() == sel.len(),
        forall|i: int| 0 <= i < sel.len() ==> (field_named(root, #[trigger] sel[i]@)).guard is None,
        forall|i: int| 0 <= i < sel.len() ==> (#[trigger] resolved[i]) is Ok,
    ensures
        error_list(outcomes(root, sel, subject, decisions, resolved), names_of(sel))
            == Seq::<(Seq<char>, Seq<Seq<char>>)>::empty(),
        !voids_data(root, sel, outcomes(root, sel, subject, decisions, resolved)),
        forall|i: int|
            0 <= i < sel.len() ==> ok_value(
                #[trigger] outcomes(root, sel, subject, decisions, resolved)[i],
            ) == Some(resolved[i]->Ok_0@),
{
    let outs = outcomes(root, sel, subject, decisions, resolved);
    assert forall|i: int| 0 <= i < outs.len() implies (#[trigger] outs[i]) is Ok by {
        assert(field_named(root, sel[i]@).guard is None);
        assert(resolved[i] is Ok);
    }
    lemma_all_ok_no_errors(outs, names_of(sel));
    assert forall|i: int| 0 <= i < sel.len() implies ok_value(#[trigger] outs[i]) == Some(
        resolved[i]->Ok_0@,
    ) by {
        assert(field_named(root, sel[i]@).guard is None);
        assert(resolved[i] is Ok);
    }
}

/// A request that selects one nullable protected field which the
/// authorization check refuses is answered with that field null and exactly
/// one error: `Forbidden`, with the field's path.
pub proof fn lemma_refused_single_field(
    root: Seq<FieldDef>,
    sel: Seq<String>,
    subject: Option<Seq<char>>,
    decisions: Seq<Result<Decision, PolicyEngineError>>,
    resolved: Seq<Result<String, String>>,
)
    requires
        sel.len() == 1,
        decisions.len() == 1,
        resolved.len() == 1,
        field_named(root, sel[0]@).guard is Some,
        field_named(root, sel[0]@).nullable,
        gate_verdict(subject, outcome_shape(&decisions[0])) is Err,
    ensures
        error_list(outcomes(root, sel, subject, decisions, resolved), names_of(sel)) == seq![
            (forbidden_message(), seq![sel[0]@]),
        ],
        !voids_data(root, sel, outcomes(root, sel, subject, decisions, resolved)),
        ok_value(outcomes(root, sel, subject, decisions, resolved)[0]) is None,
{
    let outs = outcomes(root, sel, subject, decisions, resolved);
    let names = names_of(sel);
    assert(outs[0] == Err::<Seq<char>, Seq<char>>(forbidden_message()));
    assert(outs.drop_last() =~= Seq::<Result<Seq<char>, Seq<char>>>::empty());
    assert(error_list(outs.drop_last(), names) == Seq::<(Seq<char>, Seq<Seq<char>>)>::empty());
    assert(outs.last() == outs[0]);
    assert(names[0] == sel[0]@);
    assert(error_list(outs, names) =~= seq![(forbidden_message(), seq![sel[0]@])]);
}

} // verus!
