use vstd::prelude::*;

use crate::schema::Operation;
use crate::text::str_eq;

verus! {

/// The kinds of operation a GraphQL document can hold.
#[derive(Debug, Clone, Copy, PartialEq, Eq, Structural)]
pub enum OperationKind {
    Query,
    Mutation,
    Subscription,
}

/// What the service reads of one operation of a parsed document before
/// choosing it: its name, if it has one, and its kind.
#[derive(Debug)]
pub struct OperationHead {
    pub name: Option<String>,
    pub kind: OperationKind,
}

/// One item of an operation's root selection set.
#[derive(Debug)]
pub enum RootItem {
    /// A field, by name.
    Field(String),
    /// A fragment spread or an inline fragment.
    Fragment,
}

/// Why a parsed document cannot be served.
#[derive(Debug, Clone, Copy, PartialEq, Eq, Structural)]
pub enum DocumentError {
    /// No operation has the requested name, or the document has none.
    UnknownOperation,
    /// Subscriptions are not served.
    Subscription,
    /// The root selection holds a fragment, which the executor does not expand.
    RootFragment,
}

/// Whether an operation is the one asked for: any operation when no name is
/// asked for, else the one with that name.
pub open spec fn head_matches(h: OperationHead, wanted: Option<Seq<char>>) -> bool {
    match wanted {
        None => true,
        Some(w) => h.name matches Some(n) && n@ == w,
    }
}

/// Picks the first operation that is the one asked for.
pub fn pick_operation(heads: &Vec<OperationHead>, wanted: Option<&str>) -> (r: Result<
    usize,
    DocumentError,
>)
    ensures
        r matches Ok(i) ==> i < heads@.len() && head_matches(
            heads@[i as int],
            match wanted {
                Some(w) => Some(w@),
                None => None,
            },
        ) && forall|j: int|
            0 <= j < i ==> !head_matches(
                #[trigger] heads@[j],
                match wanted {
                    Some(w) => Some(w@),
                    None => None,
                },
            ),
        r is Err <==> forall|j: int|
            0 <= j < heads@.len() ==> !head_matches(
                #[trigger] heads@[j],
                match wanted {
                    Some(w) => Some(w@),
                    None => None,
                },
            ),
        r is Err ==> r == Err::<usize, DocumentError>(DocumentError::UnknownOperation),
{
    let ghost w = match wanted {
        Some(w) => Some(w@),
        None => None,
    };
    let mut i: usize = 0;
    while i < heads.len()
        invariant
            0 <= i <= heads@.len(),
            w == match wanted {
                Some(w) => Some(w@),
                None => None,
            },
            forall|j: int| 0 <= j < i ==> !head_matches(#[trigger] heads@[j], w),
        decreases heads@.len() - i,
    {
        let hit = match wanted {
            None => true,
            Some(want) => match &heads[i].name {
                Some(n) => str_eq(n.as_str(), want),
                None => false,
            },
        };
        if hit {
            return Ok(i);
        }
        i = i + 1;
    }
    Err(DocumentError::UnknownOperation)
}

/// The root an operation of this kind runs on; subscriptions are not served.
pub fn operation_of(kind: OperationKind) -> (r: Result<Operation, DocumentError>)
    ensures
        r == match kind {
            OperationKind::Query => Ok::<Operation, DocumentError>(Operation::Query),
            OperationKind::Mutation => Ok(Operation::Mutation),
            OperationKind::Subscription => Err(DocumentError::Subscription),
        },
{
    match kind {
        OperationKind::Query => Ok(Operation::Query),
        OperationKind::Mutation => Ok(Operation::Mutation),
        OperationKind::Subscription => Err(DocumentError::Subscription),
    }
}

/// The names of the root fields of a selection set, in order, when every
/// item is a field.
pub fn root_selection(items: &Vec<RootItem>) -> (r: Result<Vec<String>, DocumentError>)
    ensures
        r is Ok <==> forall|i: int| 0 <= i < items@.len() ==> (#[trigger] items@[i]) is Field,
        r is Err ==> r == Err::<Vec<String>, DocumentError>(DocumentError::RootFragment),
        r matches Ok(v) ==> v@.len() == items@.len() && forall|i: int|
            0 <= i < v@.len() ==> ((#[trigger] items@[i]) matches RootItem::Field(n) && v@[i]@
                == n@),
{
    let mut names: Vec<String> = Vec::new();
    let mut i: usize = 0;
    while i < items.len()
        invariant
            0 <= i <= items@.len(),
            names@.len() == i,
            forall|j: int|
                0 <= j < i ==> ((#[trigger] items@[j]) matches RootItem::Field(n) && names@[j]@
                    == n@),
        decreases items@.len() - i,
    {
        match &items[i] {
            RootItem::Field(n) => names.push(n.clone()),
            RootItem::Fragment => {
                return Err(DocumentError::RootFragment);
            },
        }
        i = i + 1;
    }
    Ok(names)
}

} // verus!
