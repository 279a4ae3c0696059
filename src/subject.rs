use vstd::prelude::*;

use crate::text::starts_with;

verus! {

/// The scheme word that precedes a principal identifier in the authorization header.
pub open spec fn bearer_scheme() -> Seq<char> {
    seq!['B', 'e', 'a', 'r', 'e', 'r', ' ']
}

/// The principal named by an authorization header value, if it names one:
/// the text after `Bearer `, when that text is not empty.
pub open spec fn principal_of_header(h: Seq<char>) -> Option<Seq<char>> {
    let n = bearer_scheme().len();
    if n < h.len() && h.take(n as int) == bearer_scheme() {
        Some(h.skip(n as int))
    } else {
        None
    }
}

/// The principal of a request, given its authorization header if it has one.
pub open spec fn principal_of_request(header: Option<Seq<char>>) -> Option<Seq<char>> {
    match header {
        Some(h) => principal_of_header(h),
        None => None,
    }
}

/// The caller of one request: the principal's identifier, or none for an anonymous caller.
#[derive(Debug, PartialEq, Eq, Clone)]
pub struct Subject(pub Option<String>);

impl View for Subject {
    type V = Option<Seq<char>>;

    open spec fn view(&self) -> Option<Seq<char>> {
        match self.0 {
            Some(s) => Some(s@),
            None => None,
        }
    }
}

impl Subject {
    /// The subject of a request that carries no identity.
    pub fn anonymous() -> (r: Subject)
        ensures
            r@ is None,
    {
        Subject(None)
    }

    pub fn is_anonymous(&self) -> (r: bool)
        ensures
            r == (self@ is None),
    {
        self.0.is_none()
    }
}

/// Derives the subject of a request from its authorization header. This never
/// fails: a missing or malformed header gives the anonymous subject.
pub fn extract_subject(authorization: Option<&str>) -> (r: Subject)
    ensures
        r@ == principal_of_request(
            match authorization {
                Some(h) => Some(h@),
                None => None,
            },
        ),
{
    match authorization {
        None => Subject(None),
        Some(h) => {
            let scheme = "Bearer ";
            proof {
                reveal_strlit("Bearer ");
                assert(scheme@ =~= bearer_scheme());
            }
            let n = scheme.unicode_len();
            let len = h.unicode_len();
            if n < len && starts_with(h, scheme) {
                let rest = h.substring_char(n, len);
                assert(rest@ =~= h@.skip(n as int));
                Subject(Some(rest.to_owned()))
            } else {
                Subject(None)
            }
        },
    }
}

} // verus!
