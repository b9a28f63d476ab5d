use vstd::prelude::*;
use crate::framing::{body_of, head_of, split_request};
use crate::head::{head_result, pairs_view, parse_head, HeadError, RequestHead};
use crate::router::{find_spec, Router, Target};

verus! {

/// A request that was read, parsed and routed, ready for the middleware and
/// the service.
pub struct Prepared {
    pub head: RequestHead,
    pub body: Vec<u8>,
    pub target: Target,
    pub params: Vec<(String, String)>,
}

/// Frames the bytes read from a connection, reads the head and routes it.
/// Fails exactly when the head is not UTF-8 text or does not follow the
/// grammar; otherwise the body is what follows the first blank line, and the
/// target and parameters are what the router gives for the method and path,
/// the not-found service with no parameters where no route matches.
pub fn prepare(router: &Router, bytes: &[u8]) -> (r: Result<Prepared, HeadError>)
    ensures
        match head_result(head_of(bytes@)) {
            Err(e) => r == Err::<Prepared, HeadError>(e),
            Ok(m) => r matches Ok(p) && {
                &&& p.head.model() == m
                &&& p.body@ == body_of(bytes@)
                &&& match find_spec(router.model(), m.method, m.path) {
                    Some(t) => p.target == Target::Route(t.0 as usize) && pairs_view(p.params@)
                        == t.1,
                    None => p.target == Target::NotFound && p.params@.len() == 0,
                }
            },
        },
{
    let (head, body) = split_request(bytes);
    match parse_head(head) {
        Err(e) => Err(e),
        Ok(h) => {
            let resolved = router.resolve(h.method.as_str(), h.path.as_str());
            Ok(Prepared { head: h, body, target: resolved.target, params: resolved.params })
        },
    }
}

} // verus!
