use vstd::prelude::*;
use vstd::string::StringExecFns;
use crate::text::chars_of;

verus! {

/// Whether `s` ends with a `/`.
pub open spec fn ends_with_slash(s: Seq<char>) -> bool {
    s.len() > 0 && s.last() == '/'
}

/// The value of a `Location` header: `uri` followed by `id`, with exactly
/// one `/` between them unless `uri` already ends with one.
pub open spec fn join(uri: Seq<char>, id: Seq<char>) -> Seq<char> {
    if ends_with_slash(uri) {
        uri + id
    } else {
        uri + seq!['/'] + id
    }
}

/// Builds the `Location` header value for a resource `id` created under `uri`.
pub fn build_location_header_value(uri: &str, id: String) -> (r: String)
    ensures
        r@ == join(uri@, id@),
{
    let cs = chars_of(uri);
    let mut r = String::from_str(uri);
    if cs.len() == 0 || cs[cs.len() - 1] != '/' {
        proof {
            reveal_strlit("/");
        }
        r.append("/");
    }
    r.append(id.as_str());
    r
}

/// Joining onto a URI that lacks its trailing `/` gives the same value as
/// joining onto the same URI with it.
pub proof fn lemma_join_slash_idempotent(uri: Seq<char>, id: Seq<char>)
    requires
        !ends_with_slash(uri),
    ensures
        join(uri, id) == join(uri + seq!['/'], id),
{
    assert(ends_with_slash(uri + seq!['/']));
}

} // verus!
