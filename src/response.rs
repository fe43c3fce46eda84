use vstd::prelude::*;
use vstd::string::StringExecFns;
use crate::text::same_text;

verus! {

/// An HTTP response: status code, headers in order, and body bytes.
pub struct HttpResponse {
    pub status: u16,
    pub headers: Vec<(String, String)>,
    pub body: Vec<u8>,
}

/// The headers of a response as pairs of character sequences.
pub open spec fn header_views(hs: Seq<(String, String)>) -> Seq<(Seq<char>, Seq<char>)> {
    hs.map_values(|h: (String, String)| (h.0@, h.1@))
}

/// The header that marks a body as JSON.
pub open spec fn json_content_type() -> (Seq<char>, Seq<char>) {
    ("Content-Type"@, "application/json"@)
}

/// A response with `status`, no headers and an empty body.
pub open spec fn is_empty_response(r: HttpResponse, status: u16) -> bool {
    &&& r.status == status
    &&& r.headers@.len() == 0
    &&& r.body@.len() == 0
}

/// A response with `status`, the JSON content type as its first header and
/// `body` as its body.
pub open spec fn is_json_response(r: HttpResponse, status: u16, body: Seq<u8>) -> bool {
    &&& r.status == status
    &&& header_views(r.headers@).len() >= 1
    &&& header_views(r.headers@)[0] == json_content_type()
    &&& r.body@ == body
}

impl HttpResponse {
    /// A response with `status`, no headers and an empty body.
    pub fn empty(status: u16) -> (r: HttpResponse)
        ensures
            is_empty_response(r, status),
    {
        HttpResponse { status, headers: Vec::new(), body: Vec::new() }
    }

    /// A response with `status` that carries `body` as JSON.
    pub fn json(status: u16, body: Vec<u8>) -> (r: HttpResponse)
        ensures
            is_json_response(r, status, body@),
            header_views(r.headers@) == seq![json_content_type()],
    {
        proof {
            reveal_strlit("Content-Type");
            reveal_strlit("application/json");
        }
        let mut headers: Vec<(String, String)> = Vec::new();
        headers.push((String::from_str("Content-Type"), String::from_str("application/json")));
        let r = HttpResponse { status, headers, body };
        assert(header_views(r.headers@) =~= seq![json_content_type()]);
        r
    }

    /// Adds a header after those already set.
    pub fn with_header(self, name: String, value: String) -> (r: HttpResponse)
        ensures
            r.status == self.status,
            r.body@ == self.body@,
            header_views(r.headers@) == header_views(self.headers@).push((name@, value@)),
    {
        let HttpResponse { status, mut headers, body } = self;
        let ghost old_headers = headers@;
        headers.push((name, value));
        let r = HttpResponse { status, headers, body };
        assert(header_views(r.headers@) =~= header_views(old_headers).push((name@, value@)));
        r
    }

    /// The value of the first header called `name`, if any.
    pub fn header(&self, name: &str) -> (r: Option<String>)
        ensures
            r matches Some(v) ==> exists|i: int|
                0 <= i < self.headers@.len() && #[trigger] self.headers@[i].0@ == name@
                    && self.headers@[i].1@ == v@
                    && forall|j: int| 0 <= j < i ==> self.headers@[j].0@ != name@,
            r is None ==> forall|i: int|
                0 <= i < self.headers@.len() ==> #[trigger] self.headers@[i].0@ != name@,
    {
        let mut i: usize = 0;
        while i < self.headers.len()
            invariant
                i <= self.headers@.len(),
                forall|j: int| 0 <= j < i ==> #[trigger] self.headers@[j].0@ != name@,
            decreases self.headers@.len() - i,
        {
            if same_text(self.headers[i].0.as_str(), name) {
                return Some(self.headers[i].1.clone());
            }
            i = i + 1;
        }
        None
    }
}

} // verus!
