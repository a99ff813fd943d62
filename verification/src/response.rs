use vstd::prelude::*;

verus! {

/// Mathematical image of a [`Response`]: status code, headers as pairs of
/// character sequences in insertion order, and the body's characters.
pub ghost struct RespView {
    pub status: u16,
    pub headers: Seq<(Seq<char>, Seq<char>)>,
    pub body: Seq<char>,
}

/// A produced response: status code, header collection and body. Built
/// incrementally through [`ResponseBuilder`], then mutated in place by the
/// afters on the way back out of the dispatch tree.
pub struct Response {
    pub status: u16,
    pub headers: Vec<(String, String)>,
    pub body: String,
}

pub open spec fn header_views(headers: Seq<(String, String)>) -> Seq<(Seq<char>, Seq<char>)> {
    headers.map_values(|h: (String, String)| (h.0@, h.1@))
}

impl View for Response {
    type V = RespView;

    open spec fn view(&self) -> RespView {
        RespView { status: self.status, headers: header_views(self.headers@), body: self.body@ }
    }
}

impl Response {
    /// Starts a builder for a response with the given status, no headers
    /// and an empty body.
    pub fn build(status: u16) -> (r: ResponseBuilder)
        ensures
            r@.status == status,
            r@.headers =~= Seq::<(Seq<char>, Seq<char>)>::empty(),
            r@.body =~= Seq::<char>::empty(),
    {
        let response = Response { status, headers: Vec::new(), body: String::new() };
        proof {
            assert(response@.headers =~= Seq::<(Seq<char>, Seq<char>)>::empty());
        }
        ResponseBuilder { response }
    }
}

/// Incremental, chainable construction of a [`Response`]: start from a
/// status, append headers, optionally set a body, finalize. No
/// well-formedness of header names or values is checked here; that is the
/// transport boundary's concern.
pub struct ResponseBuilder {
    pub response: Response,
}

impl View for ResponseBuilder {
    type V = RespView;

    open spec fn view(&self) -> RespView {
        self.response@
    }
}

impl ResponseBuilder {
    /// Appends one header; earlier headers and their order are kept.
    pub fn header(self, name: String, value: String) -> (r: ResponseBuilder)
        ensures
            r@.status == self@.status,
            r@.headers =~= self@.headers.push((name@, value@)),
            r@.body == self@.body,
    {
        let mut response = self.response;
        response.headers.push((name, value));
        proof {
            assert(response@.headers =~= self.response@.headers.push((name@, value@)));
        }
        ResponseBuilder { response }
    }

    /// Replaces the body.
    pub fn body(self, content: String) -> (r: ResponseBuilder)
        ensures
            r@.status == self@.status,
            r@.headers == self@.headers,
            r@.body == content@,
    {
        let mut response = self.response;
        response.body = content;
        ResponseBuilder { response }
    }

    /// Finalizes the builder into the response it described.
    pub fn end(self) -> (r: Response)
        ensures
            r@ == self@,
    {
        self.response
    }
}

} // verus!
