use vstd::prelude::*;

use crate::error::ErrView;
use crate::error::MagnetResult;
use crate::request::path_of;
use crate::request::query_of;
use crate::request::ReqView;
use crate::request::Request;
use crate::request::RequestTarget;
use crate::request::TransportRequest;
use crate::response::RespView;
use crate::response::Response;
use crate::store::Store;

verus! {

/// A middleware that tries to produce a response for a request. It is
/// handed the owning stack's environment store, which it may read.
/// Returning
/// `None` declines and lets the next candidate be tried; an error aborts
/// the whole traversal. An implementor describes its outcome with
/// `spec_call`, as a function of the request's image.
pub trait Responder: Send + Sync {
    open spec fn spec_call(&self, req: ReqView) -> Result<Option<RespView>, ErrView> {
        arbitrary()
    }

    fn call(&self, env: &Store, request: &Request) -> (r: MagnetResult<Option<Response>>)
        ensures
            match self.spec_call(request@) {
                Ok(Some(rv)) => r is Ok && r->Ok_0 is Some && r->Ok_0->Some_0@ == rv,
                Ok(None) => r is Ok && r->Ok_0 is None,
                Err(ev) => r is Err && r->Err_0@ == ev,
            },
    ;
}

/// A middleware run before dispatch; it may mutate the request (typically
/// by attaching data to its store). An error aborts the whole traversal.
/// An implementor describes the request's new image and its verdict with
/// `spec_call`.
pub trait Before: Send + Sync {
    open spec fn spec_call(&self, req: ReqView) -> Result<ReqView, ErrView> {
        arbitrary()
    }

    fn call(&self, env: &Store, request: &mut Request) -> (r: MagnetResult<()>)
        ensures
            match self.spec_call(old(request)@) {
                Ok(rv) => r is Ok && final(request)@ == rv,
                Err(ev) => r is Err && r->Err_0@ == ev,
            },
    ;
}

/// A middleware run over a produced response on the way back out; it may
/// mutate the response in place. An error aborts the traversal and
/// discards the response.
pub trait After: Send + Sync {
    open spec fn spec_call(&self, resp: RespView) -> Result<RespView, ErrView> {
        arbitrary()
    }

    fn call(&self, env: &Store, response: &mut Response) -> (r: MagnetResult<()>)
        ensures
            match self.spec_call(old(response)@) {
                Ok(rv) => r is Ok && final(response)@ == rv,
                Err(ev) => r is Err && r->Err_0@ == ev,
            },
    ;
}

/// An ordered collection of befores, child stacks, responders and afters,
/// plus a stack-wide environment store. The traversal over it is the heart
/// of the system; see [`spec_run`] for its exact meaning.
pub struct Stack {
    pub befores: Vec<Box<dyn Before>>,
    pub substacks: Vec<Stack>,
    pub responders: Vec<Box<dyn Responder>>,
    pub afters: Vec<Box<dyn After>>,
    pub env: Store,
}

/// Outcome of running the befores from position `i` on: the request's
/// image after every remaining before succeeded, or the first error.
pub open spec fn spec_befores_from(
    befores: Seq<Box<dyn Before>>,
    i: int,
    req: ReqView,
) -> Result<ReqView, ErrView>
    decreases befores.len() - i,
{
    if i < 0 || i >= befores.len() {
        Ok(req)
    } else {
        match befores[i].spec_call(req) {
            Ok(r2) => spec_befores_from(befores, i + 1, r2),
            Err(e) => Err(e),
        }
    }
}

/// Outcome of running all befores in registration order.
pub open spec fn spec_befores(befores: Seq<Box<dyn Before>>, req: ReqView) -> Result<
    ReqView,
    ErrView,
> {
    spec_befores_from(befores, 0, req)
}

/// Outcome of trying the responders from position `i` on: the first
/// response offered wins, a declination moves on, an error aborts, and
/// exhaustion declines as a whole.
pub open spec fn spec_responders_from(
    responders: Seq<Box<dyn Responder>>,
    i: int,
    req: ReqView,
) -> Result<Option<RespView>, ErrView>
    decreases responders.len() - i,
{
    if i < 0 || i >= responders.len() {
        Ok(None)
    } else {
        match responders[i].spec_call(req) {
            Ok(Some(rv)) => Ok(Some(rv)),
            Ok(None) => spec_responders_from(responders, i + 1, req),
            Err(e) => Err(e),
        }
    }
}

/// Outcome of trying all responders in registration order.
pub open spec fn spec_responders(responders: Seq<Box<dyn Responder>>, req: ReqView) -> Result<
    Option<RespView>,
    ErrView,
> {
    spec_responders_from(responders, 0, req)
}

/// Outcome of applying the afters from position `i` on to a produced
/// response: its image after every remaining after succeeded, or the first
/// error.
pub open spec fn spec_afters_from(
    afters: Seq<Box<dyn After>>,
    i: int,
    resp: RespView,
) -> Result<RespView, ErrView>
    decreases afters.len() - i,
{
    if i < 0 || i >= afters.len() {
        Ok(resp)
    } else {
        match afters[i].spec_call(resp) {
            Ok(r2) => spec_afters_from(afters, i + 1, r2),
            Err(e) => Err(e),
        }
    }
}

/// Outcome of applying all afters in registration order.
pub open spec fn spec_afters(afters: Seq<Box<dyn After>>, resp: RespView) -> Result<
    RespView,
    ErrView,
> {
    spec_afters_from(afters, 0, resp)
}

/// Lifts [`spec_afters`] to the traversal's result type: a produced
/// response filtered through the afters either comes out handled or turns
/// the traversal into a failure.
pub open spec fn spec_afters_applied(afters: Seq<Box<dyn After>>, resp: RespView) -> Result<
    Option<RespView>,
    ErrView,
> {
    match spec_afters(afters, resp) {
        Ok(r2) => Ok(Some(r2)),
        Err(e) => Err(e),
    }
}

/// The traversal algorithm, as a mathematical function from a stack and a
/// request image to declination, a response image, or an error: befores in
/// order (an error aborts everything), then child stacks in order on a
/// fresh copy of the request, then responders in order; the first response
/// produced anywhere is filtered through this stack's afters and wins, and
/// nothing later is consulted.
pub open spec fn spec_run(stack: Stack, req: ReqView) -> Result<Option<RespView>, ErrView>
    decreases stack, 0int,
{
    match spec_befores(stack.befores@, req) {
        Err(e) => Err(e),
        Ok(q2) => match spec_children_from(stack.substacks@, 0, q2) {
            Err(e) => Err(e),
            Ok(Some(resp)) => spec_afters_applied(stack.afters@, resp),
            Ok(None) => match spec_responders(stack.responders@, q2) {
                Err(e) => Err(e),
                Ok(Some(resp)) => spec_afters_applied(stack.afters@, resp),
                Ok(None) => Ok(None),
            },
        },
    }
}

/// Outcome of offering the request to the child stacks from position `i`
/// on, each child seeing its own copy of the request: the first response
/// produced in a child's subtree wins (not yet filtered through the
/// parent's afters), a declining child moves on, an error aborts.
pub open spec fn spec_children_from(subs: Seq<Stack>, i: int, req: ReqView) -> Result<
    Option<RespView>,
    ErrView,
>
    decreases subs, subs.len() - i,
{
    if i < 0 || i >= subs.len() {
        Ok(None)
    } else {
        match spec_run(subs[i], req) {
            Ok(None) => spec_children_from(subs, i + 1, req),
            Ok(Some(resp)) => Ok(Some(resp)),
            Err(e) => Err(e),
        }
    }
}

/// Outcome of offering the request to all child stacks in order.
pub open spec fn spec_children(subs: Seq<Stack>, req: ReqView) -> Result<
    Option<RespView>,
    ErrView,
> {
    spec_children_from(subs, 0, req)
}

/// Relies on `Box::new` and `Vec::push`: the boxed middleware is appended
/// behind the existing elements, and a call through the appended trait
/// object dispatches to `b`'s own implementation. (The standard
/// specifications do not attach at trait-object element types.)
#[verifier::external_body]
fn push_boxed_before<B: Before + 'static>(v: &mut Vec<Box<dyn Before>>, b: B)
    ensures
        final(v)@.len() == old(v)@.len() + 1,
        forall|k: int| 0 <= k < old(v)@.len() ==> final(v)@[k] == old(v)@[k],
        forall|q: ReqView| #[trigger] final(v)@.last().spec_call(q) == b.spec_call(q),
{
    v.push(Box::new(b));
}

/// Relies on `Box::new` and `Vec::push`, as `push_boxed_before` does.
#[verifier::external_body]
fn push_boxed_responder<R: Responder + 'static>(v: &mut Vec<Box<dyn Responder>>, b: R)
    ensures
        final(v)@.len() == old(v)@.len() + 1,
        forall|k: int| 0 <= k < old(v)@.len() ==> final(v)@[k] == old(v)@[k],
        forall|q: ReqView| #[trigger] final(v)@.last().spec_call(q) == b.spec_call(q),
{
    v.push(Box::new(b));
}

/// Relies on `Box::new` and `Vec::push`, as `push_boxed_before` does.
#[verifier::external_body]
fn push_boxed_after<A: After + 'static>(v: &mut Vec<Box<dyn After>>, b: A)
    ensures
        final(v)@.len() == old(v)@.len() + 1,
        forall|k: int| 0 <= k < old(v)@.len() ==> final(v)@[k] == old(v)@[k],
        forall|q: RespView| #[trigger] final(v)@.last().spec_call(q) == b.spec_call(q),
{
    v.push(Box::new(b));
}

impl Stack {
    /// A stack with no middleware, no children and an empty environment.
    pub fn new() -> (r: Stack)
        ensures
            r.befores@.len() == 0,
            r.substacks@.len() == 0,
            r.responders@.len() == 0,
            r.afters@.len() == 0,
    {
        Stack {
            befores: Vec::new(),
            substacks: Vec::new(),
            responders: Vec::new(),
            afters: Vec::new(),
            env: Store::empty(),
        }
    }

    /// The environment value most recently attached under key type `T`.
    pub fn get<T: 'static + Clone + Send + Sync>(&self) -> Option<&T> {
        self.env.get::<T>()
    }

    /// Attaches `value` to the environment under key type `T`, overwriting
    /// any earlier `T`. The registered middleware and children are
    /// untouched.
    pub fn set<T: 'static + Clone + Send + Sync>(&mut self, value: T)
        ensures
            final(self).befores == old(self).befores,
            final(self).substacks == old(self).substacks,
            final(self).responders == old(self).responders,
            final(self).afters == old(self).afters,
    {
        self.env.set::<T>(value);
    }

    /// Registers a before behind those already registered; everything else
    /// is untouched.
    pub fn before<B: Before + 'static>(&mut self, before: B) -> (ret: &mut Stack)
        ensures
            *final(ret) == *final(self),
            (*ret).befores@.len() == old(self).befores@.len() + 1,
            forall|k: int|
                0 <= k < old(self).befores@.len() ==> (*ret).befores@[k] == old(
                    self,
                ).befores@[k],
            forall|q: ReqView| #[trigger]
                (*ret).befores@.last().spec_call(q) == before.spec_call(q),
            (*ret).substacks == old(self).substacks,
            (*ret).responders == old(self).responders,
            (*ret).afters == old(self).afters,
            (*ret).env == old(self).env,
    {
        push_boxed_before(&mut self.befores, before);
        self
    }

    /// Registers an after behind those already registered; everything else
    /// is untouched.
    pub fn after<A: After + 'static>(&mut self, after: A) -> (ret: &mut Stack)
        ensures
            *final(ret) == *final(self),
            (*ret).afters@.len() == old(self).afters@.len() + 1,
            forall|k: int|
                0 <= k < old(self).afters@.len() ==> (*ret).afters@[k] == old(
                    self,
                ).afters@[k],
            forall|q: RespView| #[trigger]
                (*ret).afters@.last().spec_call(q) == after.spec_call(q),
            (*ret).befores == old(self).befores,
            (*ret).substacks == old(self).substacks,
            (*ret).responders == old(self).responders,
            (*ret).env == old(self).env,
    {
        push_boxed_after(&mut self.afters, after);
        self
    }

    /// Mounts a child stack behind those already mounted; everything else
    /// is untouched. The child is owned outright: the tree has no shared
    /// stacks and no cycles.
    pub fn mount(&mut self, stack: Stack) -> (ret: &mut Stack)
        ensures
            *final(ret) == *final(self),
            (*ret).substacks@ == old(self).substacks@.push(stack),
            (*ret).befores == old(self).befores,
            (*ret).responders == old(self).responders,
            (*ret).afters == old(self).afters,
            (*ret).env == old(self).env,
    {
        self.substacks.push(stack);
        self
    }

    /// Registers a responder behind those already registered; everything
    /// else is untouched.
    pub fn add<R: Responder + 'static>(&mut self, responder: R) -> (ret: &mut Stack)
        ensures
            *final(ret) == *final(self),
            (*ret).responders@.len() == old(self).responders@.len() + 1,
            forall|k: int|
                0 <= k < old(self).responders@.len() ==> (*ret).responders@[k] == old(
                    self,
                ).responders@[k],
            forall|q: ReqView| #[trigger]
                (*ret).responders@.last().spec_call(q) == responder.spec_call(q),
            (*ret).befores == old(self).befores,
            (*ret).substacks == old(self).substacks,
            (*ret).afters == old(self).afters,
            (*ret).env == old(self).env,
    {
        push_boxed_responder(&mut self.responders, responder);
        self
    }

    /// The traversal: befores in registration order on `request` itself,
    /// then each child on a fresh copy of the request, then the responders;
    /// the first response produced is filtered through this stack's afters
    /// and returned. The result is exactly [`spec_run`] of this stack on
    /// the request's image; when every before succeeds, their combined
    /// mutation of the request is kept, whatever happens afterwards.
    pub fn run(&self, request: &mut Request) -> (r: MagnetResult<Option<Response>>)
        ensures
            match spec_run(*self, old(request)@) {
                Ok(Some(rv)) => r is Ok && r->Ok_0 is Some && r->Ok_0->Some_0@ == rv,
                Ok(None) => r is Ok && r->Ok_0 is None,
                Err(e) => r is Err && r->Err_0@ == e,
            },
            spec_befores(self.befores@, old(request)@) is Ok ==> final(request)@ == spec_befores(
                self.befores@,
                old(request)@,
            )->Ok_0,
        decreases self,
    {
        let ghost q0 = request@;
        let mut i: usize = 0;
        while i < self.befores.len()
            invariant
                i <= self.befores@.len(),
                q0 == old(request)@,
                spec_befores_from(self.befores@, 0, q0) == spec_befores_from(
                    self.befores@,
                    i as int,
                    request@,
                ),
            decreases self.befores@.len() - i,
        {
            let ghost pre = request@;
            match self.befores[i].call(&self.env, request) {
                Ok(()) => {
                    proof {
                        assert(spec_befores_from(self.befores@, i as int, pre)
                            == spec_befores_from(self.befores@, i as int + 1, request@));
                    }
                    i += 1;
                },
                Err(e) => {
                    proof {
                        assert(spec_befores_from(self.befores@, i as int, pre)
                            == Err::<ReqView, ErrView>(e@));
                    }
                    return Err(e);
                },
            }
        }
        let ghost q2 = request@;
        let mut i: usize = 0;
        while i < self.substacks.len()
            invariant
                i <= self.substacks@.len(),
                q0 == old(request)@,
                request@ == q2,
                spec_befores(self.befores@, q0) == Ok::<ReqView, ErrView>(q2),
                spec_children_from(self.substacks@, 0, q2) == spec_children_from(
                    self.substacks@,
                    i as int,
                    q2,
                ),
            decreases self.substacks@.len() - i,
        {
            let mut sub_request = request.clone();
            match self.substacks[i].run(&mut sub_request) {
                Ok(None) => {
                    proof {
                        assert(spec_children_from(self.substacks@, i as int, q2)
                            == spec_children_from(self.substacks@, i as int + 1, q2));
                    }
                    i += 1;
                },
                Ok(Some(response)) => {
                    proof {
                        assert(spec_children_from(self.substacks@, i as int, q2)
                            == Ok::<Option<RespView>, ErrView>(Some(response@)));
                    }
                    match self.invoke_afters(response) {
                        Ok(resp) => {
                            return Ok(Some(resp));
                        },
                        Err(e) => {
                            return Err(e);
                        },
                    }
                },
                Err(e) => {
                    proof {
                        assert(spec_children_from(self.substacks@, i as int, q2)
                            == Err::<Option<RespView>, ErrView>(e@));
                    }
                    return Err(e);
                },
            }
        }
        let mut i: usize = 0;
        while i < self.responders.len()
            invariant
                i <= self.responders@.len(),
                q0 == old(request)@,
                request@ == q2,
                spec_befores(self.befores@, q0) == Ok::<ReqView, ErrView>(q2),
                spec_children(self.substacks@, q2) == Ok::<Option<RespView>, ErrView>(
                    None::<RespView>,
                ),
                spec_responders_from(self.responders@, 0, q2) == spec_responders_from(
                    self.responders@,
                    i as int,
                    q2,
                ),
            decreases self.responders@.len() - i,
        {
            match self.responders[i].call(&self.env, &*request) {
                Ok(None) => {
                    proof {
                        assert(spec_responders_from(self.responders@, i as int, q2)
                            == spec_responders_from(self.responders@, i as int + 1, q2));
                    }
                    i += 1;
                },
                Ok(Some(response)) => {
                    proof {
                        assert(spec_responders_from(self.responders@, i as int, q2)
                            == Ok::<Option<RespView>, ErrView>(Some(response@)));
                    }
                    match self.invoke_afters(response) {
                        Ok(resp) => {
                            return Ok(Some(resp));
                        },
                        Err(e) => {
                            return Err(e);
                        },
                    }
                },
                Err(e) => {
                    proof {
                        assert(spec_responders_from(self.responders@, i as int, q2)
                            == Err::<Option<RespView>, ErrView>(e@));
                    }
                    return Err(e);
                },
            }
        }
        Ok(None)
    }

    /// Applies this stack's afters, in registration order, to a response
    /// produced in this stack's subtree; the first failing after aborts and
    /// the response is discarded.
    fn invoke_afters(&self, response: Response) -> (r: MagnetResult<Response>)
        ensures
            match spec_afters(self.afters@, response@) {
                Ok(rv) => r is Ok && r->Ok_0@ == rv,
                Err(e) => r is Err && r->Err_0@ == e,
            },
    {
        let ghost r0 = response@;
        let mut resp = response;
        let mut i: usize = 0;
        while i < self.afters.len()
            invariant
                i <= self.afters@.len(),
                r0 == response@,
                spec_afters_from(self.afters@, 0, r0) == spec_afters_from(
                    self.afters@,
                    i as int,
                    resp@,
                ),
            decreases self.afters@.len() - i,
        {
            let ghost pre = resp@;
            match self.afters[i].call(&self.env, &mut resp) {
                Ok(()) => {
                    proof {
                        assert(spec_afters_from(self.afters@, i as int, pre)
                            == spec_afters_from(self.afters@, i as int + 1, resp@));
                    }
                    i += 1;
                },
                Err(e) => {
                    proof {
                        assert(spec_afters_from(self.afters@, i as int, pre)
                            == Err::<RespView, ErrView>(e@));
                    }
                    return Err(e);
                },
            }
        }
        Ok(resp)
    }

    /// The transport boundary's mapping: a request whose target is not an
    /// absolute path is answered with a bare internal-error response and no
    /// stack is consulted; a declined request is answered "Not found"; a
    /// produced response is passed through unchanged; any traversal error
    /// collapses into a bare internal-error response, with no detail of the
    /// failure leaked.
    pub fn handle(&self, t: TransportRequest) -> (r: Response)
        ensures
            match t.target {
                RequestTarget::AbsolutePath(p) => {
                    let q = ReqView {
                        method: t.method@,
                        path: path_of(p@),
                        query: query_of(p@),
                    };
                    match spec_run(*self, q) {
                        Ok(Some(rv)) => r@ == rv,
                        Ok(None) => r@.status == 404 && r@.headers.len() == 0 && r@.body
                            == "Not found"@,
                        Err(_) => r@.status == 500 && r@.headers.len() == 0 && r@.body.len() == 0,
                    }
                },
                _ => r@.status == 500 && r@.headers.len() == 0 && r@.body.len() == 0,
            },
    {
        match Request::build(t) {
            Ok(mut request) => match self.run(&mut request) {
                Ok(None) => Response {
                    status: 404,
                    headers: Vec::new(),
                    body: "Not found".to_owned(),
                },
                Ok(Some(response)) => response,
                Err(_) => Response { status: 500, headers: Vec::new(), body: String::new() },
            },
            Err(_) => Response { status: 500, headers: Vec::new(), body: String::new() },
        }
    }
}



/// A stack with nothing registered and no children declines every request.
pub proof fn lemma_empty_stack_declines(stack: Stack, req: ReqView)
    requires
        stack.befores@.len() == 0,
        stack.substacks@.len() == 0,
        stack.responders@.len() == 0,
    ensures
        spec_run(stack, req) == Ok::<Option<RespView>, ErrView>(None::<RespView>),
{
}

/// If some before fails, the whole traversal fails with that error, and
/// nothing past the befores is consulted: any two stacks with these befores
/// run to the same outcome, whatever their children, responders and afters
/// are.
pub proof fn lemma_before_error_aborts(s1: Stack, s2: Stack, req: ReqView, e: ErrView)
    requires
        spec_befores(s1.befores@, req) == Err::<ReqView, ErrView>(e),
        s2.befores@ == s1.befores@,
    ensures
        spec_run(s1, req) == Err::<Option<RespView>, ErrView>(e),
        spec_run(s2, req) == spec_run(s1, req),
{
}

proof fn lemma_responders_from_first_some(
    responders: Seq<Box<dyn Responder>>,
    req: ReqView,
    i: int,
    k: int,
    rv: RespView,
)
    requires
        0 <= i <= k < responders.len(),
        forall|j: int|
            i <= j < k ==> #[trigger] responders[j].spec_call(req) == Ok::<
                Option<RespView>,
                ErrView,
            >(None::<RespView>),
        responders[k].spec_call(req) == Ok::<Option<RespView>, ErrView>(Some(rv)),
    ensures
        spec_responders_from(responders, i, req) == Ok::<Option<RespView>, ErrView>(Some(rv)),
    decreases k - i,
{
    if i < k {
        lemma_responders_from_first_some(responders, req, i + 1, k, rv);
    }
}

/// Among a stack's responders, the first to offer a response wins: if those
/// before position `k` decline and the one at `k` offers `rv`, the
/// responders' combined outcome is `rv`, whatever the responders past `k`
/// would do - they are never consulted.
pub proof fn lemma_first_responding_responder_wins(
    responders: Seq<Box<dyn Responder>>,
    req: ReqView,
    k: int,
    rv: RespView,
)
    requires
        0 <= k < responders.len(),
        forall|j: int|
            0 <= j < k ==> #[trigger] responders[j].spec_call(req) == Ok::<
                Option<RespView>,
                ErrView,
            >(None::<RespView>),
        responders[k].spec_call(req) == Ok::<Option<RespView>, ErrView>(Some(rv)),
    ensures
        spec_responders(responders, req) == Ok::<Option<RespView>, ErrView>(Some(rv)),
{
    lemma_responders_from_first_some(responders, req, 0, k, rv);
}

/// At the stack level: if the befores succeed, every child declines, the
/// responders before position `k` decline and the one at `k` offers `rv`,
/// the stack's outcome is `rv` filtered through its afters - and the
/// responders past `k` are never consulted, whatever they would do.
pub proof fn lemma_responder_response_wins(
    stack: Stack,
    req: ReqView,
    q2: ReqView,
    k: int,
    rv: RespView,
)
    requires
        spec_befores(stack.befores@, req) == Ok::<ReqView, ErrView>(q2),
        spec_children(stack.substacks@, q2) == Ok::<Option<RespView>, ErrView>(None::<RespView>),
        0 <= k < stack.responders@.len(),
        forall|j: int|
            0 <= j < k ==> #[trigger] stack.responders@[j].spec_call(q2) == Ok::<
                Option<RespView>,
                ErrView,
            >(None::<RespView>),
        stack.responders@[k].spec_call(q2) == Ok::<Option<RespView>, ErrView>(Some(rv)),
    ensures
        spec_run(stack, req) == spec_afters_applied(stack.afters@, rv),
{
    lemma_responders_from_first_some(stack.responders@, q2, 0, k, rv);
}

/// If, after the befores succeed, the first child's subtree produces a
/// response, the stack's outcome is that response filtered through the
/// stack's own afters - the later children and this stack's responders are
/// never consulted.
pub proof fn lemma_child_response_short_circuits(
    stack: Stack,
    req: ReqView,
    q2: ReqView,
    rv: RespView,
)
    requires
        spec_befores(stack.befores@, req) == Ok::<ReqView, ErrView>(q2),
        stack.substacks@.len() >= 1,
        spec_run(stack.substacks@[0], q2) == Ok::<Option<RespView>, ErrView>(Some(rv)),
    ensures
        spec_run(stack, req) == spec_afters_applied(stack.afters@, rv),
{
}

/// A response is discarded when an after fails: if a responder offered
/// `rv` but the afters fail on it with `e`, the traversal's outcome is the
/// failure `e`, not the response.
pub proof fn lemma_after_error_discards_response(
    stack: Stack,
    req: ReqView,
    q2: ReqView,
    rv: RespView,
    e: ErrView,
)
    requires
        spec_befores(stack.befores@, req) == Ok::<ReqView, ErrView>(q2),
        spec_children(stack.substacks@, q2) == Ok::<Option<RespView>, ErrView>(None::<RespView>),
        spec_responders(stack.responders@, q2) == Ok::<Option<RespView>, ErrView>(Some(rv)),
        spec_afters(stack.afters@, rv) == Err::<RespView, ErrView>(e),
    ensures
        spec_run(stack, req) == Err::<Option<RespView>, ErrView>(e),
{
}

} // verus!
