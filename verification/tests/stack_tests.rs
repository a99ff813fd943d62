use std::sync::atomic::AtomicUsize;
use std::sync::atomic::Ordering;
use std::sync::Arc;

use magnet_core::After;
use magnet_core::Before;
use magnet_core::Error;
use magnet_core::MagnetResult;
use magnet_core::Method;
use magnet_core::Request;
use magnet_core::Responder;
use magnet_core::Response;
use magnet_core::Stack;
use magnet_core::Store;

struct TestBefore {
    return_error: bool,
}

impl Before for TestBefore {
    fn call(&self, _env: &Store, _request: &mut Request) -> MagnetResult<()> {
        if self.return_error {
            Err(Error::Generic("Something happened".into()))
        } else {
            Ok(())
        }
    }
}

struct TestAfter {
    return_error: bool,
}

impl After for TestAfter {
    fn call(&self, _env: &Store, _response: &mut Response) -> MagnetResult<()> {
        if self.return_error {
            Err(Error::Generic("Something happened".into()))
        } else {
            Ok(())
        }
    }
}

struct OkSomeResponder;

impl Responder for OkSomeResponder {
    fn call(&self, _env: &Store, _request: &Request) -> MagnetResult<Option<Response>> {
        Ok(Some(Response::build(200).end()))
    }
}

struct OkNoneResponder;

impl Responder for OkNoneResponder {
    fn call(&self, _env: &Store, _request: &Request) -> MagnetResult<Option<Response>> {
        Ok(None)
    }
}

struct ErrorResponder;

impl Responder for ErrorResponder {
    fn call(&self, _env: &Store, _request: &Request) -> MagnetResult<Option<Response>> {
        Err(Error::Generic("Something went wrong".into()))
    }
}

struct CountingResponder {
    hits: Arc<AtomicUsize>,
    body: &'static str,
    respond: bool,
}

impl Responder for CountingResponder {
    fn call(&self, _env: &Store, _request: &Request) -> MagnetResult<Option<Response>> {
        self.hits.fetch_add(1, Ordering::SeqCst);
        if self.respond {
            Ok(Some(Response::build(200).body(self.body.into()).end()))
        } else {
            Ok(None)
        }
    }
}

struct CountingAfter {
    hits: Arc<AtomicUsize>,
}

impl After for CountingAfter {
    fn call(&self, _env: &Store, response: &mut Response) -> MagnetResult<()> {
        self.hits.fetch_add(1, Ordering::SeqCst);
        response.headers.push(("x-counted".into(), "yes".into()));
        Ok(())
    }
}

#[test]
fn test_error_in_before() {
    let mut stack = Stack::new();
    let mut req = Request::new(Method::Get, "/".into());
    stack.before(TestBefore { return_error: true });
    assert!(stack.run(&mut req).is_err());
}

#[test]
fn test_result_in_responder() {
    let mut stack = Stack::new();
    let mut req = Request::new(Method::Get, "/".into());
    stack.add(OkSomeResponder);
    assert!(stack.run(&mut req).is_ok());
}

#[test]
fn test_none_in_responder() {
    let mut stack = Stack::new();
    let mut req = Request::new(Method::Get, "/".into());
    stack.add(OkNoneResponder);
    assert!(stack.run(&mut req).is_ok());
}

#[test]
fn test_error_in_responder() {
    let mut stack = Stack::new();
    let mut req = Request::new(Method::Get, "/".into());
    stack.add(ErrorResponder);
    assert!(stack.run(&mut req).is_err());
}

#[test]
fn test_error_in_after() {
    let mut stack = Stack::new();
    let mut req = Request::new(Method::Get, "/".into());
    stack.add(OkSomeResponder);
    stack.after(TestAfter { return_error: true });
    assert!(stack.run(&mut req).is_err());
}

#[test]
fn test_failing_before_stops_everything() {
    let responder_hits = Arc::new(AtomicUsize::new(0));
    let after_hits = Arc::new(AtomicUsize::new(0));

    let mut child = Stack::new();
    child.add(CountingResponder { hits: responder_hits.clone(), body: "child", respond: true });

    let mut stack = Stack::new();
    stack.before(TestBefore { return_error: true });
    stack.mount(child);
    stack.add(CountingResponder { hits: responder_hits.clone(), body: "own", respond: true });
    stack.after(CountingAfter { hits: after_hits.clone() });

    let mut req = Request::new(Method::Get, "/".into());
    assert!(stack.run(&mut req).is_err());
    assert_eq!(0, responder_hits.load(Ordering::SeqCst));
    assert_eq!(0, after_hits.load(Ordering::SeqCst));
}

#[test]
fn test_first_responding_responder_wins() {
    let first = Arc::new(AtomicUsize::new(0));
    let later = Arc::new(AtomicUsize::new(0));

    let mut stack = Stack::new();
    stack.add(CountingResponder { hits: first.clone(), body: "declines", respond: false });
    stack.add(CountingResponder { hits: first.clone(), body: "wins", respond: true });
    stack.add(CountingResponder { hits: later.clone(), body: "never", respond: true });

    let mut req = Request::new(Method::Get, "/".into());
    let response = stack.run(&mut req).unwrap().unwrap();
    assert_eq!("wins", response.body);
    assert_eq!(2, first.load(Ordering::SeqCst));
    assert_eq!(0, later.load(Ordering::SeqCst));
}

#[test]
fn test_first_responding_child_wins() {
    let second_child_hits = Arc::new(AtomicUsize::new(0));
    let after_hits = Arc::new(AtomicUsize::new(0));

    let mut first_child = Stack::new();
    first_child.add(CountingResponder {
        hits: Arc::new(AtomicUsize::new(0)),
        body: "from first child",
        respond: true,
    });

    let mut second_child = Stack::new();
    second_child.add(CountingResponder {
        hits: second_child_hits.clone(),
        body: "from second child",
        respond: true,
    });

    let mut stack = Stack::new();
    stack.mount(first_child);
    stack.mount(second_child);
    stack.after(CountingAfter { hits: after_hits.clone() });

    let mut req = Request::new(Method::Get, "/".into());
    let response = stack.run(&mut req).unwrap().unwrap();
    assert_eq!("from first child", response.body);
    assert_eq!(0, second_child_hits.load(Ordering::SeqCst));
    assert_eq!(1, after_hits.load(Ordering::SeqCst));
    assert!(response
        .headers
        .iter()
        .any(|h| h.0 == "x-counted" && h.1 == "yes"));
}

#[test]
fn test_after_error_discards_response() {
    let mut stack = Stack::new();
    stack.add(CountingResponder {
        hits: Arc::new(AtomicUsize::new(0)),
        body: "would be discarded",
        respond: true,
    });
    stack.after(TestAfter { return_error: true });

    let mut req = Request::new(Method::Get, "/".into());
    assert!(stack.run(&mut req).is_err());
}

#[test]
fn test_empty_stack_declines() {
    let stack = Stack::new();
    let mut req = Request::new(Method::Get, "/".into());
    assert!(matches!(stack.run(&mut req), Ok(None)));
}

#[test]
fn test_builders_chain_fluently() {
    let mut stack = Stack::new();
    stack
        .before(TestBefore { return_error: false })
        .add(OkNoneResponder)
        .add(OkSomeResponder)
        .after(TestAfter { return_error: false });

    let mut req = Request::new(Method::Get, "/".into());
    let response = stack.run(&mut req).unwrap();
    assert!(response.is_some());
}
