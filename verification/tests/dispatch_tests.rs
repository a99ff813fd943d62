use magnet_core::Before;
use magnet_core::MagnetResult;
use magnet_core::Method;
use magnet_core::Request;
use magnet_core::Responder;
use magnet_core::Response;
use magnet_core::Stack;
use magnet_core::Store;

#[derive(Clone, Debug, PartialEq)]
struct Marker(u32);

struct SetMarker {
    value: u32,
}

impl Before for SetMarker {
    fn call(&self, _env: &Store, request: &mut Request) -> MagnetResult<()> {
        request.set(Marker(self.value));
        Ok(())
    }
}

struct ReportMarker;

impl Responder for ReportMarker {
    fn call(&self, _env: &Store, request: &Request) -> MagnetResult<Option<Response>> {
        let body = match request.get::<Marker>() {
            Some(m) => format!("marker {}", m.0),
            None => "no marker".to_string(),
        };
        Ok(Some(Response::build(200).body(body).end()))
    }
}

struct DeclineQuietly;

impl Responder for DeclineQuietly {
    fn call(&self, _env: &Store, _request: &Request) -> MagnetResult<Option<Response>> {
        Ok(None)
    }
}

struct ReportEnv;

impl Responder for ReportEnv {
    fn call(&self, env: &Store, _request: &Request) -> MagnetResult<Option<Response>> {
        let body = match env.get::<Marker>() {
            Some(m) => format!("env {}", m.0),
            None => "no env".to_string(),
        };
        Ok(Some(Response::build(200).body(body).end()))
    }
}

#[test]
fn test_sibling_subtrees_see_isolated_request_stores() {
    // The first child's before mutates its own copy of the request and the
    // child then declines; the second child must not see the mutation.
    let mut first_child = Stack::new();
    first_child.before(SetMarker { value: 1 });
    first_child.add(DeclineQuietly);

    let mut second_child = Stack::new();
    second_child.add(ReportMarker);

    let mut stack = Stack::new();
    stack.mount(first_child);
    stack.mount(second_child);

    let mut req = Request::new(Method::Get, "/".into());
    let response = stack.run(&mut req).unwrap().unwrap();
    assert_eq!("no marker", response.body);
}

#[test]
fn test_parent_before_mutation_reaches_children() {
    // A before on the parent runs on the request itself, before any child
    // copies are taken, so every child sees it.
    let mut child = Stack::new();
    child.add(ReportMarker);

    let mut stack = Stack::new();
    stack.before(SetMarker { value: 9 });
    stack.mount(child);

    let mut req = Request::new(Method::Get, "/".into());
    let response = stack.run(&mut req).unwrap().unwrap();
    assert_eq!("marker 9", response.body);
}

#[test]
fn test_responder_reads_stack_environment() {
    let mut stack = Stack::new();
    stack.set(Marker(5));
    stack.add(ReportEnv);

    let mut req = Request::new(Method::Get, "/".into());
    let response = stack.run(&mut req).unwrap().unwrap();
    assert_eq!("env 5", response.body);
}
