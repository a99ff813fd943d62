//! A minimal HTTP request-dispatch core: a composable tree of middleware
//! ("stacks") that pre-processes requests, tries to produce a response via
//! ordered responders and nested child stacks, and post-processes the
//! produced response on the way back out.

pub mod error;
pub mod request;
pub mod response;
pub mod stack;
mod store;

pub use error::Error;
pub use error::ErrView;
pub use error::MagnetResult;
pub use request::Method;
pub use request::MethodView;
pub use request::ReqView;
pub use request::Request;
pub use request::RequestTarget;
pub use request::TransportRequest;
pub use response::RespView;
pub use response::Response;
pub use response::ResponseBuilder;
pub use stack::After;
pub use stack::Before;
pub use stack::Responder;
pub use stack::Stack;
pub use store::Store;
