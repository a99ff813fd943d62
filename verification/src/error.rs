use vstd::prelude::*;

verus! {

/// The two failure kinds the core distinguishes: a transport request whose
/// target is not an absolute path, and any failure raised by middleware,
/// carried as a bare message.
#[derive(Debug)]
pub enum Error {
    UnsupportedRequestPathFormat,
    Generic(String),
}

/// Result type threaded through every fallible middleware operation.
pub type MagnetResult<T> = Result<T, Error>;

/// Mathematical image of an [`Error`]: the message as a sequence of
/// characters, so that contracts can speak of errors without holding
/// allocated strings.
pub ghost enum ErrView {
    UnsupportedRequestPathFormat,
    Generic(Seq<char>),
}

impl View for Error {
    type V = ErrView;

    open spec fn view(&self) -> ErrView {
        match self {
            Error::UnsupportedRequestPathFormat => ErrView::UnsupportedRequestPathFormat,
            Error::Generic(msg) => ErrView::Generic(msg@),
        }
    }
}

} // verus!
