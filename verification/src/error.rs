//! Error type for the load balancer.

use vstd::prelude::*;

use crate::text::{quote, quoted};

verus! {

/// An I/O error of the standard library. It is carried through unread.
#[verifier::external_type_specification]
#[verifier::external_body]
pub struct ExIoError(std::io::Error);

/// A dial target that is not a valid `"host:port"`.
#[derive(Debug)]
pub struct InvalidAddress {
    /// The address string that failed validation.
    pub addr: String,
    /// Why the address was rejected.
    pub reason: &'static str,
}

/// The load balancer has no backends.
#[derive(Debug, Clone, Copy)]
pub struct NoBackends;

/// A backend could not be created.
#[derive(Debug)]
pub struct FactoryError(pub String);

/// A backend operation failed.
#[derive(Debug)]
pub struct BackendError(pub String);

/// An underlying I/O error.
#[derive(Debug)]
pub struct IoError(pub std::io::Error);

/// Errors produced by the load balancer and the backends it manages.
#[derive(Debug)]
pub enum Error {
    /// A dial target that is not a valid `"host:port"`.
    InvalidAddress(InvalidAddress),
    /// The load balancer was constructed with zero backends.
    NoBackends(NoBackends),
    /// A backend could not be created.
    Factory(FactoryError),
    /// A dial failed.
    Backend(BackendError),
    /// Underlying I/O error from a stream a backend returned.
    Io(IoError),
}

/// What an [`Error`] says, over plain text.
pub enum ErrorView {
    InvalidAddress { addr: Seq<char>, reason: Seq<char> },
    NoBackends,
    Factory(Seq<char>),
    Backend(Seq<char>),
    Io(std::io::Error),
}

impl View for Error {
    type V = ErrorView;

    open spec fn view(&self) -> ErrorView {
        match self {
            Error::InvalidAddress(e) => ErrorView::InvalidAddress {
                addr: e.addr@,
                reason: e.reason@,
            },
            Error::NoBackends(_) => ErrorView::NoBackends,
            Error::Factory(e) => ErrorView::Factory(e.0@),
            Error::Backend(e) => ErrorView::Backend(e.0@),
            Error::Io(e) => ErrorView::Io(e.0),
        }
    }
}

/// The text of an invalid-address error, with the address already quoted.
pub open spec fn invalid_address_message(quoted_addr: Seq<char>, reason: Seq<char>) -> Seq<char> {
    "invalid dial address "@ + quoted_addr + ": "@ + reason
}

/// The text of an I/O error, with the underlying error already printed.
pub open spec fn io_message(detail: Seq<char>) -> Seq<char> {
    "i/o error: "@ + detail
}

/// Put the text of an invalid-address error together.
pub fn describe_invalid_address(quoted_addr: &str, reason: &str) -> (text: String)
    ensures
        text@ == invalid_address_message(quoted_addr@, reason@),
{
    let mut text = "invalid dial address ".to_owned();
    text.append(quoted_addr);
    text.append(": ");
    text.append(reason);
    text
}

/// Put the text of an I/O error together.
pub fn describe_io_error(detail: &str) -> (text: String)
    ensures
        text@ == io_message(detail@),
{
    let mut text = "i/o error: ".to_owned();
    text.append(detail);
    text
}

/// `{}` on a [`std::io::Error`]. For an error of the operating system the text
/// is the system's own, so nothing is claimed of it.
#[verifier::external_body]
pub fn io_error_text(e: &std::io::Error) -> (text: String)
{
    format!("{}", e)
}

/// `text` is the text of an I/O error, made from what `{}` gave on `e`.
pub open spec fn is_io_message(e: std::io::Error, text: Seq<char>) -> bool {
    exists|detail: String| #[trigger]
        call_ensures(io_error_text, (&e,), detail) && text == io_message(detail@)
}

impl InvalidAddress {
    /// The error in words.
    pub fn message(&self) -> (text: String)
        ensures
            text@ == invalid_address_message(quoted(self.addr@), self.reason@),
    {
        let quoted_addr = quote(self.addr.as_str());
        describe_invalid_address(quoted_addr.as_str(), self.reason)
    }
}

impl NoBackends {
    /// The error in words.
    pub fn message(&self) -> (text: String)
        ensures
            text@ == "no backends available — pool is empty"@,
    {
        "no backends available — pool is empty".to_owned()
    }
}

impl FactoryError {
    /// The error in words.
    pub fn message(&self) -> (text: String)
        ensures
            text@ == "backend factory failed: "@ + self.0@,
    {
        let mut text = "backend factory failed: ".to_owned();
        text.append(self.0.as_str());
        text
    }
}

impl BackendError {
    /// The error in words.
    pub fn message(&self) -> (text: String)
        ensures
            text@ == "backend operation failed: "@ + self.0@,
    {
        let mut text = "backend operation failed: ".to_owned();
        text.append(self.0.as_str());
        text
    }
}

impl IoError {
    /// The error in words: a fixed prefix and what the underlying error says
    /// of itself.
    pub fn message(&self) -> (text: String)
        ensures
            is_io_message(self.0, text@),
    {
        let detail = io_error_text(&self.0);
        assert(call_ensures(io_error_text, (&self.0,), detail));
        describe_io_error(detail.as_str())
    }
}

/// Convenience constructors.
impl Error {
    /// Create an [`Error::Backend`] from a message.
    pub fn backend(msg: String) -> (e: Self)
        ensures
            e@ == ErrorView::Backend(msg@),
    {
        Error::Backend(BackendError(msg))
    }

    /// Create an [`Error::Backend`] that says what failed, and how.
    pub fn backend_with(what: &str, detail: &str) -> (e: Self)
        ensures
            e@ == ErrorView::Backend(what@ + ": "@ + detail@),
    {
        let mut text = what.to_owned();
        text.append(": ");
        text.append(detail);
        Error::backend(text)
    }

    /// Create an [`Error::Factory`] from a message.
    pub fn factory(msg: String) -> (e: Self)
        ensures
            e@ == ErrorView::Factory(msg@),
    {
        Error::Factory(FactoryError(msg))
    }

    /// The load balancer was constructed with zero backends.
    pub fn no_backends() -> (e: Self)
        ensures
            e@ == ErrorView::NoBackends,
    {
        Error::NoBackends(NoBackends)
    }

    /// A dial target that is not a valid `"host:port"`.
    pub fn invalid_address(addr: String, reason: &'static str) -> (e: Self)
        ensures
            e@ == (ErrorView::InvalidAddress { addr: addr@, reason: reason@ }),
    {
        Error::InvalidAddress(InvalidAddress { addr, reason })
    }

    /// The error in words: that of the error it holds.
    pub fn message(&self) -> (text: String)
        ensures
            match self@ {
                ErrorView::InvalidAddress { addr, reason } => text@ == invalid_address_message(
                    quoted(addr),
                    reason,
                ),
                ErrorView::NoBackends => text@ == "no backends available — pool is empty"@,
                ErrorView::Factory(msg) => text@ == "backend factory failed: "@ + msg,
                ErrorView::Backend(msg) => text@ == "backend operation failed: "@ + msg,
                ErrorView::Io(e) => is_io_message(e, text@),
            },
    {
        match self {
            Error::InvalidAddress(e) => e.message(),
            Error::NoBackends(e) => e.message(),
            Error::Factory(e) => e.message(),
            Error::Backend(e) => e.message(),
            Error::Io(e) => e.message(),
        }
    }
}

impl From<std::io::Error> for Error {
    fn from(e: std::io::Error) -> (err: Self) {
        Error::Io(IoError(e))
    }
}

impl vstd::std_specs::convert::FromSpecImpl<std::io::Error> for Error {
    open spec fn obeys_from_spec() -> bool {
        true
    }

    open spec fn from_spec(e: std::io::Error) -> Self {
        Error::Io(IoError(e))
    }
}

impl From<InvalidAddress> for Error {
    fn from(e: InvalidAddress) -> (err: Self) {
        Error::InvalidAddress(e)
    }
}

impl vstd::std_specs::convert::FromSpecImpl<InvalidAddress> for Error {
    open spec fn obeys_from_spec() -> bool {
        true
    }

    open spec fn from_spec(e: InvalidAddress) -> Self {
        Error::InvalidAddress(e)
    }
}

impl From<NoBackends> for Error {
    fn from(e: NoBackends) -> (err: Self) {
        Error::NoBackends(e)
    }
}

impl vstd::std_specs::convert::FromSpecImpl<NoBackends> for Error {
    open spec fn obeys_from_spec() -> bool {
        true
    }

    open spec fn from_spec(e: NoBackends) -> Self {
        Error::NoBackends(e)
    }
}

impl From<FactoryError> for Error {
    fn from(e: FactoryError) -> (err: Self) {
        Error::Factory(e)
    }
}

impl vstd::std_specs::convert::FromSpecImpl<FactoryError> for Error {
    open spec fn obeys_from_spec() -> bool {
        true
    }

    open spec fn from_spec(e: FactoryError) -> Self {
        Error::Factory(e)
    }
}

impl From<BackendError> for Error {
    fn from(e: BackendError) -> (err: Self) {
        Error::Backend(e)
    }
}

impl vstd::std_specs::convert::FromSpecImpl<BackendError> for Error {
    open spec fn obeys_from_spec() -> bool {
        true
    }

    open spec fn from_spec(e: BackendError) -> Self {
        Error::Backend(e)
    }
}

impl From<IoError> for Error {
    fn from(e: IoError) -> (err: Self) {
        Error::Io(e)
    }
}

impl vstd::std_specs::convert::FromSpecImpl<IoError> for Error {
    open spec fn obeys_from_spec() -> bool {
        true
    }

    open spec fn from_spec(e: IoError) -> Self {
        Error::Io(e)
    }
}

/// What each error says in words.
pub proof fn errors_in_words(e: &Error, text: String)
    requires
        call_ensures(Error::message, (e,), text),
    ensures
        *e matches Error::InvalidAddress(i) ==> text@ == "invalid dial address "@ + quoted(i.addr@)
            + ": "@ + i.reason@,
        *e is NoBackends ==> text@ == "no backends available — pool is empty"@,
        *e matches Error::Factory(f) ==> text@ == "backend factory failed: "@ + f.0@,
        *e matches Error::Backend(b) ==> text@ == "backend operation failed: "@ + b.0@,
        *e matches Error::Io(io) ==> exists|detail: String| #[trigger]
            call_ensures(io_error_text, (&io.0,), detail) && text@ == "i/o error: "@ + detail@,
{
}

/// The errors inside say the same as the error that holds them.
pub proof fn held_errors_say_the_same(
    invalid: &InvalidAddress,
    none: &NoBackends,
    factory: &FactoryError,
    backend: &BackendError,
    text: String,
)
    ensures
        call_ensures(InvalidAddress::message, (invalid,), text) ==> text@
            == "invalid dial address "@ + quoted(invalid.addr@) + ": "@ + invalid.reason@,
        call_ensures(NoBackends::message, (none,), text) ==> text@
            == "no backends available — pool is empty"@,
        call_ensures(FactoryError::message, (factory,), text) ==> text@
            == "backend factory failed: "@ + factory.0@,
        call_ensures(BackendError::message, (backend,), text) ==> text@
            == "backend operation failed: "@ + backend.0@,
{
}

/// The constructors make the errors they are named after, with the text they
/// are given.
pub proof fn constructors_make_their_errors(
    msg: String,
    what: &str,
    detail: &str,
    reason: &'static str,
    e: Error,
)
    ensures
        call_ensures(Error::backend, (msg,), e) ==> (e matches Error::Backend(b) && b.0@ == msg@),
        call_ensures(Error::backend_with, (what, detail), e) ==> (e matches Error::Backend(b)
            && b.0@ == what@ + ": "@ + detail@),
        call_ensures(Error::factory, (msg,), e) ==> (e matches Error::Factory(f) && f.0@ == msg@),
        call_ensures(Error::no_backends, (), e) ==> e is NoBackends,
        call_ensures(Error::invalid_address, (msg, reason), e) ==> (
        e matches Error::InvalidAddress(i) && i.addr@ == msg@ && i.reason@ == reason@),
{
}

/// An error that is converted is held as it is.
pub proof fn conversions_hold_the_error(
    invalid: InvalidAddress,
    none: NoBackends,
    factory: FactoryError,
    backend: BackendError,
    io: IoError,
    raw: std::io::Error,
    e: Error,
)
    ensures
        call_ensures(<Error as From<InvalidAddress>>::from, (invalid,), e) ==> e
            == Error::InvalidAddress(invalid),
        call_ensures(<Error as From<NoBackends>>::from, (none,), e) ==> e is NoBackends,
        call_ensures(<Error as From<FactoryError>>::from, (factory,), e) ==> e == Error::Factory(
            factory,
        ),
        call_ensures(<Error as From<BackendError>>::from, (backend,), e) ==> e == Error::Backend(
            backend,
        ),
        call_ensures(<Error as From<IoError>>::from, (io,), e) ==> e == Error::Io(io),
        call_ensures(<Error as From<std::io::Error>>::from, (raw,), e) ==> e == Error::Io(
            IoError(raw),
        ),
{
}

/// The texts that errors are put together from.
pub proof fn error_texts_are_put_together(addr: &str, reason: &str, detail: &str, text: String)
    ensures
        call_ensures(describe_invalid_address, (addr, reason), text) ==> text@
            == "invalid dial address "@ + addr@ + ": "@ + reason@,
        call_ensures(describe_io_error, (detail,), text) ==> text@ == "i/o error: "@ + detail@,
{
}

} // verus!
