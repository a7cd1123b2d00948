//! The library's error: a boxed kind, so that results stay small.
use vstd::prelude::*;

verus! {

/// A result whose error is a [`Url2Error`].
pub type Url2Result<T> = Result<T, Url2Error>;

/// What went wrong. More kinds may come, so a match needs a wildcard arm.
#[derive(Debug, Clone)]
#[non_exhaustive]
pub enum Url2ErrorKind {
    /// The `url` crate rejected the input.
    UrlParseError(url::ParseError),
}

/// An error of this library.
#[derive(Debug, Clone)]
pub struct Url2Error(Box<Url2ErrorKind>);

impl View for Url2Error {
    type V = Url2ErrorKind;

    closed spec fn view(&self) -> Url2ErrorKind {
        *self.0
    }
}

impl Url2Error {
    /// The kind of this error.
    pub fn kind(&self) -> (r: &Url2ErrorKind)
        ensures
            *r == self@,
    {
        &self.0
    }

    /// The kind of this error, taken out of it.
    pub fn into_kind(self) -> (r: Url2ErrorKind)
        ensures
            r == self@,
    {
        *self.0
    }
}

impl From<Url2ErrorKind> for Url2Error {
    fn from(kind: Url2ErrorKind) -> (r: Url2Error)
        ensures
            r@ == kind,
    {
        Url2Error(Box::new(kind))
    }
}

impl vstd::std_specs::convert::FromSpecImpl<Url2ErrorKind> for Url2Error {
    open spec fn obeys_from_spec() -> bool {
        true
    }

    closed spec fn from_spec(v: Url2ErrorKind) -> Url2Error {
        Url2Error(Box::new(v))
    }
}

impl From<url::ParseError> for Url2Error {
    fn from(err: url::ParseError) -> (r: Url2Error)
        ensures
            r@ == Url2ErrorKind::UrlParseError(err),
    {
        Url2Error(Box::new(Url2ErrorKind::UrlParseError(err)))
    }
}

impl vstd::std_specs::convert::FromSpecImpl<url::ParseError> for Url2Error {
    open spec fn obeys_from_spec() -> bool {
        true
    }

    closed spec fn from_spec(v: url::ParseError) -> Url2Error {
        Url2Error(Box::new(Url2ErrorKind::UrlParseError(v)))
    }
}

} // verus!
