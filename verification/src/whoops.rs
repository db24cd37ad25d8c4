//! One signal of success or failure for work that may fail in several ways:
//! work that returns nothing, work that returns an optional value, and work
//! that returns a result are all told apart into "went well" and "failed,
//! and why".

use crate::error::{DocumentError, ErrorView};
use vstd::prelude::*;
use vstd::string::StringExecFns;

verus! {

/// A value was expected and none was there.
#[derive(Debug, Clone, Copy, PartialEq, Eq, Structural)]
pub struct NoneError;

impl NoneError {
    /// The text of the message of a `NoneError`.
    pub open spec fn spec_message() -> Seq<char> {
        "NoneError: expected Some(...), got None."@
    }

    /// The message that describes the error to a reader.
    pub fn message(&self) -> (msg: String)
        ensures
            msg@ == Self::spec_message(),
    {
        String::from_str("NoneError: expected Some(...), got None.")
    }
}

/// Why a piece of work failed.
#[derive(Debug, Clone)]
pub enum Failure {
    /// A value was expected and none was there.
    Absent(NoneError),
    /// A document could not be found, made, opened or launched.
    Document(DocumentError),
    /// Anything else, by its message.
    Other(String),
}

/// A `Failure` as a mathematical value.
pub enum FailureModel {
    Absent,
    Document(ErrorView),
    Other(Seq<char>),
}

impl View for Failure {
    type V = FailureModel;

    open spec fn view(&self) -> FailureModel {
        match self {
            Failure::Absent(_) => FailureModel::Absent,
            Failure::Document(e) => FailureModel::Document(e@),
            Failure::Other(m) => FailureModel::Other(m@),
        }
    }
}

impl FailureModel {
    /// The message that describes the failure to a reader.
    pub open spec fn message(self) -> Seq<char> {
        match self {
            FailureModel::Absent => NoneError::spec_message(),
            FailureModel::Document(e) => e.message(),
            FailureModel::Other(m) => m,
        }
    }
}

impl Failure {
    /// The message that describes the failure to a reader.
    pub fn message(&self) -> (msg: String)
        ensures
            msg@ == self@.message(),
    {
        match self {
            Failure::Absent(e) => e.message(),
            Failure::Document(e) => e.message(),
            Failure::Other(m) => m.clone(),
        }
    }
}

/// The outcome of work that may fail.
pub type Whoops = Result<(), Failure>;

/// A `Whoops` as a mathematical value.
pub open spec fn outcome_of(w: Whoops) -> Result<(), FailureModel> {
    match w {
        Ok(_) => Ok(()),
        Err(e) => Err(e@),
    }
}

/// What can be read as the outcome of work that may fail.
pub trait IntoWhoops: Sized {
    /// The outcome that the value stands for.
    spec fn outcome(self) -> Result<(), FailureModel>;

    /// The value as an outcome.
    fn into_whoops(self) -> (w: Whoops)
        ensures
            outcome_of(w) == self.outcome(),
    ;
}

/// Work that returns nothing went well.
impl IntoWhoops for () {
    open spec fn outcome(self) -> Result<(), FailureModel> {
        Ok(())
    }

    fn into_whoops(self) -> (w: Whoops) {
        Ok(())
    }
}

/// A result went well if it is `Ok`, whatever it holds; its error is the
/// failure.
impl<T> IntoWhoops for Result<T, Failure> {
    open spec fn outcome(self) -> Result<(), FailureModel> {
        match self {
            Ok(_) => Ok(()),
            Err(e) => Err(e@),
        }
    }

    fn into_whoops(self) -> (w: Whoops) {
        match self {
            Ok(_) => Ok(()),
            Err(error) => Err(error),
        }
    }
}

/// The result of work on a document went well if it is `Ok`; its error is
/// the failure.
impl<T> IntoWhoops for Result<T, DocumentError> {
    open spec fn outcome(self) -> Result<(), FailureModel> {
        match self {
            Ok(_) => Ok(()),
            Err(e) => Err(FailureModel::Document(e@)),
        }
    }

    fn into_whoops(self) -> (w: Whoops) {
        match self {
            Ok(_) => Ok(()),
            Err(error) => Err(Failure::Document(error)),
        }
    }
}

/// An optional value went well if it is there; a missing one is a failure.
impl<T> IntoWhoops for Option<T> {
    open spec fn outcome(self) -> Result<(), FailureModel> {
        match self {
            Some(_) => Ok(()),
            None => Err(FailureModel::Absent),
        }
    }

    fn into_whoops(self) -> (w: Whoops) {
        match self {
            Some(_) => Ok(()),
            None => Err(Failure::Absent(NoneError)),
        }
    }
}

/// Runs `closure` and reads what it returns as an outcome.
pub fn attempt<Closure, Return>(closure: Closure) -> (w: Whoops) where
    Closure: FnOnce() -> Return,
    Return: IntoWhoops,

    requires
        closure.requires(()),
    ensures
        exists|returned: Return| #[trigger]
            closure.ensures((), returned) && outcome_of(w) == returned.outcome(),
{
    closure().into_whoops()
}

/// Outcomes whose failure can be handed to a handler.
pub trait Catch: Sized {
    /// The failure that the outcome holds, if it holds one.
    spec fn failure(self) -> Option<Failure>;

    /// Hands the failure, if there is one, to `handler`, and says whether
    /// there was one.
    fn catch<Handler: FnOnce(Failure)>(self, handler: Handler) -> (failed: bool)
        requires
            self.failure() matches Some(e) ==> handler.requires((e,)),
        ensures
            failed == self.failure() is Some,
            self.failure() matches Some(e) ==> handler.ensures((e,), ()),
    ;
}

impl Catch for Whoops {
    open spec fn failure(self) -> Option<Failure> {
        match self {
            Ok(_) => None,
            Err(e) => Some(e),
        }
    }

    fn catch<Handler: FnOnce(Failure)>(self, handler: Handler) -> (failed: bool) {
        match self {
            Ok(_) => false,
            Err(error) => {
                handler(error);
                true
            },
        }
    }
}

} // verus!
