//! The errors that the store reports.

use vstd::prelude::*;

verus! {

/// Why an operation on the store failed. Each variant carries a message
/// that names the field, entity or relation at fault.
#[derive(Debug, PartialEq, Eq)]
pub enum StoreError {
    /// An input is malformed: empty, too long, or holding a forbidden
    /// character.
    Validation(String),
    /// A relation names an entity that is not in the store.
    Referential(String),
    /// An operation targets an entity that is not in the store.
    NotFound(String),
    /// Stored observation data cannot be read back.
    Corruption(String),
    /// No connection became available within the pool's bound.
    PoolExhaustion(String),
    /// The engine reported an unexpected fault.
    Internal(String),
}

/// An error as a plain value: the message by its characters.
pub enum StoreErrorView {
    Validation(Seq<char>),
    Referential(Seq<char>),
    NotFound(Seq<char>),
    Corruption(Seq<char>),
    PoolExhaustion(Seq<char>),
    Internal(Seq<char>),
}

impl StoreErrorView {
    /// The message, whatever the kind.
    pub open spec fn message(self) -> Seq<char> {
        match self {
            StoreErrorView::Validation(m) => m,
            StoreErrorView::Referential(m) => m,
            StoreErrorView::NotFound(m) => m,
            StoreErrorView::Corruption(m) => m,
            StoreErrorView::PoolExhaustion(m) => m,
            StoreErrorView::Internal(m) => m,
        }
    }

    /// Whether the engine or the pool, not the caller's input, is at fault.
    pub open spec fn is_engine_fault(self) -> bool {
        self is PoolExhaustion || self is Internal
    }
}

impl View for StoreError {
    type V = StoreErrorView;

    open spec fn view(&self) -> StoreErrorView {
        match self {
            StoreError::Validation(m) => StoreErrorView::Validation(m@),
            StoreError::Referential(m) => StoreErrorView::Referential(m@),
            StoreError::NotFound(m) => StoreErrorView::NotFound(m@),
            StoreError::Corruption(m) => StoreErrorView::Corruption(m@),
            StoreError::PoolExhaustion(m) => StoreErrorView::PoolExhaustion(m@),
            StoreError::Internal(m) => StoreErrorView::Internal(m@),
        }
    }
}

impl StoreError {
    /// The message of the error.
    pub fn message(&self) -> (text: &str)
        ensures
            text@ == self@.message(),
    {
        match self {
            StoreError::Validation(m) => m.as_str(),
            StoreError::Referential(m) => m.as_str(),
            StoreError::NotFound(m) => m.as_str(),
            StoreError::Corruption(m) => m.as_str(),
            StoreError::PoolExhaustion(m) => m.as_str(),
            StoreError::Internal(m) => m.as_str(),
        }
    }
}

/// A context and the cause behind it, joined by a colon.
pub open spec fn with_cause(context: Seq<char>, cause: Seq<char>) -> Seq<char> {
    context + ": "@ + cause
}

/// Joins a context and its cause into one message.
pub fn describe(context: &str, cause: &str) -> (message: String)
    ensures
        message@ == with_cause(context@, cause@),
{
    let mut message = String::from_str(context);
    message.append(": ");
    message.append(cause);
    message
}

/// A context that names an entity: the prefix, the name, and a closing
/// quote.
pub fn naming(prefix: &str, name: &str) -> (context: String)
    ensures
        context@ == prefix@ + name@ + "'"@,
{
    let mut context = String::from_str(prefix);
    context.append(name);
    context.append("'");
    context
}

} // verus!
