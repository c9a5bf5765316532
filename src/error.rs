//! Error kinds and the structured error that every fallible operation returns.

use vstd::prelude::*;

verus! {

/// What went wrong, in the terms that callers match on.
#[derive(Clone, Copy, Debug, PartialEq, Eq, Structural)]
pub enum ErrorKind {
    /// Anything network- or OS-level that is not otherwise classified.
    Unexpected,
    /// The backend or the operation does not support what was asked.
    Unsupported,
    /// The backend's configuration is invalid.
    BackendConfigInvalid,
    /// The object does not exist.
    ObjectNotFound,
    /// Access to the object was denied.
    ObjectPermissionDenied,
    /// A file was expected but the object is a directory.
    ObjectIsADirectory,
    /// A directory was expected but the object is not one.
    ObjectNotADirectory,
    /// The object exists already.
    ObjectAlreadyExists,
}

/// The label of an error kind, as metrics and logs carry it.
pub open spec fn kind_label(k: ErrorKind) -> Seq<char> {
    match k {
        ErrorKind::Unexpected => "Unexpected"@,
        ErrorKind::Unsupported => "Unsupported"@,
        ErrorKind::BackendConfigInvalid => "BackendConfigInvalid"@,
        ErrorKind::ObjectNotFound => "ObjectNotFound"@,
        ErrorKind::ObjectPermissionDenied => "ObjectPermissionDenied"@,
        ErrorKind::ObjectIsADirectory => "ObjectIsADirectory"@,
        ErrorKind::ObjectNotADirectory => "ObjectNotADirectory"@,
        ErrorKind::ObjectAlreadyExists => "ObjectAlreadyExists"@,
    }
}

impl ErrorKind {
    /// The kind's label.
    pub fn into_static(self) -> (r: &'static str)
        ensures
            r@ == kind_label(self),
    {
        match self {
            ErrorKind::Unexpected => "Unexpected",
            ErrorKind::Unsupported => "Unsupported",
            ErrorKind::BackendConfigInvalid => "BackendConfigInvalid",
            ErrorKind::ObjectNotFound => "ObjectNotFound",
            ErrorKind::ObjectPermissionDenied => "ObjectPermissionDenied",
            ErrorKind::ObjectIsADirectory => "ObjectIsADirectory",
            ErrorKind::ObjectNotADirectory => "ObjectNotADirectory",
            ErrorKind::ObjectAlreadyExists => "ObjectAlreadyExists",
        }
    }

    /// Whether the kind is expected in normal operation (anything but `Unexpected`).
    pub fn is_expected(self) -> (r: bool)
        ensures
            r == (self != ErrorKind::Unexpected),
    {
        !matches!(self, ErrorKind::Unexpected)
    }
}

/// The error's context is exactly one pair: `service` and the given service name.
pub open spec fn service_context(e: Error, service: Seq<char>) -> bool {
    e.context@.len() == 1 && e.context@[0].0@ == "service"@ && e.context@[0].1@ == service
}

/// A structured error: kind, short message, the operation it came from,
/// key/value context and the text of an underlying cause.
#[derive(Debug)]
pub struct Error {
    pub kind: ErrorKind,
    pub message: String,
    pub operation: Option<String>,
    pub context: Vec<(String, String)>,
    pub source: Option<String>,
}

impl Error {
    /// A new error of the given kind with the given message.
    pub fn new(kind: ErrorKind, message: &str) -> (r: Error)
        ensures
            r.kind == kind,
            r.message@ == message@,
            r.operation is None,
            r.context@.len() == 0,
            r.source is None,
    {
        Error {
            kind,
            message: String::from_str(message),
            operation: None,
            context: Vec::new(),
            source: None,
        }
    }

    /// The kind of this error.
    pub fn kind(&self) -> (r: ErrorKind)
        ensures
            r == self.kind,
    {
        self.kind
    }

    /// Tags the error with the operation it came from; kind and context are kept.
    pub fn with_operation(self, operation: &str) -> (r: Error)
        ensures
            r.kind == self.kind,
            r.message == self.message,
            r.operation matches Some(o) && o@ == operation@,
            r.context == self.context,
            r.source == self.source,
    {
        Error { operation: Some(String::from_str(operation)), ..self }
    }

    /// Adds one key/value pair of context; what was there is kept.
    pub fn with_context(self, key: &str, value: &str) -> (r: Error)
        ensures
            r.kind == self.kind,
            r.message == self.message,
            r.operation == self.operation,
            r.context@.len() == self.context@.len() + 1,
            r.context@.subrange(0, self.context@.len() as int) == self.context@,
            r.context@.last().0@ == key@,
            r.context@.last().1@ == value@,
            r.source == self.source,
    {
        let mut e = self;
        e.context.push((String::from_str(key), String::from_str(value)));
        e
    }

    /// Records the text of the underlying cause.
    pub fn set_source(self, source: &str) -> (r: Error)
        ensures
            r.kind == self.kind,
            r.message == self.message,
            r.operation == self.operation,
            r.context == self.context,
            r.source matches Some(s) && s@ == source@,
    {
        Error { source: Some(String::from_str(source)), ..self }
    }
}

} // verus!
