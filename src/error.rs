use vstd::prelude::*;

verus! {

/// The service's code for an object that does not exist.
pub const NO_SUCH_OBJECT: i32 = 3;

/// What an operation of this library can fail with.
#[derive(Clone, Debug, PartialEq, Eq)]
pub enum Error {
    /// A schema was built from a bad name or bad attribute declarations.
    InvalidSchema,
    /// An attribute is not declared by the schema, or its value has another type.
    SchemaMismatch,
    /// A failure that the service reported, passed on as it came.
    ServiceError { code: i32, message: String },
    /// The service answered with a payload of an unexpected shape.
    DecodeError,
}

impl Error {
    /// The error of a lookup that matched nothing.
    pub fn not_found() -> (r: Error)
        ensures
            r is ServiceError,
            r->code == NO_SUCH_OBJECT,
    {
        Error::ServiceError { code: NO_SUCH_OBJECT, message: String::new() }
    }

    pub fn is_not_found(&self) -> (r: bool)
        ensures
            r == (self is ServiceError && self->code == NO_SUCH_OBJECT),
    {
        match self {
            Error::ServiceError { code, .. } => *code == NO_SUCH_OBJECT,
            _ => false,
        }
    }
}

} // verus!
