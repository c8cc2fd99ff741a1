//! Two independently defined error kinds, each carrying one message, and the
//! explicit conversion that merges them into a single reporting path.

use vstd::prelude::*;

verus! {

/// A locally defined failure: one human-readable message.
#[derive(Debug)]
pub struct MyError {
    pub details: String,
}

impl MyError {
    /// Build a local error carrying `msg`.
    pub fn new(msg: &str) -> (e: MyError)
        ensures
            e.details@ == msg@,
    {
        MyError { details: msg.to_owned() }
    }

    /// The stored message.
    pub fn description(&self) -> (r: &str)
        ensures
            r@ == self.details@,
    {
        self.details.as_str()
    }
}

/// A failure in a second, independently defined representation; it also
/// carries exactly one message.
#[derive(Debug)]
pub struct LibraryError {
    pub message: String,
}

impl LibraryError {
    /// Build a library error carrying `msg`.
    pub fn new(msg: &str) -> (e: LibraryError)
        ensures
            e.message@ == msg@,
    {
        LibraryError { message: msg.to_owned() }
    }

    /// The stored message.
    pub fn description(&self) -> (r: &str)
        ensures
            r@ == self.message@,
    {
        self.message.as_str()
    }
}

impl From<MyError> for LibraryError {
    /// Message-preserving conversion: only the text of the local error is kept.
    fn from(e: MyError) -> (r: LibraryError) {
        LibraryError { message: e.details }
    }
}

impl vstd::std_specs::convert::FromSpecImpl<MyError> for LibraryError {
    open spec fn obeys_from_spec() -> bool {
        true
    }

    open spec fn from_spec(e: MyError) -> LibraryError {
        LibraryError { message: e.details }
    }
}

/// What converting one local-error result into a library-error result yields:
/// success stays success, and a failure keeps its message.
pub open spec fn convert_spec(a: Result<(), MyError>) -> Result<(), LibraryError> {
    match a {
        Ok(u) => Ok(u),
        Err(e) => Err(LibraryError { message: e.details }),
    }
}

/// Turn a local-error result into a library-error result, keeping the message.
pub fn convert_result(a: Result<(), MyError>) -> (r: Result<(), LibraryError>)
    ensures
        r == convert_spec(a),
{
    match a {
        Ok(()) => Ok(()),
        Err(e) => Err(LibraryError::from(e)),
    }
}

/// Convert a whole sequence of local-error results, element by element, so
/// that failures from both sources can be reported through one path.
pub fn convert_results(results: Vec<Result<(), MyError>>) -> (out: Vec<Result<(), LibraryError>>)
    ensures
        out@.len() == results@.len(),
        forall|i: int| 0 <= i < results@.len() ==> out@[i] == convert_spec(results@[i]),
{
    let ghost all = results@;
    let mut rest = results;
    let mut out: Vec<Result<(), LibraryError>> = Vec::new();
    while rest.len() > 0
        invariant
            out@.len() + rest@.len() == all.len(),
            rest@ == all.skip(out@.len() as int),
            forall|i: int| 0 <= i < out@.len() ==> out@[i] == convert_spec(all[i]),
        decreases rest@.len(),
    {
        let x = rest.remove(0);
        out.push(convert_result(x));
        proof {
            assert(all.skip(out@.len() - 1).remove(0) =~= all.skip(out@.len() as int));
        }
    }
    out
}

} // verus!
