//! Reads that may be told to wait.

use vstd::prelude::*;

verus! {

#[verifier::external_type_specification]
#[verifier::external_body]
pub struct ExIoError(std::io::Error);

/// Whether `e` is of kind `std::io::ErrorKind::WouldBlock`, as
/// `std::io::Error::kind` reports it. What the kind of a given error is
/// depends on where the error came from and is not stated.
#[verifier::external_body]
fn would_block(e: &std::io::Error) -> (r: bool) {
    e.kind() == std::io::ErrorKind::WouldBlock
}

/// The outcome of a read, given whether its error (if any) says the read
/// would block: the bytes read, nothing yet, or the error.
pub fn read_outcome(r: std::io::Result<usize>, blocked: bool) -> (out: std::io::Result<
    Option<usize>,
>)
    ensures
        r matches Ok(len) ==> (out matches Ok(Some(n)) && n == len),
        r matches Err(e) ==> (if blocked {
            out matches Ok(None)
        } else {
            out matches Err(e2) && e2 == e
        }),
{
    match r {
        Ok(len) => Ok(Some(len)),
        Err(e) => {
            if blocked {
                Ok(None)
            } else {
                Err(e)
            }
        },
    }
}

/// Turns the outcome of a non-blocking read into "read `len` bytes",
/// "nothing to read yet" (the error's kind is `WouldBlock`) or the error.
pub fn try_read(r: std::io::Result<usize>) -> (out: std::io::Result<Option<usize>>)
    ensures
        r matches Ok(len) ==> (out matches Ok(Some(n)) && n == len),
        r matches Err(e) ==> (out matches Ok(None) || (out matches Err(e2) && e2 == e)),
{
    let blocked = match &r {
        Ok(_) => false,
        Err(e) => would_block(e),
    };
    read_outcome(r, blocked)
}

} // verus!
