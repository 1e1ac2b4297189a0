use vstd::prelude::*;

verus! {

/// The failure modes of one report run. Every failure is fatal: the caller
/// prints the message and stops.
#[derive(Clone, Copy, Debug, PartialEq, Eq, Structural)]
pub enum RunError {
    /// A request could not be sent or timed out.
    Network,
    /// A response carried a status outside the 200..=299 range.
    HttpStatus(u16),
    /// A response body could not be decoded as text.
    BodyRead,
    /// The expected HTML marker, or its closing tag, was absent.
    MarkerNotFound,
    /// JSON was malformed or did not match the expected shape.
    Parse,
    /// The category page exposed no usable article slug.
    NoArticlesFound,
    /// The article exposed no entry with rank, team id and a name.
    NoRankedTeams,
}

/// Accepts exactly the 2xx status codes; any other status aborts the run
/// before its body is ever parsed.
pub fn check_status(status: u16) -> (r: Result<(), RunError>)
    ensures
        r is Ok <==> 200 <= status <= 299,
        r is Err ==> r == Err::<(), RunError>(RunError::HttpStatus(status)),
{
    if 200 <= status && status <= 299 {
        Ok(())
    } else {
        Err(RunError::HttpStatus(status))
    }
}

} // verus!
