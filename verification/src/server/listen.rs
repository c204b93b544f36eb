//! Starting and ending a server.

use vstd::prelude::*;

verus! {

/// Why a listener has no address to report.
#[derive(Debug)]
pub enum AddrError<E> {
    /// It listens on something that has no such address, like a path.
    NotAvailable,
    Other(E),
}

/// The address that a server reports for a listener, given the one that the listener has. A
/// listener without an address of this kind gets a dummy.
pub fn local_addr<E>(found: Result<String, AddrError<E>>) -> (r: Result<String, E>)
    ensures
        match found {
            Ok(a) => r == Ok::<String, E>(a),
            Err(AddrError::NotAvailable) => r matches Ok(a) && a@ == "0.0.0.0:0"@,
            Err(AddrError::Other(e)) => r == Err::<String, E>(e),
        },
{
    match found {
        Ok(a) => Ok(a),
        Err(AddrError::NotAvailable) => Ok("0.0.0.0:0".to_owned()),
        Err(AddrError::Other(e)) => Err(e),
    }
}

/// What a server does next while it is closing.
#[derive(Clone, Copy, Debug, PartialEq, Eq, Structural)]
pub enum CloseStep {
    /// Wait a second, then look again.
    Sleep,
    Closed,
}

/// What a server does once its listeners are gone and its connections are told to end:
/// it waits where there are connections left.
pub fn close_start(alive: usize) -> (r: CloseStep)
    ensures
        r == if alive > 0 {
            CloseStep::Sleep
        } else {
            CloseStep::Closed
        },
{
    if alive > 0 {
        CloseStep::Sleep
    } else {
        CloseStep::Closed
    }
}

/// What a server does after it has waited: it goes on waiting while there are connections left,
/// unless it has waited for longer than it may.
pub fn close_waited(alive: usize, too_long: bool) -> (r: CloseStep)
    ensures
        r == if alive > 0 && !too_long {
            CloseStep::Sleep
        } else {
            CloseStep::Closed
        },
{
    if too_long {
        return CloseStep::Closed;
    }
    close_start(alive)
}

/// How many connections are left, given how many hold on to the server's counter besides the
/// server itself.
pub fn get_alive_conn(holders: usize) -> (r: usize)
    requires
        holders > 0,
    ensures
        r == holders - 1,
{
    holders - 1
}

} // verus!
