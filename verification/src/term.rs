//! Cross-BBS terminal I/O: which connection a door talks over, and what its system
//! calls come to.
//!
//! The door talks to the caller over whatever the BBS provides (an inherited
//! socket named in DOOR32.SYS, or stdio) instead of assuming a local console.
//!
//! Reads are non-blocking (the input loop drains what is there each frame). Writes
//! block-with-backpressure by retrying on a full send buffer, so that throttles the
//! door (which `LinkPace` then measures) instead of erroring.

use crate::door32;
use crate::door32::Door32;
use vstd::prelude::*;

verus! {

/// The caller connection.
#[derive(Clone, Copy, PartialEq, Eq, Debug, Structural)]
pub enum Connection {
    /// The inherited handle (a file descriptor on unix, a SOCKET on Windows).
    Socket(u64),
    Stdio,
}

/// The connection of a dropfile.
pub open spec fn connection_of(door: Option<Door32>) -> Connection {
    match door {
        Some(d) => match door32::socket_of(d@) {
            Some(handle) => Connection::Socket(handle),
            None => Connection::Stdio,
        },
        None => Connection::Stdio,
    }
}

/// Choose the terminal: the inherited socket if the dropfile carries one (type 2),
/// otherwise stdio.
pub fn open(door: &Option<Door32>) -> (r: Connection)
    ensures
        r == connection_of(*door),
{
    match door {
        Some(d) => match d.socket() {
            Some(handle) => Connection::Socket(handle),
            None => Connection::Stdio,
        },
        None => Connection::Stdio,
    }
}

/// Why a system call failed.
#[derive(Clone, Copy, PartialEq, Eq, Debug, Structural)]
pub enum Fault {
    /// Nothing to read, or no room to write.
    WouldBlock,
    Interrupted,
    Other,
}

/// What a read comes to.
#[derive(Clone, Copy, PartialEq, Eq, Debug, Structural)]
pub enum ReadOutcome {
    /// This many bytes.
    Ready(usize),
    /// Nothing now.
    Empty,
    /// The peer has closed.
    Closed,
    Failed,
}

/// What a non-blocking read of a result `n` comes to. Nothing ready is no error.
pub fn read_outcome(n: isize, fault: Fault) -> (r: ReadOutcome)
    ensures
        r == read_as(n as int, fault),
        r == (if n > 0 {
            ReadOutcome::Ready(n as usize)
        } else if n == 0 {
            ReadOutcome::Closed
        } else if fault == Fault::Other {
            ReadOutcome::Failed
        } else {
            ReadOutcome::Empty
        }),
{
    if n > 0 {
        ReadOutcome::Ready(n as usize)
    } else if n == 0 {
        ReadOutcome::Closed
    } else {
        match fault {
            Fault::WouldBlock => ReadOutcome::Empty,
            Fault::Interrupted => ReadOutcome::Empty,
            Fault::Other => ReadOutcome::Failed,
        }
    }
}

/// What a write comes to.
#[derive(Clone, Copy, PartialEq, Eq, Debug, Structural)]
pub enum WriteOutcome {
    /// This many bytes.
    Written(usize),
    /// Send buffer full: backpressure, not failure. Wait and retry.
    Wait,
    Retry,
    Failed,
}

/// What a write of a result `n` comes to.
pub fn write_outcome(n: isize, fault: Fault) -> (r: WriteOutcome)
    ensures
        r == written_as(n as int, fault),
        r == (if n >= 0 {
            WriteOutcome::Written(n as usize)
        } else {
            match fault {
                Fault::WouldBlock => WriteOutcome::Wait,
                Fault::Interrupted => WriteOutcome::Retry,
                Fault::Other => WriteOutcome::Failed,
            }
        }),
{
    if n >= 0 {
        WriteOutcome::Written(n as usize)
    } else {
        match fault {
            Fault::WouldBlock => WriteOutcome::Wait,
            Fault::Interrupted => WriteOutcome::Retry,
            Fault::Other => WriteOutcome::Failed,
        }
    }
}

/// What a read came to.
pub open spec fn read_as(n: int, fault: Fault) -> ReadOutcome {
    if n > 0 {
        ReadOutcome::Ready(n as usize)
    } else if n == 0 {
        ReadOutcome::Closed
    } else if fault == Fault::Other {
        ReadOutcome::Failed
    } else {
        ReadOutcome::Empty
    }
}

/// What a write came to.
pub open spec fn written_as(n: int, fault: Fault) -> WriteOutcome {
    if n >= 0 {
        WriteOutcome::Written(n as usize)
    } else {
        match fault {
            Fault::WouldBlock => WriteOutcome::Wait,
            Fault::Interrupted => WriteOutcome::Retry,
            Fault::Other => WriteOutcome::Failed,
        }
    }
}

/// A read of no bytes is the end of the connection; a fault that passes is no data yet.
/// A full buffer is waited for and an interruption tried again: only another fault ends
/// the session. Bytes that were read or written are counted.
pub proof fn law_faults_that_pass_end_nothing(n: int, fault: Fault)
    requires
        n <= isize::MAX,
    ensures
        read_as(n, fault) is Closed <==> n == 0,
        read_as(n, fault) is Failed <==> n < 0 && fault == Fault::Other,
        n < 0 && fault != Fault::Other ==> read_as(n, fault) is Empty,
        n > 0 ==> (read_as(n, fault) matches ReadOutcome::Ready(k) && k == n),
        n >= 0 ==> (written_as(n, fault) matches WriteOutcome::Written(k) && k == n),
        n < 0 && fault == Fault::WouldBlock ==> written_as(n, fault) is Wait,
        n < 0 && fault == Fault::Interrupted ==> written_as(n, fault) is Retry,
        written_as(n, fault) is Failed <==> n < 0 && fault == Fault::Other,
{
}

/// The connection is the socket of a telnet dropfile, and stdio in every other case.
pub proof fn law_connection(door: Option<Door32>)
    ensures
        connection_of(door) == (match door {
            Some(d) => if d.comm_type == 2 {
                Connection::Socket(d.handle)
            } else {
                Connection::Stdio
            },
            None => Connection::Stdio,
        }),
{
}

} // verus!
