//! Scheduler-owned socket primitive consumed by the runtime's tasks.
//!
//! Tasks talk to their clients only through stream objects that the
//! cooperative scheduler owns. Here the stream is held as explicit state —
//! the bytes the peer has taken so far, and the point at which the peer
//! stops taking more — so everything written through it is verified; the
//! platform layer binds the same operation to a real TCP stream.

use vstd::prelude::*;

verus! {

/// Outcome of a failed stream operation. The runtime treats any write
/// failure the same way: the current dump is abandoned and the connection
/// dropped.
#[derive(Clone, Copy, PartialEq, Eq, Structural, Debug)]
pub enum IoError {
    ConnectionLost,
}

/// One accepted client connection.
///
/// `sent` is everything the peer has accepted so far. `limit`, when set,
/// is the total number of bytes the peer will accept before failing —
/// the model of a peer that goes away mid-transfer. `None` is a healthy
/// peer.
pub struct Connection {
    pub sent: Vec<u8>,
    pub limit: Option<usize>,
}

impl Connection {
    /// The peer accepts `n` more bytes in this state.
    pub open spec fn accepts(self, n: int) -> bool {
        match self.limit {
            Option::None => true,
            Option::Some(l) => self.sent@.len() + n <= l,
        }
    }

    /// A healthy connection that accepts everything.
    pub fn new() -> (r: Connection)
        ensures
            r.sent@ =~= Seq::<u8>::empty(),
            r.limit is None,
    {
        Connection { sent: Vec::new(), limit: None }
    }

    /// A connection whose peer fails once more than `limit` bytes in total
    /// have been pushed at it.
    pub fn with_limit(limit: usize) -> (r: Connection)
        ensures
            r.sent@ =~= Seq::<u8>::empty(),
            r.limit == Some(limit),
    {
        Connection { sent: Vec::new(), limit: Some(limit) }
    }

    /// One write. It succeeds, delivering every byte, exactly when the peer
    /// still accepts that many; a failed write delivers nothing.
    pub fn write(&mut self, data: &[u8]) -> (r: Result<(), IoError>)
        ensures
            old(self).accepts(data@.len() as int) ==> {
                &&& r is Ok
                &&& final(self).sent@ == old(self).sent@ + data@
            },
            !old(self).accepts(data@.len() as int) ==> {
                &&& r == Err::<(), IoError>(IoError::ConnectionLost)
                &&& final(self).sent == old(self).sent
            },
            final(self).limit == old(self).limit,
    {
        let accepted: bool = match self.limit {
            None => true,
            Some(l) => data.len() <= l && self.sent.len() <= l - data.len(),
        };
        if accepted {
            self.sent.extend_from_slice(data);
            Ok(())
        } else {
            Err(IoError::ConnectionLost)
        }
    }
}

} // verus!
