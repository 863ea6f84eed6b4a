//! A fixed-size pool of connection handles. The pool itself only decides
//! which handle to lend and take back; whatever I/O a handle stands for
//! happens elsewhere.

use vstd::prelude::*;

verus! {

/// One pooled connection handle.
#[derive(Debug, Clone, Copy, PartialEq, Eq, Structural)]
pub struct Connection {
    pub id: usize,
}

/// A pool of `connections.len()` handles, of which the first `available`
/// are free.
#[derive(Debug)]
pub struct ConnectionPool {
    pub connections: Vec<Connection>,
    pub available: usize,
}

impl ConnectionPool {
    /// The free count never exceeds the pool size.
    pub open spec fn wf(&self) -> bool {
        self.available <= self.connections@.len()
    }

    /// A pool of `size` handles, numbered from one, all free.
    pub fn new(size: usize) -> (r: ConnectionPool)
        ensures
            r.wf(),
            r.connections@.len() == size,
            r.available == size,
            forall|k: int| 0 <= k < size ==> (#[trigger] r.connections@[k]).id == k + 1,
    {
        let mut connections: Vec<Connection> = Vec::new();
        let mut i: usize = 0;
        while i < size
            invariant
                i <= size,
                connections@.len() == i,
                forall|k: int| 0 <= k < i ==> (#[trigger] connections@[k]).id == k + 1,
            decreases size - i,
        {
            connections.push(Connection { id: i + 1 });
            i = i + 1;
        }
        ConnectionPool { connections, available: size }
    }

    /// Lends the last free handle, or `None` when all are out.
    pub fn get_connection(&mut self) -> (r: Option<Connection>)
        requires
            old(self).wf(),
        ensures
            final(self).wf(),
            final(self).connections@ == old(self).connections@,
            old(self).available == 0 ==> r is None && final(self).available == 0,
            old(self).available > 0 ==> (r == Some(
                old(self).connections@[old(self).available - 1],
            ) && final(self).available == old(self).available - 1),
    {
        if self.available > 0 {
            self.available = self.available - 1;
            Some(self.connections[self.available])
        } else {
            None
        }
    }

    /// Takes a handle back, up to the pool's size.
    pub fn return_connection(&mut self, _conn: Connection)
        requires
            old(self).wf(),
        ensures
            final(self).wf(),
            final(self).connections@ == old(self).connections@,
            old(self).available < old(self).connections@.len() ==> final(self).available
                == old(self).available + 1,
            old(self).available >= old(self).connections@.len() ==> final(self).available
                == old(self).available,
    {
        if self.available < self.connections.len() {
            self.available = self.available + 1;
        }
    }
}

} // verus!
