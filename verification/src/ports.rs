//! Port selection for new instances.  The scan enumerates candidate ports; the
//! caller tries to bind each candidate and keeps the first that succeeds, so
//! the choice stays advisory: it avoids the ports this tool has already handed
//! out, not arbitrary third-party listeners.

use vstd::prelude::*;

use crate::ledger::StateManager;

verus! {

/// The port the scan starts from when the ledger records nothing higher.
pub const DEFAULT_POSTGRES_PORT: u16 = 5432;

/// How many consecutive ports the scan may try before giving up.
pub const PORT_SEARCH_RANGE: u16 = 100;

/// A bounded scan over candidate host ports.  Starting at the highest port
/// the ledger records (or the default, whichever is larger), it walks a
/// window of consecutive ports, skipping every port the ledger has already
/// handed out, and stops at the end of the window.
pub struct PortScan {
    /// Ports the ledger records; never offered as candidates.
    pub taken: Vec<u16>,
    /// The next port the scan will consider.
    pub next: u32,
    /// One past the last port of the window.
    pub end: u32,
}

impl PortScan {
    /// The candidate window keeps to `u16` ports and the scan stays inside it.
    pub open spec fn wf(self) -> bool {
        self.next <= self.end <= 0x1_0000
    }

    /// Sets up the scan for a ledger: the window starts at the highest
    /// recorded port or the default, whichever is larger, and covers the
    /// search range, clipped to valid port numbers.
    pub fn new(ledger: &StateManager) -> (r: PortScan)
        requires
            ledger.wf(),
        ensures
            r.wf(),
            ledger@ == Map::<Seq<char>, crate::ledger::InstanceView>::empty() ==> r.next
                == DEFAULT_POSTGRES_PORT,
            r.next >= DEFAULT_POSTGRES_PORT,
            forall|k: Seq<char>|
                #[trigger] ledger@.dom().contains(k) ==> ledger@[k].port <= r.next,
            r.end == if r.next + PORT_SEARCH_RANGE <= 0x1_0000 {
                r.next + PORT_SEARCH_RANGE
            } else {
                0x1_0000
            },
            forall|p: u16|
                #[trigger] r.taken@.contains(p) <==> exists|k: Seq<char>|
                    #[trigger] ledger@.dom().contains(k) && ledger@[k].port == p,
    {
        let highest = ledger.get_highest_used_port();
        let start: u32 = match highest {
            Some(p) => if p > DEFAULT_POSTGRES_PORT {
                p as u32
            } else {
                DEFAULT_POSTGRES_PORT as u32
            },
            None => DEFAULT_POSTGRES_PORT as u32,
        };
        let end: u32 = if start + PORT_SEARCH_RANGE as u32 <= 0x1_0000 {
            start + PORT_SEARCH_RANGE as u32
        } else {
            0x1_0000
        };
        PortScan { taken: ledger.ports(), next: start, end }
    }

    /// The next port worth trying: the lowest port of the remaining window
    /// that the ledger has not handed out.  Returns nothing once the window
    /// is exhausted; the scan then stays exhausted.
    pub fn next_candidate(&mut self) -> (r: Option<u16>)
        requires
            old(self).wf(),
        ensures
            final(self).wf(),
            final(self).taken == old(self).taken,
            final(self).end == old(self).end,
            match r {
                Some(p) => {
                    &&& old(self).next <= p < old(self).end
                    &&& !old(self).taken@.contains(p)
                    &&& forall|q: u16|
                        old(self).next <= q < p ==> old(self).taken@.contains(q)
                    &&& final(self).next == p + 1
                },
                None => {
                    &&& forall|q: u16|
                        old(self).next <= q < old(self).end ==> old(self).taken@.contains(q)
                    &&& final(self).next == old(self).end
                },
            },
    {
        while self.next < self.end
            invariant
                self.wf(),
                old(self).next <= self.next,
                self.end == old(self).end,
                self.taken == old(self).taken,
                forall|q: u16| old(self).next <= q < self.next ==> self.taken@.contains(q),
            decreases self.end - self.next,
        {
            let p = self.next as u16;
            if !vec_contains_u16(&self.taken, p) {
                self.next = self.next + 1;
                return Some(p);
            }
            self.next = self.next + 1;
        }
        None
    }
}

/// Linear membership test over a port list.
fn vec_contains_u16(v: &Vec<u16>, x: u16) -> (r: bool)
    ensures
        r == v@.contains(x),
{
    let n = v.len();
    let mut i: usize = 0;
    while i < n
        invariant
            i <= n,
            n == v@.len(),
            forall|j: int| 0 <= j < i ==> v@[j] != x,
        decreases n - i,
    {
        if v[i] == x {
            return true;
        }
        i += 1;
    }
    false
}

} // verus!
