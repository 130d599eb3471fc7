//! Accept list (white list) filtering for advertising and scanning.
use vstd::prelude::*;

use crate::bytes::bytes_eq;
use crate::ll::addr::AddrType;

verus! {

/// Maximum number of accept list entries.
pub const ACCEPT_LIST_MAX: usize = 8;

/// Abstract accept list entry: the address type and the six address bytes.
pub type AcceptEntry = (AddrType, Seq<u8>);

/// A fixed-size accept list of (address, type) pairs.
#[derive(Debug, Clone, Copy, PartialEq, Eq)]
pub struct AcceptList {
    entries: [(AddrType, [u8; 6]); ACCEPT_LIST_MAX],
    len: usize,
}

/// No entry occurs twice.
pub open spec fn no_duplicates(s: Seq<AcceptEntry>) -> bool {
    forall|i: int, j: int| 0 <= i < j < s.len() ==> s[i] != s[j]
}

impl View for AcceptList {
    type V = Seq<AcceptEntry>;

    /// The entries in insertion order.
    closed spec fn view(&self) -> Seq<AcceptEntry> {
        self.entries@.take(self.len as int).map_values(|e: (AddrType, [u8; 6])| (e.0, e.1@))
    }
}

impl Default for AcceptList {
    fn default() -> (r: Self)
        ensures
            r@ == Seq::<AcceptEntry>::empty(),
    {
        Self::new()
    }
}

impl AcceptList {
    #[verifier::type_invariant]
    spec fn wf(self) -> bool {
        &&& self.len <= ACCEPT_LIST_MAX
        &&& no_duplicates(
            self.entries@.take(self.len as int).map_values(
                |e: (AddrType, [u8; 6])| (e.0, e.1@),
            ),
        )
    }

    /// Create an empty list.
    pub fn new() -> (r: Self)
        ensures
            r@ == Seq::<AcceptEntry>::empty(),
    {
        let r = AcceptList { entries: [(AddrType::Public, [0u8; 6]); ACCEPT_LIST_MAX], len: 0 };
        assert(r@ =~= Seq::<AcceptEntry>::empty());
        r
    }

    /// Remove all entries.
    pub fn clear(&mut self)
        ensures
            final(self)@ == Seq::<AcceptEntry>::empty(),
    {
        self.len = 0;
        assert(self@ =~= Seq::<AcceptEntry>::empty());
    }

    /// Add an entry; returns `false` when full or already present.
    pub fn add(&mut self, addr: [u8; 6], addr_type: AddrType) -> (added: bool)
        ensures
            added == (old(self)@.len() < ACCEPT_LIST_MAX && !old(self)@.contains(
                (addr_type, addr@),
            )),
            final(self)@ == if added {
                old(self)@.push((addr_type, addr@))
            } else {
                old(self)@
            },
            final(self)@.len() <= ACCEPT_LIST_MAX,
            no_duplicates(final(self)@),
    {
        proof {
            use_type_invariant(&*self);
        }
        if self.len >= ACCEPT_LIST_MAX || self.contains(addr, addr_type) {
            proof {
                use_type_invariant(&*self);
            }
            return false;
        }
        let ghost before = self@;
        let n = self.len;
        let mut entries = self.entries;
        entries[n] = (addr_type, addr);
        let ghost after = entries@.take(n + 1).map_values(|e: (AddrType, [u8; 6])| (e.0, e.1@));
        assert(after =~= before.push((addr_type, addr@)));
        assert(no_duplicates(after)) by {
            assert forall|i: int, j: int| 0 <= i < j < after.len() implies after[i] != after[j] by {
                if j == n {
                    assert(before.contains(after[i]));
                }
            }
        }
        *self = AcceptList { entries, len: n + 1 };
        assert(self@ =~= before.push((addr_type, addr@)));
        true
    }

    /// Number of entries.
    pub fn len(&self) -> (n: usize)
        ensures
            n == self@.len(),
            n <= ACCEPT_LIST_MAX,
    {
        proof {
            use_type_invariant(self);
        }
        self.len
    }

    /// True when the list is empty.
    pub fn is_empty(&self) -> (r: bool)
        ensures
            r == (self@.len() == 0),
    {
        proof {
            use_type_invariant(self);
        }
        self.len == 0
    }

    /// True when the (address, type) pair is in the list.
    pub fn contains(&self, addr: [u8; 6], addr_type: AddrType) -> (r: bool)
        ensures
            r == self@.contains((addr_type, addr@)),
    {
        proof {
            use_type_invariant(self);
        }
        let mut i: usize = 0;
        while i < self.len
            invariant
                self.len <= ACCEPT_LIST_MAX,
                i <= self.len,
                forall|j: int| 0 <= j < i ==> self@[j] != (addr_type, addr@),
            decreases self.len - i,
        {
            let e = self.entries[i];
            if e.0 == addr_type && bytes_eq(e.1.as_slice(), addr.as_slice()) {
                assert(self@[i as int] == (addr_type, addr@));
                return true;
            }
            assert(self@[i as int] == (e.0, e.1@));
            i += 1;
        }
        assert(!self@.contains((addr_type, addr@)));
        false
    }

    /// All entries as a slice.
    pub fn entries(&self) -> (r: &[(AddrType, [u8; 6])])
        ensures
            r@.map_values(|e: (AddrType, [u8; 6])| (e.0, e.1@)) == self@,
    {
        proof {
            use_type_invariant(self);
        }
        let r = &self.entries[0..self.len];
        assert(r@ =~= self.entries@.take(self.len as int));
        r
    }
}

} // verus!
