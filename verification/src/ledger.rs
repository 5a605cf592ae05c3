use crate::error::BpmError;
use vstd::prelude::*;

verus! {

/// One buffer that is out on loan: where it lies and how long it is.
#[derive(Clone, Copy, Debug)]
struct Lease {
    /// Address of the buffer's first byte; never zero.
    address: usize,
    /// Length of the buffer in bytes.
    length: usize,
}

/// No lease has the null address, and no address is leased twice.
spec fn leases_wf(leases: Seq<Lease>) -> bool {
    &&& forall|i: int| 0 <= i < leases.len() ==> (#[trigger] leases[i]).address != 0
    &&& forall|i: int, j: int|
        0 <= i < j < leases.len() ==> (#[trigger] leases[i]).address != (#[trigger] leases[j]).address
}

/// Whether `address` is the address of one of `leases`.
spec fn leased(leases: Seq<Lease>, address: usize) -> bool {
    exists|i: int| 0 <= i < leases.len() && (#[trigger] leases[i]).address == address
}

/// The position of the lease of `address` in `leases`.
spec fn lease_position(leases: Seq<Lease>, address: usize) -> int {
    choose|i: int| 0 <= i < leases.len() && (#[trigger] leases[i]).address == address
}

/// The buffers on loan, as a map from address to length.
spec fn on_loan(leases: Seq<Lease>) -> Map<usize, usize> {
    Map::new(
        |address: usize| leased(leases, address),
        |address: usize| leases[lease_position(leases, address)].length,
    )
}

/// The lease at position `i` is on loan with its own length.
proof fn lemma_lease_at(leases: Seq<Lease>, i: int)
    requires
        leases_wf(leases),
        0 <= i < leases.len(),
    ensures
        leased(leases, leases[i].address),
        lease_position(leases, leases[i].address) == i,
        on_loan(leases).dom().contains(leases[i].address),
        on_loan(leases)[leases[i].address] == leases[i].length,
{
    let p = lease_position(leases, leases[i].address);
    assert(leases[p].address == leases[i].address);
}

/// Appending a lease of a new address adds it to the loans.
proof fn lemma_push(leases: Seq<Lease>, lease: Lease)
    requires
        leases_wf(leases),
        lease.address != 0,
        !leased(leases, lease.address),
    ensures
        leases_wf(leases.push(lease)),
        on_loan(leases.push(lease)) == on_loan(leases).insert(lease.address, lease.length),
{
    let more = leases.push(lease);
    assert forall|a: usize| leased(more, a) <==> (a == lease.address || leased(leases, a)) by {
        if leased(more, a) {
            let p = lease_position(more, a);
            assert(p < leases.len() ==> leases[p].address == a);
        }
        if a == lease.address {
            assert(more[leases.len() as int].address == a);
        }
        if leased(leases, a) {
            assert(more[lease_position(leases, a)].address == a);
        }
    }
    assert forall|a: usize| leased(more, a) implies #[trigger] on_loan(more)[a] == on_loan(
        leases,
    ).insert(lease.address, lease.length)[a] by {
        if a == lease.address {
            lemma_lease_at(more, leases.len() as int);
        } else {
            let p = lease_position(leases, a);
            assert(more[p] == leases[p]);
            lemma_lease_at(more, p);
        }
    }
}

/// Giving the lease at `i` another length changes that loan's length only.
proof fn lemma_update(leases: Seq<Lease>, i: int, length: usize)
    requires
        leases_wf(leases),
        0 <= i < leases.len(),
    ensures
        leases_wf(leases.update(i, Lease { address: leases[i].address, length })),
        on_loan(leases.update(i, Lease { address: leases[i].address, length })) == on_loan(
            leases,
        ).insert(leases[i].address, length),
{
    let other = leases.update(i, Lease { address: leases[i].address, length });
    assert forall|j: int| 0 <= j < other.len() implies (#[trigger] other[j]).address
        == leases[j].address by {}
    assert forall|a: usize| leased(other, a) <==> leased(leases, a) by {
        if leased(other, a) {
            assert(leases[lease_position(other, a)].address == a);
        }
        if leased(leases, a) {
            assert(other[lease_position(leases, a)].address == a);
        }
    }
    assert forall|a: usize| leased(other, a) implies #[trigger] on_loan(other)[a] == on_loan(
        leases,
    ).insert(leases[i].address, length)[a] by {
        let p = lease_position(leases, a);
        lemma_lease_at(leases, p);
        assert(other[p].address == a);
        lemma_lease_at(other, p);
    }
}

/// Where the lease at position `j` stood before the lease at `i` was taken out.
spec fn position_before(i: int, j: int) -> int {
    if j < i {
        j
    } else {
        j + 1
    }
}

/// Taking the lease at `i` out ends that loan and no other.
proof fn lemma_remove(leases: Seq<Lease>, i: int)
    requires
        leases_wf(leases),
        0 <= i < leases.len(),
    ensures
        leases_wf(leases.remove(i)),
        on_loan(leases.remove(i)) == on_loan(leases).remove(leases[i].address),
{
    let fewer = leases.remove(i);
    let gone = leases[i].address;
    assert forall|j: int| 0 <= j < fewer.len() implies #[trigger] fewer[j] == leases[position_before(
        i,
        j,
    )] by {}
    assert forall|a: usize| leased(fewer, a) <==> (leased(leases, a) && a != gone) by {
        if leased(fewer, a) {
            let p = position_before(i, lease_position(fewer, a));
            assert(leases[p].address == a);
        }
        if leased(leases, a) && a != gone {
            let p = lease_position(leases, a);
            let q = if p < i { p } else { p - 1 };
            assert(fewer[q] == leases[p]);
        }
    }
    assert forall|a: usize| leased(fewer, a) implies #[trigger] on_loan(fewer)[a] == on_loan(
        leases,
    ).remove(gone)[a] by {
        let p = lease_position(leases, a);
        lemma_lease_at(leases, p);
        let q = if p < i { p } else { p - 1 };
        assert(fewer[q] == leases[p]);
        lemma_lease_at(fewer, q);
    }
}

/// What lending the buffer at `address` does to the loans, and whether it
/// is accepted: the null address is refused; any other address is on loan
/// afterwards, with the length given.
pub open spec fn lend_spec(loans: Map<usize, usize>, address: usize, length: usize) -> (
    Map<usize, usize>,
    Result<(), BpmError>,
) {
    if address == 0 {
        (loans, Err(BpmError::NullPointer))
    } else {
        (loans.insert(address, length), Ok(()))
    }
}

/// What releasing the buffer at `address` does to the loans, and what it
/// returns: the null address is refused, and so is an address that is not
/// on loan; a buffer on loan comes back with its length and is on loan no
/// longer.
pub open spec fn release_spec(loans: Map<usize, usize>, address: usize) -> (
    Map<usize, usize>,
    Result<usize, BpmError>,
) {
    if address == 0 {
        (loans, Err(BpmError::NullPointer))
    } else if !loans.dom().contains(address) {
        (loans, Err(BpmError::DoubleRelease))
    } else {
        (loans.remove(address), Ok(loans[address]))
    }
}

/// A buffer can be released once: right after a release that succeeded,
/// releasing the same address again is refused with `DoubleRelease`, and it
/// changes nothing.
pub proof fn law_release_once(loans: Map<usize, usize>, address: usize)
    requires
        release_spec(loans, address).1 is Ok,
    ensures
        release_spec(release_spec(loans, address).0, address) == (
            release_spec(loans, address).0,
            Err::<usize, BpmError>(BpmError::DoubleRelease),
        ),
{
}

/// A buffer that was lent can be released, and comes back with the length
/// it was lent with; the loans are then what they were before, where the
/// address was not on loan already.
pub proof fn law_lend_then_release(loans: Map<usize, usize>, address: usize, length: usize)
    requires
        address != 0,
    ensures
        release_spec(lend_spec(loans, address, length).0, address).1 == Ok::<usize, BpmError>(length),
        !loans.dom().contains(address) ==> release_spec(lend_spec(loans, address, length).0, address).0
            == loans,
{
}

/// The buffers that were handed to the caller and have not come back.
///
/// The ledger holds no buffer. It records which addresses are on loan, so
/// that a release can be checked before any memory is touched. No address
/// in it is null, and none stands in it twice.
#[derive(Debug)]
pub struct BufferLedger {
    leases: Vec<Lease>,
}

impl View for BufferLedger {
    type V = Map<usize, usize>;

    closed spec fn view(&self) -> Map<usize, usize> {
        on_loan(self.leases@)
    }
}

impl BufferLedger {
    /// What holds of every ledger.
    #[verifier::type_invariant]
    closed spec fn wf(&self) -> bool {
        leases_wf(self.leases@)
    }

    /// A ledger with nothing on loan.
    pub fn new() -> (ledger: BufferLedger)
        ensures
            ledger@ == Map::<usize, usize>::empty(),
    {
        BufferLedger { leases: Vec::new() }
    }

    /// The position of the lease of `address`, if it is on loan.
    fn find(&self, address: usize) -> (found: Option<usize>)
        ensures
            match found {
                Some(i) => i < self.leases@.len() && self.leases@[i as int].address == address,
                None => !leased(self.leases@, address),
            },
    {
        let mut i: usize = 0;
        while i < self.leases.len()
            invariant
                i <= self.leases@.len(),
                forall|j: int| 0 <= j < i ==> (#[trigger] self.leases@[j]).address != address,
            decreases self.leases@.len() - i,
        {
            if self.leases[i].address == address {
                return Some(i);
            }
            i = i + 1;
        }
        None
    }

    /// Whether the buffer at `address` is on loan.
    pub fn is_on_loan(&self, address: usize) -> (b: bool)
        ensures
            b == self@.dom().contains(address),
    {
        match self.find(address) {
            Some(i) => {
                proof {
                    use_type_invariant(self);
                    lemma_lease_at(self.leases@, i as int);
                }
                true
            },
            None => false,
        }
    }

    /// Records that the buffer of `length` bytes at `address` goes out on
    /// loan. The null address is refused with `NullPointer`.
    pub fn lend(&mut self, address: usize, length: usize) -> (r: Result<(), BpmError>)
        ensures
            (final(self)@, r) == lend_spec(old(self)@, address, length),
    {
        if address == 0 {
            return Err(BpmError::NullPointer);
        }
        let found = self.find(address);
        // The list is taken out, changed and put back, so that the ledger
        // is never seen with a list half changed.
        let mut taken = BufferLedger::new();
        core::mem::swap(self, &mut taken);
        proof {
            use_type_invariant(&taken);
        }
        let BufferLedger { mut leases } = taken;
        match found {
            Some(i) => {
                proof {
                    lemma_update(leases@, i as int, length);
                }
                leases[i] = Lease { address, length };
            },
            None => {
                proof {
                    lemma_push(leases@, Lease { address, length });
                }
                leases.push(Lease { address, length });
            },
        }
        *self = BufferLedger { leases };
        Ok(())
    }

    /// Takes the buffer at `address` back and returns its length.
    ///
    /// The null address is refused with `NullPointer`. An address that is
    /// not on loan, because it was released before or was never lent, is
    /// refused with `DoubleRelease`. A refusal changes nothing.
    pub fn release(&mut self, address: usize) -> (r: Result<usize, BpmError>)
        ensures
            (final(self)@, r) == release_spec(old(self)@, address),
    {
        if address == 0 {
            return Err(BpmError::NullPointer);
        }
        let i = match self.find(address) {
            Some(i) => i,
            None => {
                return Err(BpmError::DoubleRelease);
            },
        };
        let mut taken = BufferLedger::new();
        core::mem::swap(self, &mut taken);
        proof {
            use_type_invariant(&taken);
        }
        let BufferLedger { mut leases } = taken;
        proof {
            lemma_lease_at(leases@, i as int);
            lemma_remove(leases@, i as int);
        }
        let lease = leases.remove(i);
        *self = BufferLedger { leases };
        Ok(lease.length)
    }
}

} // verus!
