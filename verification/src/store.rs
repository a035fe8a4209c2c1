//! The identity store: one record per address, and the address of the
//! store's owner.

use vstd::prelude::*;
use crate::state::{Identity, IdentityView};
use crate::text::same_bytes;
use vstd::slice::slice_to_vec;

verus! {

/// What the store is to the contracts: the owner's address and the record
/// held under each address.
pub struct StoreModel {
    pub owner: Seq<u8>,
    pub identities: Map<Seq<u8>, IdentityView>,
}

impl StoreModel {
    /// Every record is held under its own address.
    pub open spec fn keyed_by_address(self) -> bool {
        forall|address: Seq<u8>| #[trigger]
            self.identities.contains_key(address) ==> self.identities[address].address == address
    }

    /// Every record meets the invariant of identity records.
    pub open spec fn wf(self) -> bool {
        &&& self.keyed_by_address()
        &&& forall|address: Seq<u8>| #[trigger]
            self.identities.contains_key(address) ==> self.identities[address].wf()
    }
}

/// A store whose records are well formed stays so when the record under
/// `address` gives way to a well-formed record with the same address.
pub proof fn save_keeps_wf(store: StoreModel, address: Seq<u8>, next: IdentityView)
    requires
        store.wf(),
        next.wf(),
        next.address == address,
    ensures
        (StoreModel { identities: store.identities.insert(address, next), ..store }).wf(),
{
    let after = StoreModel { identities: store.identities.insert(address, next), ..store };
    assert forall|a: Seq<u8>| #[trigger]
        after.identities.contains_key(a) implies after.identities[a].address == a
        && after.identities[a].wf() by {
        if a != address {
            assert(store.identities.contains_key(a));
        }
    }
}

/// Identity records, found by address.
#[derive(Debug)]
pub struct IdentityStore {
    owner: Vec<u8>,
    records: Vec<Identity>,
}

/// Whether `i` is the first place in `records` that holds `address`.
spec fn first_at(records: Seq<IdentityView>, address: Seq<u8>, i: int) -> bool {
    &&& 0 <= i < records.len()
    &&& records[i].address == address
    &&& forall|j: int| 0 <= j < i ==> (#[trigger] records[j]).address != address
}

/// Whether some place in `records` holds `address`.
spec fn held(records: Seq<IdentityView>, address: Seq<u8>) -> bool {
    exists|i: int| first_at(records, address, i)
}

/// The record found under each address: the first that holds it.
spec fn by_address(records: Seq<IdentityView>) -> Map<Seq<u8>, IdentityView> {
    Map::new(
        |address: Seq<u8>| held(records, address),
        |address: Seq<u8>| records[choose|i: int| first_at(records, address, i)],
    )
}

impl IdentityStore {
    spec fn record_views(&self) -> Seq<IdentityView> {
        self.records@.map_values(|r: Identity| r@)
    }

    fn position(&self, address: &[u8]) -> (found: Option<usize>)
        ensures
            match found {
                Some(i) => first_at(self.record_views(), address@, i as int),
                None => forall|j: int|
                    0 <= j < self.record_views().len() ==> (
                    #[trigger] self.record_views()[j]).address != address@,
            },
    {
        let mut i: usize = 0;
        while i < self.records.len()
            invariant
                i <= self.records.len(),
                forall|j: int|
                    0 <= j < i ==> (#[trigger] self.record_views()[j]).address != address@,
            decreases self.records.len() - i,
        {
            if same_bytes(self.records[i].address.as_slice(), address) {
                return Some(i);
            }
            i = i + 1;
        }
        None
    }

    /// Whatever was saved, each record is found under its own address.
    pub proof fn lemma_keyed_by_address(&self)
        ensures
            self@.keyed_by_address(),
    {
        let records = self.record_views();
        assert forall|address: Seq<u8>| #[trigger]
            self@.identities.contains_key(address) implies self@.identities[address].address
            == address by {
            let i = choose|i: int| first_at(records, address, i);
            assert(first_at(records, address, i));
        }
    }

    /// An empty store that belongs to `owner`.
    pub fn new(owner: &[u8]) -> (store: IdentityStore)
        ensures
            store@ == (StoreModel { owner: owner@, identities: Map::empty() }),
    {
        let store = IdentityStore { owner: slice_to_vec(owner), records: Vec::new() };
        assert(store@.identities =~= Map::empty());
        store
    }

    /// The address of the store's owner.
    pub fn owner(&self) -> (owner: &Vec<u8>)
        ensures
            owner@ == self@.owner,
    {
        &self.owner
    }

    /// Whether a record is held under `address`.
    pub fn has(&self, address: &[u8]) -> (present: bool)
        ensures
            present == self@.identities.contains_key(address@),
    {
        self.position(address).is_some()
    }

    /// The record held under `address`, if there is one.
    pub fn load(&self, address: &[u8]) -> (found: Option<&Identity>)
        ensures
            match found {
                Some(identity) => self@.identities.contains_key(address@)
                    && self@.identities[address@] == identity@ && identity@.address == address@,
                None => !self@.identities.contains_key(address@),
            },
    {
        match self.position(address) {
            Some(i) => Some(&self.records[i]),
            None => None,
        }
    }

    /// Holds `identity` under its address from now on, in place of the
    /// record that was held there, if any. Other records stay as they are.
    ///
    /// This is how a record that was kept elsewhere comes back into the
    /// store: nobody is asked for a key here, and the record is taken as
    /// it is.
    pub fn save(&mut self, identity: Identity)
        ensures
            final(self)@ == (StoreModel {
                owner: old(self)@.owner,
                identities: old(self)@.identities.insert(identity@.address, identity@),
            }),
            old(self)@.wf() && identity@.wf() ==> final(self)@.wf(),
    {
        proof {
            self.lemma_keyed_by_address();
            if self@.wf() && identity@.wf() {
                save_keeps_wf(self@, identity@.address, identity@);
            }
        }
        let ghost before = self.record_views();
        let ghost saved = identity@;
        match self.position(identity.address.as_slice()) {
            Some(i) => {
                self.records[i] = identity;
                proof {
                    let after = self.record_views();
                    assert(after =~= before.update(i as int, saved));
                    lemma_replaced(before, i as int, saved);
                    assert(by_address(after) =~= by_address(before).insert(saved.address, saved));
                }
            },
            None => {
                self.records.push(identity);
                proof {
                    let after = self.record_views();
                    assert(after =~= before.push(saved));
                    lemma_appended(before, saved);
                    assert(by_address(after) =~= by_address(before).insert(saved.address, saved));
                }
            },
        }
    }
}

/// Putting a record in the place of one with the same address moves no
/// address: each is first held where it was.
proof fn lemma_replaced(records: Seq<IdentityView>, i: int, saved: IdentityView)
    requires
        first_at(records, saved.address, i),
    ensures
        forall|address: Seq<u8>, j: int|
            first_at(records, address, j) == first_at(records.update(i, saved), address, j),
        forall|address: Seq<u8>| held(records, address) == held(records.update(i, saved), address),
{
    let after = records.update(i, saved);
    assert forall|address: Seq<u8>, j: int|
        first_at(records, address, j) == first_at(after, address, j) by {
        assert forall|k: int| 0 <= k < records.len() implies (#[trigger] after[k]).address
            == records[k].address by {}
        if first_at(records, address, j) {
            assert forall|k: int| 0 <= k < j implies (#[trigger] after[k]).address != address by {
                assert(records[k].address != address);
            }
        }
        if first_at(after, address, j) {
            assert forall|k: int| 0 <= k < j implies (#[trigger] records[k]).address != address by {
                assert(after[k].address != address);
            }
        }
    }
    assert forall|address: Seq<u8>| held(records, address) == held(after, address) by {
        if held(records, address) {
            let j = choose|j: int| first_at(records, address, j);
            assert(first_at(after, address, j));
        }
        if held(after, address) {
            let j = choose|j: int| first_at(after, address, j);
            assert(first_at(records, address, j));
        }
    }
}

/// Appending a record with an address that is not held yet puts that
/// address last and moves no other.
proof fn lemma_appended(records: Seq<IdentityView>, saved: IdentityView)
    requires
        forall|k: int| 0 <= k < records.len() ==> (#[trigger] records[k]).address != saved.address,
    ensures
        first_at(records.push(saved), saved.address, records.len() as int),
        forall|address: Seq<u8>, j: int|
            address != saved.address ==> first_at(records, address, j) == first_at(
                records.push(saved),
                address,
                j,
            ),
        forall|address: Seq<u8>|
            held(records.push(saved), address) == (held(records, address) || address
                == saved.address),
{
    let after = records.push(saved);
    assert forall|k: int| 0 <= k < records.len() implies (#[trigger] after[k]).address
        != saved.address by {
        assert(records[k].address != saved.address);
    }
    assert forall|address: Seq<u8>, j: int| address != saved.address implies first_at(
        records,
        address,
        j,
    ) == first_at(after, address, j) by {
        if first_at(records, address, j) {
            assert forall|k: int| 0 <= k < j implies (#[trigger] after[k]).address != address by {
                assert(records[k].address != address);
            }
        }
        if first_at(after, address, j) {
            assert forall|k: int| 0 <= k < j implies (#[trigger] records[k]).address != address by {
                assert(after[k].address != address);
            }
        }
    }
    assert(first_at(after, saved.address, records.len() as int));
    assert forall|address: Seq<u8>| held(after, address) == (held(records, address) || address
        == saved.address) by {
        if held(records, address) {
            let j = choose|j: int| first_at(records, address, j);
            assert(first_at(after, address, j));
        }
        if held(after, address) && address != saved.address {
            let j = choose|j: int| first_at(after, address, j);
            assert(first_at(records, address, j));
        }
    }
}

impl View for IdentityStore {
    type V = StoreModel;

    closed spec fn view(&self) -> StoreModel {
        StoreModel { owner: self.owner@, identities: by_address(self.record_views()) }
    }
}

} // verus!
