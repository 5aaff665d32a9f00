//! The token registry: one record per token ever seen on this ledger, a
//! monotonically allocated identifier space, and the aggregate supply
//! counter.
//!
//! A record is never physically deleted: `Burned` is terminal and the record
//! stays as an audit trail.  The supply counter equals, at all times, the
//! number of records whose status is `Active`; a record locked for an
//! outbound transfer (`InTransit`) no longer counts toward local supply,
//! since the asset is considered gone from this ledger once locked.
//!
//! Identifier spaces: `mint_new` only issues identifiers at or above the
//! watermark `next_token_id` and advances the watermark past them, so a
//! locally issued identifier is never reused, even across burns.  Inbound
//! records keep their foreign-minted identifier as it is; if it collides
//! with an existing record, the inbound receipt overwrites that record, and
//! a later local mint of a colliding identifier is refused.

use vstd::prelude::*;
use crate::bytes_eq;
use crate::clone_bytes;
use crate::errors::BridgeError;

verus! {

/// Where a token stands in its life cycle.
#[derive(Clone, Copy, Debug, PartialEq, Eq, Structural)]
pub enum TokenStatus {
    /// The token lives on this ledger.
    Active,
    /// An outbound transfer is outstanding; the token is locked here.
    InTransit,
    /// The token was destroyed here; terminal.
    Burned,
}

/// What an outbound transfer left behind, kept while it is outstanding:
/// where the token went and the exact bytes handed to the gateway, needed
/// to validate a revert notification.
pub struct PendingTransfer {
    pub destination_chain_id: u64,
    pub destination_receiver: Vec<u8>,
    pub timestamp: u64,
    pub message: Vec<u8>,
}

/// Mathematical model of a [`PendingTransfer`].
pub ghost struct PendingModel {
    pub destination_chain_id: u64,
    pub destination_receiver: Seq<u8>,
    pub timestamp: u64,
    pub message: Seq<u8>,
}

impl View for PendingTransfer {
    type V = PendingModel;

    open spec fn view(&self) -> PendingModel {
        PendingModel {
            destination_chain_id: self.destination_chain_id,
            destination_receiver: self.destination_receiver@,
            timestamp: self.timestamp,
            message: self.message@,
        }
    }
}

/// One minted token.  Display metadata is opaque to the protocol;
/// `ledger_ref` points back at the underlying token-ledger account and is
/// owned exclusively by the registry.
pub struct TokenRecord {
    pub token_id: u64,
    pub name: Vec<u8>,
    pub symbol: Vec<u8>,
    pub uri: Vec<u8>,
    pub owner: Vec<u8>,
    pub ledger_ref: Vec<u8>,
    pub status: TokenStatus,
    pub pending_transfer: Option<PendingTransfer>,
}

/// Mathematical model of a [`TokenRecord`].
pub ghost struct RecordModel {
    pub token_id: u64,
    pub name: Seq<u8>,
    pub symbol: Seq<u8>,
    pub uri: Seq<u8>,
    pub owner: Seq<u8>,
    pub ledger_ref: Seq<u8>,
    pub status: TokenStatus,
    pub pending_transfer: Option<PendingModel>,
}

impl View for TokenRecord {
    type V = RecordModel;

    open spec fn view(&self) -> RecordModel {
        RecordModel {
            token_id: self.token_id,
            name: self.name@,
            symbol: self.symbol@,
            uri: self.uri@,
            owner: self.owner@,
            ledger_ref: self.ledger_ref@,
            status: self.status,
            pending_transfer: match self.pending_transfer {
                Some(ref p) => Some(p@),
                None => None,
            },
        }
    }
}

/// A record the registry can hold: metadata fits the wire format's length
/// prefixes, and a pending transfer is present exactly while the record is
/// in transit.
pub open spec fn record_wf(r: RecordModel) -> bool {
    &&& r.name.len() <= 0xffff_ffff
    &&& r.symbol.len() <= 0xffff_ffff
    &&& r.uri.len() <= 0xffff_ffff
    &&& (r.pending_transfer is Some <==> r.status == TokenStatus::InTransit)
}

/// 1 for an `Active` record, 0 otherwise.
pub open spec fn active_one(s: TokenStatus) -> nat {
    if s == TokenStatus::Active {
        1nat
    } else {
        0nat
    }
}

/// How many records are `Active`.
pub open spec fn count_active(rs: Seq<RecordModel>) -> nat
    decreases rs.len(),
{
    if rs.len() == 0 {
        0
    } else {
        count_active(rs.drop_last()) + active_one(rs.last().status)
    }
}

/// There are never more active records than records.
pub proof fn lemma_count_active_le_len(rs: Seq<RecordModel>)
    ensures
        count_active(rs) <= rs.len(),
    decreases rs.len(),
{
    if rs.len() > 0 {
        lemma_count_active_le_len(rs.drop_last());
    }
}

/// Replacing one record changes the active count by the difference the two
/// statuses make.
pub proof fn lemma_count_active_update(rs: Seq<RecordModel>, i: int, r: RecordModel)
    requires
        0 <= i < rs.len(),
    ensures
        count_active(rs.update(i, r)) + active_one(rs[i].status) == count_active(rs) + active_one(
            r.status,
        ),
    decreases rs.len(),
{
    let up = rs.update(i, r);
    if i == rs.len() - 1 {
        assert(up.drop_last() =~= rs.drop_last());
    } else {
        assert(up.drop_last() =~= rs.drop_last().update(i, r));
        lemma_count_active_update(rs.drop_last(), i, r);
    }
}

/// Appending a record adds its own contribution to the active count.
pub proof fn lemma_count_active_push(rs: Seq<RecordModel>, r: RecordModel)
    ensures
        count_active(rs.push(r)) == count_active(rs) + active_one(r.status),
{
    assert(rs.push(r).drop_last() =~= rs);
}

/// Whether some record carries `token_id`.
pub open spec fn has_token(rs: Seq<RecordModel>, token_id: u64) -> bool {
    exists|i: int| 0 <= i < rs.len() && #[trigger] rs[i].token_id == token_id
}

/// The position of the record carrying `token_id` (meaningful only when
/// [`has_token`] holds; unique under [`registry_wf`]).
pub open spec fn index_of(rs: Seq<RecordModel>, token_id: u64) -> int {
    choose|i: int| 0 <= i < rs.len() && #[trigger] rs[i].token_id == token_id
}

/// The record carrying `token_id`.
pub open spec fn record_of(rs: Seq<RecordModel>, token_id: u64) -> RecordModel {
    rs[index_of(rs, token_id)]
}

/// The registry singleton: the deploying authority, the denormalized supply
/// counter, the identifier watermark, and every record.
pub struct TokenRegistry {
    pub authority: Vec<u8>,
    pub total_supply: u64,
    pub next_token_id: u64,
    pub records: Vec<TokenRecord>,
}

/// Mathematical model of a [`TokenRegistry`].
pub ghost struct RegistryModel {
    pub authority: Seq<u8>,
    pub total_supply: u64,
    pub next_token_id: u64,
    pub records: Seq<RecordModel>,
}

impl View for TokenRegistry {
    type V = RegistryModel;

    open spec fn view(&self) -> RegistryModel {
        RegistryModel {
            authority: self.authority@,
            total_supply: self.total_supply,
            next_token_id: self.next_token_id,
            records: self.records@.map_values(|r: TokenRecord| r@),
        }
    }
}

/// The registry invariant: every record is well formed, no two records
/// share an identifier, and the supply counter equals the count of active
/// records.
pub open spec fn registry_wf(reg: RegistryModel) -> bool {
    &&& forall|i: int| 0 <= i < reg.records.len() ==> record_wf(#[trigger] reg.records[i])
    &&& forall|i: int, j: int|
        #![trigger reg.records[i].token_id, reg.records[j].token_id]
        0 <= i < j < reg.records.len() ==> reg.records[i].token_id != reg.records[j].token_id
    &&& reg.total_supply == count_active(reg.records)
}

/// Uniqueness: no two records - live or burned - share a token identifier.
pub proof fn lemma_token_ids_unique(reg: RegistryModel, i: int, j: int)
    requires
        registry_wf(reg),
        0 <= i < reg.records.len(),
        0 <= j < reg.records.len(),
        i != j,
    ensures
        reg.records[i].token_id != reg.records[j].token_id,
{
}

/// Supply conservation: the supply counter equals the count of active
/// records.
pub proof fn lemma_supply_conservation(reg: RegistryModel)
    requires
        registry_wf(reg),
    ensures
        reg.total_supply == count_active(reg.records),
{
}

/// Under the registry invariant, a position that carries `token_id` is the
/// position [`index_of`] names.
pub proof fn lemma_index_of_is(reg: RegistryModel, i: int, token_id: u64)
    requires
        registry_wf(reg),
        0 <= i < reg.records.len(),
        reg.records[i].token_id == token_id,
    ensures
        has_token(reg.records, token_id),
        index_of(reg.records, token_id) == i,
{
    assert(has_token(reg.records, token_id));
    let j = index_of(reg.records, token_id);
    if j != i {
        assert(reg.records[i].token_id != reg.records[j].token_id);
    }
}

impl TokenRegistry {
    /// The registry invariant, at the type.
    pub open spec fn wf(&self) -> bool {
        registry_wf(self@)
    }

    /// One-time setup: an empty registry owned by the deploying authority,
    /// with the identifier watermark starting at 1.
    pub fn new(authority: Vec<u8>) -> (r: TokenRegistry)
        ensures
            r.wf(),
            r@.authority == authority@,
            r@.total_supply == 0,
            r@.next_token_id == 1,
            r@.records == Seq::<RecordModel>::empty(),
    {
        let r = TokenRegistry {
            authority,
            total_supply: 0,
            next_token_id: 1,
            records: Vec::new(),
        };
        assert(r@.records =~= Seq::<RecordModel>::empty());
        r
    }

    /// Where the record carrying `token_id` sits, if any.
    fn find_index(&self, token_id: u64) -> (r: Option<usize>)
        ensures
            match r {
                Some(i) => {
                    &&& i < self@.records.len()
                    &&& self@.records[i as int].token_id == token_id
                    &&& has_token(self@.records, token_id)
                },
                None => !has_token(self@.records, token_id),
            },
    {
        let n = self.records.len();
        let mut i: usize = 0;
        while i < n
            invariant
                i <= n,
                n == self@.records.len(),
                forall|j: int| 0 <= j < i ==> #[trigger] self@.records[j].token_id != token_id,
            decreases n - i,
        {
            if self.records[i].token_id == token_id {
                return Some(i);
            }
            i = i + 1;
        }
        None
    }

    /// The record carrying `token_id`, if any.
    pub fn lookup(&self, token_id: u64) -> (r: Option<&TokenRecord>)
        requires
            self.wf(),
        ensures
            match r {
                Some(rec) => {
                    &&& has_token(self@.records, token_id)
                    &&& rec@ == record_of(self@.records, token_id)
                },
                None => !has_token(self@.records, token_id),
            },
    {
        match self.find_index(token_id) {
            Some(i) => {
                proof {
                    lemma_index_of_is(self@, i as int, token_id);
                }
                Some(&self.records[i])
            },
            None => None,
        }
    }

    /// Hands out the next fresh identifier and moves the watermark past it.
    /// An identifier returned here is never returned again.
    pub fn allocate_id(&mut self) -> (r: u64)
        requires
            old(self).wf(),
            old(self)@.next_token_id < u64::MAX,
        ensures
            final(self).wf(),
            r == old(self)@.next_token_id,
            final(self)@.next_token_id == old(self)@.next_token_id + 1,
            final(self)@.next_token_id >= old(self)@.next_token_id,
            final(self)@.records == old(self)@.records,
            final(self)@.total_supply == old(self)@.total_supply,
            final(self)@.authority == old(self)@.authority,
    {
        let id = self.next_token_id;
        self.next_token_id = self.next_token_id + 1;
        id
    }

    /// Fresh issuance.  The caller-supplied identifier must sit at or above
    /// the watermark and must not collide with any record (a foreign-minted
    /// identifier may sit above the watermark); otherwise nothing changes
    /// and the mint fails with `IdentifierConflict`.  On success the record
    /// is created `Active`, the watermark moves past the identifier, and
    /// the supply counter grows by one.
    pub fn mint_new(
        &mut self,
        token_id: u64,
        owner: Vec<u8>,
        name: Vec<u8>,
        symbol: Vec<u8>,
        uri: Vec<u8>,
        ledger_ref: Vec<u8>,
    ) -> (r: Result<(), BridgeError>)
        requires
            old(self).wf(),
            token_id < u64::MAX,
            name@.len() <= 0xffff_ffff,
            symbol@.len() <= 0xffff_ffff,
            uri@.len() <= 0xffff_ffff,
            old(self)@.records.len() < usize::MAX,
        ensures
            final(self).wf(),
            final(self)@.authority == old(self)@.authority,
            final(self)@.next_token_id >= old(self)@.next_token_id,
            match r {
                Ok(()) => {
                    &&& token_id >= old(self)@.next_token_id
                    &&& !has_token(old(self)@.records, token_id)
                    &&& final(self)@.records == old(self)@.records.push(
                        RecordModel {
                            token_id,
                            name: name@,
                            symbol: symbol@,
                            uri: uri@,
                            owner: owner@,
                            ledger_ref: ledger_ref@,
                            status: TokenStatus::Active,
                            pending_transfer: None,
                        },
                    )
                    &&& final(self)@.next_token_id == token_id + 1
                    &&& final(self)@.total_supply == old(self)@.total_supply + 1
                },
                Err(e) => {
                    &&& e == BridgeError::IdentifierConflict
                    &&& (token_id < old(self)@.next_token_id || has_token(
                        old(self)@.records,
                        token_id,
                    ))
                    &&& final(self)@ == old(self)@
                },
            },
    {
        if token_id < self.next_token_id {
            return Err(BridgeError::IdentifierConflict);
        }
        match self.find_index(token_id) {
            Some(_) => {
                return Err(BridgeError::IdentifierConflict);
            },
            None => {},
        }
        let rec = TokenRecord {
            token_id,
            name,
            symbol,
            uri,
            owner,
            ledger_ref,
            status: TokenStatus::Active,
            pending_transfer: None,
        };
        let ghost rm = rec@;
        let ghost oldr = old(self)@.records;
        proof {
            lemma_count_active_le_len(oldr);
        }
        self.records.push(rec);
        self.total_supply = self.total_supply + 1;
        self.next_token_id = token_id + 1;
        proof {
            assert(self@.records =~= oldr.push(rm));
            lemma_count_active_push(oldr, rm);
        }
        Ok(())
    }

    /// Locks an active record for an outbound transfer: the caller must own
    /// it.  The record turns `InTransit`, keeps the pending transfer, and
    /// leaves the local supply - the asset is gone from this ledger once
    /// locked.  On any failing check nothing changes.
    pub fn mark_in_transit(
        &mut self,
        token_id: u64,
        caller: &Vec<u8>,
        pending: PendingTransfer,
    ) -> (r: Result<(), BridgeError>)
        requires
            old(self).wf(),
        ensures
            final(self).wf(),
            final(self)@.authority == old(self)@.authority,
            final(self)@.next_token_id == old(self)@.next_token_id,
            final(self)@.next_token_id >= old(self)@.next_token_id,
            match r {
                Ok(()) => {
                    &&& has_token(old(self)@.records, token_id)
                    &&& record_of(old(self)@.records, token_id).status == TokenStatus::Active
                    &&& record_of(old(self)@.records, token_id).owner == caller@
                    &&& final(self)@.records == old(self)@.records.update(
                        index_of(old(self)@.records, token_id),
                        RecordModel {
                            status: TokenStatus::InTransit,
                            pending_transfer: Some(pending@),
                            ..record_of(old(self)@.records, token_id)
                        },
                    )
                    &&& final(self)@.total_supply == old(self)@.total_supply - 1
                },
                Err(e) => {
                    &&& final(self)@ == old(self)@
                    &&& match e {
                        BridgeError::InvalidTokenId => !has_token(old(self)@.records, token_id),
                        BridgeError::NotOwner => has_token(old(self)@.records, token_id)
                            && record_of(old(self)@.records, token_id).owner != caller@,
                        BridgeError::AlreadyBurned => has_token(old(self)@.records, token_id)
                            && record_of(old(self)@.records, token_id).owner == caller@
                            && record_of(old(self)@.records, token_id).status
                            == TokenStatus::Burned,
                        BridgeError::InvalidState => has_token(old(self)@.records, token_id)
                            && record_of(old(self)@.records, token_id).owner == caller@
                            && record_of(old(self)@.records, token_id).status
                            == TokenStatus::InTransit,
                        _ => false,
                    }
                },
            },
    {
        let i = match self.find_index(token_id) {
            Some(i) => i,
            None => {
                return Err(BridgeError::InvalidTokenId);
            },
        };
        proof {
            lemma_index_of_is(self@, i as int, token_id);
        }
        if !bytes_eq(&self.records[i].owner, caller) {
            return Err(BridgeError::NotOwner);
        }
        match self.records[i].status {
            TokenStatus::Burned => {
                return Err(BridgeError::AlreadyBurned);
            },
            TokenStatus::InTransit => {
                return Err(BridgeError::InvalidState);
            },
            TokenStatus::Active => {},
        }
        let new_rec = TokenRecord {
            token_id,
            name: clone_bytes(&self.records[i].name),
            symbol: clone_bytes(&self.records[i].symbol),
            uri: clone_bytes(&self.records[i].uri),
            owner: clone_bytes(&self.records[i].owner),
            ledger_ref: clone_bytes(&self.records[i].ledger_ref),
            status: TokenStatus::InTransit,
            pending_transfer: Some(pending),
        };
        let ghost oldr = old(self)@.records;
        let ghost rm = new_rec@;
        proof {
            assert(rm == RecordModel {
                status: TokenStatus::InTransit,
                pending_transfer: Some(pending@),
                ..record_of(oldr, token_id)
            });
            lemma_count_active_update(oldr, i as int, rm);
        }
        self.records[i] = new_rec;
        self.total_supply = self.total_supply - 1;
        proof {
            assert(self@.records =~= oldr.update(i as int, rm));
            assert forall|a: int| 0 <= a < self@.records.len() implies #[trigger] self@.records[a].token_id
                == oldr[a].token_id by {}
        }
        Ok(())
    }

    /// Confirms that an outbound transfer completed on the destination
    /// side: the locked record turns `Burned`, irreversibly.  The supply
    /// counter is untouched - it was already reduced when the record was
    /// locked.  On any failing check nothing changes.
    pub fn finalize_burn(&mut self, token_id: u64) -> (r: Result<(), BridgeError>)
        requires
            old(self).wf(),
        ensures
            final(self).wf(),
            final(self)@.authority == old(self)@.authority,
            final(self)@.next_token_id == old(self)@.next_token_id,
            final(self)@.next_token_id >= old(self)@.next_token_id,
            match r {
                Ok(()) => {
                    &&& has_token(old(self)@.records, token_id)
                    &&& record_of(old(self)@.records, token_id).status == TokenStatus::InTransit
                    &&& final(self)@.records == old(self)@.records.update(
                        index_of(old(self)@.records, token_id),
                        RecordModel {
                            status: TokenStatus::Burned,
                            pending_transfer: None,
                            ..record_of(old(self)@.records, token_id)
                        },
                    )
                    &&& final(self)@.total_supply == old(self)@.total_supply
                },
                Err(e) => {
                    &&& final(self)@ == old(self)@
                    &&& match e {
                        BridgeError::InvalidTokenId => !has_token(old(self)@.records, token_id),
                        BridgeError::AlreadyBurned => has_token(old(self)@.records, token_id)
                            && record_of(old(self)@.records, token_id).status
                            == TokenStatus::Burned,
                        BridgeError::InvalidState => has_token(old(self)@.records, token_id)
                            && record_of(old(self)@.records, token_id).status
                            == TokenStatus::Active,
                        _ => false,
                    }
                },
            },
    {
        let i = match self.find_index(token_id) {
            Some(i) => i,
            None => {
                return Err(BridgeError::InvalidTokenId);
            },
        };
        proof {
            lemma_index_of_is(self@, i as int, token_id);
        }
        match self.records[i].status {
            TokenStatus::Burned => {
                return Err(BridgeError::AlreadyBurned);
            },
            TokenStatus::Active => {
                return Err(BridgeError::InvalidState);
            },
            TokenStatus::InTransit => {},
        }
        let new_rec = TokenRecord {
            token_id,
            name: clone_bytes(&self.records[i].name),
            symbol: clone_bytes(&self.records[i].symbol),
            uri: clone_bytes(&self.records[i].uri),
            owner: clone_bytes(&self.records[i].owner),
            ledger_ref: clone_bytes(&self.records[i].ledger_ref),
            status: TokenStatus::Burned,
            pending_transfer: None,
        };
        let ghost oldr = old(self)@.records;
        let ghost rm = new_rec@;
        proof {
            assert(rm == RecordModel {
                status: TokenStatus::Burned,
                pending_transfer: None,
                ..record_of(oldr, token_id)
            });
            lemma_count_active_update(oldr, i as int, rm);
        }
        self.records[i] = new_rec;
        proof {
            assert(self@.records =~= oldr.update(i as int, rm));
            assert forall|a: int| 0 <= a < self@.records.len() implies #[trigger] self@.records[a].token_id
                == oldr[a].token_id by {}
        }
        Ok(())
    }

    /// Undoes a lock after a failed transfer: the record turns `Active`
    /// again, the pending transfer is cleared, and the supply counter grows
    /// back by one.  On any failing check nothing changes.
    pub fn restore(&mut self, token_id: u64) -> (r: Result<(), BridgeError>)
        requires
            old(self).wf(),
        ensures
            final(self).wf(),
            final(self)@.authority == old(self)@.authority,
            final(self)@.next_token_id == old(self)@.next_token_id,
            final(self)@.next_token_id >= old(self)@.next_token_id,
            match r {
                Ok(()) => {
                    &&& has_token(old(self)@.records, token_id)
                    &&& record_of(old(self)@.records, token_id).status == TokenStatus::InTransit
                    &&& final(self)@.records == old(self)@.records.update(
                        index_of(old(self)@.records, token_id),
                        RecordModel {
                            status: TokenStatus::Active,
                            pending_transfer: None,
                            ..record_of(old(self)@.records, token_id)
                        },
                    )
                    &&& final(self)@.total_supply == old(self)@.total_supply + 1
                },
                Err(e) => {
                    &&& final(self)@ == old(self)@
                    &&& match e {
                        BridgeError::InvalidTokenId => !has_token(old(self)@.records, token_id),
                        BridgeError::AlreadyBurned => has_token(old(self)@.records, token_id)
                            && record_of(old(self)@.records, token_id).status
                            == TokenStatus::Burned,
                        BridgeError::InvalidState => has_token(old(self)@.records, token_id)
                            && record_of(old(self)@.records, token_id).status
                            == TokenStatus::Active,
                        _ => false,
                    }
                },
            },
    {
        let i = match self.find_index(token_id) {
            Some(i) => i,
            None => {
                return Err(BridgeError::InvalidTokenId);
            },
        };
        proof {
            lemma_index_of_is(self@, i as int, token_id);
        }
        match self.records[i].status {
            TokenStatus::Burned => {
                return Err(BridgeError::AlreadyBurned);
            },
            TokenStatus::Active => {
                return Err(BridgeError::InvalidState);
            },
            TokenStatus::InTransit => {},
        }
        let new_rec = TokenRecord {
            token_id,
            name: clone_bytes(&self.records[i].name),
            symbol: clone_bytes(&self.records[i].symbol),
            uri: clone_bytes(&self.records[i].uri),
            owner: clone_bytes(&self.records[i].owner),
            ledger_ref: clone_bytes(&self.records[i].ledger_ref),
            status: TokenStatus::Active,
            pending_transfer: None,
        };
        let ghost oldr = old(self)@.records;
        let ghost rm = new_rec@;
        proof {
            assert(rm == RecordModel {
                status: TokenStatus::Active,
                pending_transfer: None,
                ..record_of(oldr, token_id)
            });
            lemma_count_active_update(oldr, i as int, rm);
            lemma_count_active_le_len(oldr.update(i as int, rm));
        }
        // the vector's length is a usize, which bounds the grown supply count
        let _len: usize = self.records.len();
        self.records[i] = new_rec;
        self.total_supply = self.total_supply + 1;
        proof {
            assert(self@.records =~= oldr.update(i as int, rm));
            assert forall|a: int| 0 <= a < self@.records.len() implies #[trigger] self@.records[a].token_id
                == oldr[a].token_id by {}
        }
        Ok(())
    }

    /// Records a token received from a foreign ledger.  The foreign-minted
    /// identifier is accepted as it is, independent of the local watermark:
    /// a fresh identifier appends a new `Active` record; an identifier that
    /// collides with an existing record overwrites that record as `Active`.
    pub fn record_inbound(
        &mut self,
        token_id: u64,
        owner: Vec<u8>,
        name: Vec<u8>,
        symbol: Vec<u8>,
        uri: Vec<u8>,
        ledger_ref: Vec<u8>,
    )
        requires
            old(self).wf(),
            name@.len() <= 0xffff_ffff,
            symbol@.len() <= 0xffff_ffff,
            uri@.len() <= 0xffff_ffff,
            old(self)@.records.len() < usize::MAX,
        ensures
            final(self).wf(),
            final(self)@.authority == old(self)@.authority,
            final(self)@.next_token_id == old(self)@.next_token_id,
            final(self)@.next_token_id >= old(self)@.next_token_id,
            ({
                let rm = RecordModel {
                    token_id,
                    name: name@,
                    symbol: symbol@,
                    uri: uri@,
                    owner: owner@,
                    ledger_ref: ledger_ref@,
                    status: TokenStatus::Active,
                    pending_transfer: None,
                };
                if has_token(old(self)@.records, token_id) {
                    &&& final(self)@.records == old(self)@.records.update(
                        index_of(old(self)@.records, token_id),
                        rm,
                    )
                    &&& final(self)@.total_supply == old(self)@.total_supply + 1 - active_one(
                        record_of(old(self)@.records, token_id).status,
                    )
                } else {
                    &&& final(self)@.records == old(self)@.records.push(rm)
                    &&& final(self)@.total_supply == old(self)@.total_supply + 1
                }
            }),
    {
        let rec = TokenRecord {
            token_id,
            name,
            symbol,
            uri,
            owner,
            ledger_ref,
            status: TokenStatus::Active,
            pending_transfer: None,
        };
        let ghost rm = rec@;
        let ghost oldr = old(self)@.records;
        match self.find_index(token_id) {
            Some(i) => {
                proof {
                    lemma_index_of_is(self@, i as int, token_id);
                    lemma_count_active_update(oldr, i as int, rm);
                    lemma_count_active_le_len(oldr.update(i as int, rm));
                }
                let was_active = match self.records[i].status {
                    TokenStatus::Active => true,
                    _ => false,
                };
                self.records[i] = rec;
                if !was_active {
                    self.total_supply = self.total_supply + 1;
                }
                proof {
                    assert(self@.records =~= oldr.update(i as int, rm));
                    assert forall|a: int| 0 <= a < self@.records.len() implies #[trigger] self@.records[a].token_id
                        == oldr[a].token_id by {}
                }
            },
            None => {
                proof {
                    lemma_count_active_le_len(oldr);
                    lemma_count_active_push(oldr, rm);
                }
                self.records.push(rec);
                self.total_supply = self.total_supply + 1;
                proof {
                    assert(self@.records =~= oldr.push(rm));
                }
            },
        }
    }
}

} // verus!
