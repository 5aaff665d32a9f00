//! The bridge itself: the outbound burn-and-encode sequence, the inbound
//! decode-and-mint sequence, and the revert path, over the registry and the
//! event log.
//!
//! The collaborators stay outside: the underlying token ledger performs the
//! physical mint and burn, and the gateway relay carries bytes between
//! ledgers.  Each operation here is one atomic step of the protocol state
//! machine; the driver around the library performs the ledger or gateway
//! work between the steps.  The inbound entry points (`on_receive`,
//! `on_revert`) may only be invoked on behalf of the pinned gateway
//! identity, and both are safe against duplicated delivery: a consumed
//! inbound payload is never executed twice, and a revert restores a token
//! at most once.

use vstd::prelude::*;
use crate::bytes_eq;
use crate::clone_bytes;
use crate::codec::CrossChainMessage;
use crate::codec::MessageModel;
use crate::codec::FOREIGN_ADDRESS_LEN;
use crate::codec::HOME_ADDRESS_LEN;
use crate::codec::decode;
use crate::codec::decoded;
use crate::codec::encode;
use crate::codec::encoded;
use crate::codec::lemma_encode_decode;
use crate::errors::BridgeError;
use crate::events::BridgeEvent;
use crate::events::EventLog;
use crate::events::EventModel;
use crate::registry::PendingModel;
use crate::registry::PendingTransfer;
use crate::registry::RecordModel;
use crate::registry::RegistryModel;
use crate::registry::TokenRegistry;
use crate::registry::TokenStatus;
use crate::registry::active_one;
use crate::registry::has_token;
use crate::registry::index_of;
use crate::registry::lemma_index_of_is;
use crate::registry::record_of;
use crate::registry::registry_wf;

verus! {

/// Chain tag this ledger writes into outbound messages.
pub const HOME_CHAIN_TAG: u64 = 1;

/// Gas limit granted to the revert path of an outbound transfer.
pub const REVERT_GAS_LIMIT: u64 = 100000;

/// What accompanies an outbound send: who is refunded and what the gateway
/// hands back if the transfer fails on the destination side.
pub struct RevertEnvelope {
    pub revert_address: Vec<u8>,
    pub call_on_revert: bool,
    pub abort_address: Vec<u8>,
    pub revert_message: Vec<u8>,
    pub gas_limit: u64,
}

/// Mathematical model of a [`RevertEnvelope`].
pub ghost struct EnvelopeModel {
    pub revert_address: Seq<u8>,
    pub call_on_revert: bool,
    pub abort_address: Seq<u8>,
    pub revert_message: Seq<u8>,
    pub gas_limit: u64,
}

impl View for RevertEnvelope {
    type V = EnvelopeModel;

    open spec fn view(&self) -> EnvelopeModel {
        EnvelopeModel {
            revert_address: self.revert_address@,
            call_on_revert: self.call_on_revert,
            abort_address: self.abort_address@,
            revert_message: self.revert_message@,
            gas_limit: self.gas_limit,
        }
    }
}

/// Everything the driver must hand to the gateway's send primitive for one
/// outbound transfer.
pub struct OutboundPacket {
    pub destination_chain_id: u64,
    pub destination_receiver: Vec<u8>,
    pub payload: Vec<u8>,
    pub envelope: RevertEnvelope,
}

/// Mathematical model of an [`OutboundPacket`].
pub ghost struct PacketModel {
    pub destination_chain_id: u64,
    pub destination_receiver: Seq<u8>,
    pub payload: Seq<u8>,
    pub envelope: EnvelopeModel,
}

impl View for OutboundPacket {
    type V = PacketModel;

    open spec fn view(&self) -> PacketModel {
        PacketModel {
            destination_chain_id: self.destination_chain_id,
            destination_receiver: self.destination_receiver@,
            payload: self.payload@,
            envelope: self.envelope@,
        }
    }
}

/// What the driver must mint on the underlying token ledger after an
/// inbound message was recorded.
pub struct InboundMint {
    pub token_id: u64,
    pub receiver: Vec<u8>,
    pub name: Vec<u8>,
    pub symbol: Vec<u8>,
    pub uri: Vec<u8>,
}

/// Mathematical model of an [`InboundMint`].
pub ghost struct InboundMintModel {
    pub token_id: u64,
    pub receiver: Seq<u8>,
    pub name: Seq<u8>,
    pub symbol: Seq<u8>,
    pub uri: Seq<u8>,
}

impl View for InboundMint {
    type V = InboundMintModel;

    open spec fn view(&self) -> InboundMintModel {
        InboundMintModel {
            token_id: self.token_id,
            receiver: self.receiver@,
            name: self.name@,
            symbol: self.symbol@,
            uri: self.uri@,
        }
    }
}

/// The bridge: registry, event log, the pinned gateway identity, and the
/// inbound payloads consumed so far (the idempotency guard against
/// duplicated delivery).
pub struct Bridge {
    pub registry: TokenRegistry,
    pub log: EventLog,
    pub gateway_authority: Vec<u8>,
    pub consumed: Vec<Vec<u8>>,
}

/// Mathematical model of a [`Bridge`].
pub ghost struct BridgeModel {
    pub registry: RegistryModel,
    pub log: Seq<EventModel>,
    pub gateway_authority: Seq<u8>,
    pub consumed: Seq<Seq<u8>>,
}

impl View for Bridge {
    type V = BridgeModel;

    open spec fn view(&self) -> BridgeModel {
        BridgeModel {
            registry: self.registry@,
            log: self.log@,
            gateway_authority: self.gateway_authority@,
            consumed: self.consumed@.map_values(|v: Vec<u8>| v@),
        }
    }
}

/// Whether `caller` may initiate a transfer of `token_id` right now: the
/// record exists, is active, and is owned by the caller.
pub open spec fn can_transfer(reg: RegistryModel, token_id: u64, caller: Seq<u8>) -> bool {
    &&& has_token(reg.records, token_id)
    &&& record_of(reg.records, token_id).status == TokenStatus::Active
    &&& record_of(reg.records, token_id).owner == caller
}

/// Whether a revert payload unambiguously identifies a transfer that is
/// still outstanding: it decodes, the token is locked, and the payload is
/// byte-for-byte the message that was sent.  Only then does a revert mutate
/// state.
pub open spec fn revert_applies(reg: RegistryModel, data: Seq<u8>) -> bool {
    decoded(data) matches Some(m) && {
        &&& has_token(reg.records, m.token_id)
        &&& record_of(reg.records, m.token_id).status == TokenStatus::InTransit
        &&& (record_of(reg.records, m.token_id).pending_transfer matches Some(p) && p.message
            == data)
    }
}

/// Whether `set` holds a byte string equal to `x`.
fn contains_bytes(set: &Vec<Vec<u8>>, x: &Vec<u8>) -> (r: bool)
    ensures
        r <==> set@.map_values(|v: Vec<u8>| v@).contains(x@),
{
    let n = set.len();
    let mut i: usize = 0;
    while i < n
        invariant
            i <= n,
            n == set@.len(),
            forall|j: int| 0 <= j < i ==> (#[trigger] set@[j])@ != x@,
        decreases n - i,
    {
        if bytes_eq(&set[i], x) {
            assert(set@.map_values(|v: Vec<u8>| v@)[i as int] == x@);
            return true;
        }
        i = i + 1;
    }
    proof {
        let mapped = set@.map_values(|v: Vec<u8>| v@);
        assert forall|j: int| 0 <= j < n implies #[trigger] mapped[j] != x@ by {
            assert(mapped[j] == set@[j]@);
        }
        assert(!mapped.contains(x@));
    }
    false
}

impl Bridge {
    /// The bridge invariant: its registry invariant.
    pub open spec fn wf(&self) -> bool {
        registry_wf(self@.registry)
    }

    /// One-time setup of a deployment: an empty registry under `authority`,
    /// an empty log, no consumed payloads, and the gateway identity pinned
    /// for good.
    pub fn new(authority: Vec<u8>, gateway_authority: Vec<u8>) -> (r: Bridge)
        ensures
            r.wf(),
            r@.registry.authority == authority@,
            r@.registry.total_supply == 0,
            r@.registry.next_token_id == 1,
            r@.registry.records == Seq::<RecordModel>::empty(),
            r@.log == Seq::<EventModel>::empty(),
            r@.gateway_authority == gateway_authority@,
            r@.consumed == Seq::<Seq<u8>>::empty(),
    {
        let r = Bridge {
            registry: TokenRegistry::new(authority),
            log: EventLog::new(),
            gateway_authority,
            consumed: Vec::new(),
        };
        assert(r@.consumed =~= Seq::<Seq<u8>>::empty());
        r
    }

    /// Fresh issuance of a token, after the driver created the underlying
    /// ledger account: records it as `Active` and logs the mint.  Refused
    /// with `IdentifierConflict` when the identifier is stale or collides,
    /// with nothing changed.
    pub fn mint(
        &mut self,
        token_id: u64,
        owner: Vec<u8>,
        name: Vec<u8>,
        symbol: Vec<u8>,
        uri: Vec<u8>,
        ledger_ref: Vec<u8>,
    ) -> (r: Result<(), BridgeError>)
        requires
            old(self).wf(),
            token_id < u64::MAX,
            name@.len() <= 0xffff_ffff,
            symbol@.len() <= 0xffff_ffff,
            uri@.len() <= 0xffff_ffff,
            old(self)@.registry.records.len() < usize::MAX,
        ensures
            final(self).wf(),
            final(self)@.gateway_authority == old(self)@.gateway_authority,
            final(self)@.consumed == old(self)@.consumed,
            final(self)@.registry.authority == old(self)@.registry.authority,
            final(self)@.registry.next_token_id >= old(self)@.registry.next_token_id,
            match r {
                Ok(()) => {
                    &&& token_id >= old(self)@.registry.next_token_id
                    &&& !has_token(old(self)@.registry.records, token_id)
                    &&& final(self)@.registry.records == old(self)@.registry.records.push(
                        RecordModel {
                            token_id,
                            name: name@,
                            symbol: symbol@,
                            uri: uri@,
                            owner: owner@,
                            ledger_ref: ledger_ref@,
                            status: TokenStatus::Active,
                            pending_transfer: None,
                        },
                    )
                    &&& final(self)@.registry.next_token_id == token_id + 1
                    &&& final(self)@.registry.total_supply == old(self)@.registry.total_supply + 1
                    &&& final(self)@.log == old(self)@.log.push(
                        EventModel::Minted {
                            token_id,
                            owner: owner@,
                            uri: uri@,
                            ledger_ref: ledger_ref@,
                        },
                    )
                },
                Err(e) => {
                    &&& e == BridgeError::IdentifierConflict
                    &&& (token_id < old(self)@.registry.next_token_id || has_token(
                        old(self)@.registry.records,
                        token_id,
                    ))
                    &&& final(self)@ == old(self)@
                },
            },
    {
        let owner_for_event = clone_bytes(&owner);
        let uri_for_event = clone_bytes(&uri);
        let ledger_ref_for_event = clone_bytes(&ledger_ref);
        match self.registry.mint_new(token_id, owner, name, symbol, uri, ledger_ref) {
            Ok(()) => {},
            Err(e) => {
                return Err(e);
            },
        }
        self.log.append(
            BridgeEvent::Minted {
                token_id,
                owner: owner_for_event,
                uri: uri_for_event,
                ledger_ref: ledger_ref_for_event,
            },
        );
        Ok(())
    }

    /// Starts an outbound transfer, after the driver burned the underlying
    /// ledger representation: locks the record, logs the step, and returns
    /// the packet the driver must hand to the gateway's send primitive.
    /// The packet's payload decodes back to the very message describing
    /// this token, and the revert envelope carries those same bytes, so a
    /// later revert can identify the transfer.  While the record is locked,
    /// no caller can start another transfer of it.  On any failing check
    /// nothing changes.
    pub fn initiate_transfer(
        &mut self,
        token_id: u64,
        destination_chain_id: u64,
        destination_receiver: Vec<u8>,
        caller: &Vec<u8>,
        now: u64,
    ) -> (r: Result<OutboundPacket, BridgeError>)
        requires
            old(self).wf(),
            destination_receiver@.len() == FOREIGN_ADDRESS_LEN || destination_receiver@.len()
                == HOME_ADDRESS_LEN,
        ensures
            final(self).wf(),
            final(self)@.gateway_authority == old(self)@.gateway_authority,
            final(self)@.consumed == old(self)@.consumed,
            final(self)@.registry.authority == old(self)@.registry.authority,
            final(self)@.registry.next_token_id == old(self)@.registry.next_token_id,
            match r {
                Ok(p) => {
                    &&& can_transfer(old(self)@.registry, token_id, caller@)
                    &&& ({
                        let orec = record_of(old(self)@.registry.records, token_id);
                        let msg = MessageModel {
                            token_id,
                            name: orec.name,
                            symbol: orec.symbol,
                            uri: orec.uri,
                            receiver: destination_receiver@,
                            source_chain_tag: HOME_CHAIN_TAG,
                        };
                        &&& p@.payload == encoded(msg)
                        &&& decoded(p@.payload) == Some(msg)
                        &&& p@.destination_chain_id == destination_chain_id
                        &&& p@.destination_receiver == destination_receiver@
                        &&& p@.envelope.revert_address == caller@
                        &&& p@.envelope.call_on_revert == true
                        &&& p@.envelope.abort_address == destination_receiver@
                        &&& p@.envelope.revert_message == encoded(msg)
                        &&& p@.envelope.gas_limit == REVERT_GAS_LIMIT
                        &&& final(self)@.registry.records
                            == old(self)@.registry.records.update(
                            index_of(old(self)@.registry.records, token_id),
                            RecordModel {
                                status: TokenStatus::InTransit,
                                pending_transfer: Some(
                                    PendingModel {
                                        destination_chain_id,
                                        destination_receiver: destination_receiver@,
                                        timestamp: now,
                                        message: encoded(msg),
                                    },
                                ),
                                ..orec
                            },
                        )
                    })
                    &&& final(self)@.registry.total_supply == old(self)@.registry.total_supply - 1
                    &&& final(self)@.log == old(self)@.log.push(
                        EventModel::TransferInitiated {
                            token_id,
                            destination_chain_id,
                            destination_receiver: destination_receiver@,
                            sender: caller@,
                        },
                    )
                    &&& forall|c: Seq<u8>| !can_transfer(final(self)@.registry, token_id, c)
                },
                Err(e) => {
                    &&& final(self)@ == old(self)@
                    &&& match e {
                        BridgeError::InvalidTokenId => !has_token(
                            old(self)@.registry.records,
                            token_id,
                        ),
                        BridgeError::NotOwner => has_token(old(self)@.registry.records, token_id)
                            && record_of(old(self)@.registry.records, token_id).owner != caller@,
                        BridgeError::AlreadyBurned => has_token(
                            old(self)@.registry.records,
                            token_id,
                        ) && record_of(old(self)@.registry.records, token_id).owner == caller@
                            && record_of(old(self)@.registry.records, token_id).status
                            == TokenStatus::Burned,
                        BridgeError::InvalidState => has_token(
                            old(self)@.registry.records,
                            token_id,
                        ) && record_of(old(self)@.registry.records, token_id).owner == caller@
                            && record_of(old(self)@.registry.records, token_id).status
                            == TokenStatus::InTransit,
                        _ => false,
                    }
                },
            },
    {
        let (name, symbol, uri) = match self.registry.lookup(token_id) {
            Some(rec) => (
                clone_bytes(&rec.name),
                clone_bytes(&rec.symbol),
                clone_bytes(&rec.uri),
            ),
            None => {
                return Err(BridgeError::InvalidTokenId);
            },
        };
        let msg = CrossChainMessage {
            token_id,
            name,
            symbol,
            uri,
            receiver: clone_bytes(&destination_receiver),
            source_chain_tag: HOME_CHAIN_TAG,
        };
        let payload = encode(&msg);
        proof {
            lemma_encode_decode(msg@);
        }
        let pending = PendingTransfer {
            destination_chain_id,
            destination_receiver: clone_bytes(&destination_receiver),
            timestamp: now,
            message: clone_bytes(&payload),
        };
        match self.registry.mark_in_transit(token_id, caller, pending) {
            Ok(()) => {},
            Err(e) => {
                return Err(e);
            },
        }
        self.log.append(
            BridgeEvent::TransferInitiated {
                token_id,
                destination_chain_id,
                destination_receiver: clone_bytes(&destination_receiver),
                sender: clone_bytes(caller),
            },
        );
        proof {
            let freg = self@.registry;
            let i = index_of(old(self)@.registry.records, token_id);
            lemma_index_of_is(freg, i, token_id);
            assert(record_of(freg.records, token_id).status == TokenStatus::InTransit);
        }
        let envelope = RevertEnvelope {
            revert_address: clone_bytes(caller),
            call_on_revert: true,
            abort_address: clone_bytes(&destination_receiver),
            revert_message: clone_bytes(&payload),
            gas_limit: REVERT_GAS_LIMIT,
        };
        Ok(OutboundPacket { destination_chain_id, destination_receiver, payload, envelope })
    }

    /// Rolls an outbound transfer back after the gateway refused the send:
    /// the owner's record turns active again and the rollback is logged.
    /// Together with the driver's re-mint of the burned ledger
    /// representation this undoes the whole sequence, so no burn is ever
    /// visible without a transfer attempt.  On any failing check nothing
    /// changes.
    pub fn cancel_transfer(&mut self, token_id: u64, caller: &Vec<u8>) -> (r: Result<
        (),
        BridgeError,
    >)
        requires
            old(self).wf(),
        ensures
            final(self).wf(),
            final(self)@.gateway_authority == old(self)@.gateway_authority,
            final(self)@.consumed == old(self)@.consumed,
            final(self)@.registry.authority == old(self)@.registry.authority,
            final(self)@.registry.next_token_id == old(self)@.registry.next_token_id,
            match r {
                Ok(()) => {
                    &&& has_token(old(self)@.registry.records, token_id)
                    &&& record_of(old(self)@.registry.records, token_id).owner == caller@
                    &&& record_of(old(self)@.registry.records, token_id).status
                        == TokenStatus::InTransit
                    &&& final(self)@.registry.records == old(self)@.registry.records.update(
                        index_of(old(self)@.registry.records, token_id),
                        RecordModel {
                            status: TokenStatus::Active,
                            pending_transfer: None,
                            ..record_of(old(self)@.registry.records, token_id)
                        },
                    )
                    &&& final(self)@.registry.total_supply == old(self)@.registry.total_supply + 1
                    &&& final(self)@.log == old(self)@.log.push(
                        EventModel::TransferAborted { token_id },
                    )
                },
                Err(e) => {
                    &&& final(self)@ == old(self)@
                    &&& match e {
                        BridgeError::InvalidTokenId => !has_token(
                            old(self)@.registry.records,
                            token_id,
                        ),
                        BridgeError::NotOwner => has_token(old(self)@.registry.records, token_id)
                            && record_of(old(self)@.registry.records, token_id).owner != caller@,
                        BridgeError::AlreadyBurned => has_token(
                            old(self)@.registry.records,
                            token_id,
                        ) && record_of(old(self)@.registry.records, token_id).owner == caller@
                            && record_of(old(self)@.registry.records, token_id).status
                            == TokenStatus::Burned,
                        BridgeError::InvalidState => has_token(
                            old(self)@.registry.records,
                            token_id,
                        ) && record_of(old(self)@.registry.records, token_id).owner == caller@
                            && record_of(old(self)@.registry.records, token_id).status
                            == TokenStatus::Active,
                        _ => false,
                    }
                },
            },
    {
        match self.registry.lookup(token_id) {
            Some(rec) => {
                if !bytes_eq(&rec.owner, caller) {
                    return Err(BridgeError::NotOwner);
                }
            },
            None => {
                return Err(BridgeError::InvalidTokenId);
            },
        }
        match self.registry.restore(token_id) {
            Ok(()) => {},
            Err(e) => {
                return Err(e);
            },
        }
        self.log.append(BridgeEvent::TransferAborted { token_id });
        Ok(())
    }

    /// Inbound delivery of a transfer message, invoked on behalf of the
    /// gateway.  A caller other than the pinned gateway identity is refused
    /// with `Unauthorized`; a payload that does not decode is refused with
    /// `MalformedMessage`; a payload already consumed is a no-op (`Ok(None)`)
    /// so a duplicated delivery never mints twice.  Otherwise the payload is
    /// consumed, the token is recorded `Active` (created, or overwriting a
    /// record that carried the same identifier), the receipt is logged, and
    /// the returned directive tells the driver what to mint on the
    /// underlying ledger, exactly once.
    pub fn on_receive(
        &mut self,
        caller: &Vec<u8>,
        sender: &Vec<u8>,
        message: Vec<u8>,
        ledger_ref: Vec<u8>,
    ) -> (r: Result<Option<InboundMint>, BridgeError>)
        requires
            old(self).wf(),
            old(self)@.registry.records.len() < usize::MAX,
        ensures
            final(self).wf(),
            final(self)@.gateway_authority == old(self)@.gateway_authority,
            final(self)@.registry.authority == old(self)@.registry.authority,
            final(self)@.registry.next_token_id == old(self)@.registry.next_token_id,
            match r {
                Err(e) => {
                    &&& final(self)@ == old(self)@
                    &&& match e {
                        BridgeError::Unauthorized => caller@ != old(self)@.gateway_authority,
                        BridgeError::MalformedMessage => caller@ == old(self)@.gateway_authority
                            && decoded(message@) is None,
                        _ => false,
                    }
                },
                Ok(None) => {
                    &&& caller@ == old(self)@.gateway_authority
                    &&& decoded(message@) is Some
                    &&& old(self)@.consumed.contains(message@)
                    &&& final(self)@ == old(self)@
                },
                Ok(Some(d)) => {
                    &&& caller@ == old(self)@.gateway_authority
                    &&& !old(self)@.consumed.contains(message@)
                    &&& final(self)@.consumed == old(self)@.consumed.push(message@)
                    &&& (decoded(message@) matches Some(m) && {
                        let rm = RecordModel {
                            token_id: m.token_id,
                            name: m.name,
                            symbol: m.symbol,
                            uri: m.uri,
                            owner: m.receiver,
                            ledger_ref: ledger_ref@,
                            status: TokenStatus::Active,
                            pending_transfer: None,
                        };
                        &&& d@ == InboundMintModel {
                            token_id: m.token_id,
                            receiver: m.receiver,
                            name: m.name,
                            symbol: m.symbol,
                            uri: m.uri,
                        }
                        &&& if has_token(old(self)@.registry.records, m.token_id) {
                            &&& final(self)@.registry.records
                                == old(self)@.registry.records.update(
                                index_of(old(self)@.registry.records, m.token_id),
                                rm,
                            )
                            &&& final(self)@.registry.total_supply
                                == old(self)@.registry.total_supply + 1 - active_one(
                                record_of(old(self)@.registry.records, m.token_id).status,
                            )
                        } else {
                            &&& final(self)@.registry.records
                                == old(self)@.registry.records.push(rm)
                            &&& final(self)@.registry.total_supply
                                == old(self)@.registry.total_supply + 1
                        }
                        &&& final(self)@.log == old(self)@.log.push(
                            EventModel::TransferReceived {
                                token_id: m.token_id,
                                sender: sender@,
                                receiver: m.receiver,
                                name: m.name,
                                symbol: m.symbol,
                                uri: m.uri,
                            },
                        )
                    })
                },
            },
    {
        if !bytes_eq(caller, &self.gateway_authority) {
            return Err(BridgeError::Unauthorized);
        }
        let m = match decode(&message) {
            Ok(m) => m,
            Err(_) => {
                return Err(BridgeError::MalformedMessage);
            },
        };
        if contains_bytes(&self.consumed, &message) {
            return Ok(None);
        }
        let directive = InboundMint {
            token_id: m.token_id,
            receiver: clone_bytes(&m.receiver),
            name: clone_bytes(&m.name),
            symbol: clone_bytes(&m.symbol),
            uri: clone_bytes(&m.uri),
        };
        let ghost old_consumed = self@.consumed;
        self.registry.record_inbound(m.token_id, m.receiver, m.name, m.symbol, m.uri, ledger_ref);
        self.log.append(
            BridgeEvent::TransferReceived {
                token_id: directive.token_id,
                sender: clone_bytes(sender),
                receiver: clone_bytes(&directive.receiver),
                name: clone_bytes(&directive.name),
                symbol: clone_bytes(&directive.symbol),
                uri: clone_bytes(&directive.uri),
            },
        );
        let ghost message_model = message@;
        self.consumed.push(message);
        proof {
            assert(self@.consumed =~= old_consumed.push(message_model));
        }
        Ok(Some(directive))
    }

    /// A gateway revert notification for a transfer that failed on the
    /// destination side, invoked on behalf of the gateway.  A caller other
    /// than the pinned gateway identity is refused with `Unauthorized` and
    /// nothing changes.  Otherwise the notification is noted in the log,
    /// and exactly when the payload unambiguously identifies a transfer
    /// that is still outstanding - it decodes, the token is locked, and the
    /// payload equals the bytes that were sent - the token is restored; a
    /// revert never creates or resurrects a record it cannot identify, and
    /// once a payload has restored its token the same payload never
    /// restores anything again.
    pub fn on_revert(
        &mut self,
        caller: &Vec<u8>,
        original_sender: &Vec<u8>,
        amount: u64,
        revert_data: &Vec<u8>,
    ) -> (r: Result<bool, BridgeError>)
        requires
            old(self).wf(),
        ensures
            final(self).wf(),
            final(self)@.gateway_authority == old(self)@.gateway_authority,
            final(self)@.consumed == old(self)@.consumed,
            final(self)@.registry.authority == old(self)@.registry.authority,
            final(self)@.registry.next_token_id == old(self)@.registry.next_token_id,
            match r {
                Err(e) => {
                    &&& e == BridgeError::Unauthorized
                    &&& caller@ != old(self)@.gateway_authority
                    &&& final(self)@ == old(self)@
                },
                Ok(restored) => {
                    &&& caller@ == old(self)@.gateway_authority
                    &&& restored == revert_applies(old(self)@.registry, revert_data@)
                    &&& if restored {
                        decoded(revert_data@) matches Some(m) && {
                            &&& final(self)@.registry.records
                                == old(self)@.registry.records.update(
                                index_of(old(self)@.registry.records, m.token_id),
                                RecordModel {
                                    status: TokenStatus::Active,
                                    pending_transfer: None,
                                    ..record_of(old(self)@.registry.records, m.token_id)
                                },
                            )
                            &&& final(self)@.registry.total_supply
                                == old(self)@.registry.total_supply + 1
                            &&& final(self)@.log == old(self)@.log.push(
                                EventModel::TransferReverted {
                                    token_id: m.token_id,
                                    original_sender: original_sender@,
                                    amount,
                                },
                            )
                            &&& !revert_applies(final(self)@.registry, revert_data@)
                        }
                    } else {
                        &&& final(self)@.registry == old(self)@.registry
                        &&& final(self)@.log == old(self)@.log.push(
                            EventModel::RevertNoted {
                                original_sender: original_sender@,
                                amount,
                            },
                        )
                    }
                },
            },
    {
        if !bytes_eq(caller, &self.gateway_authority) {
            return Err(BridgeError::Unauthorized);
        }
        let decoded_msg = match decode(revert_data) {
            Ok(m) => Some(m),
            Err(_) => None,
        };
        let applies: bool = match &decoded_msg {
            Some(m) => match self.registry.lookup(m.token_id) {
                Some(rec) => match rec.status {
                    TokenStatus::InTransit => match &rec.pending_transfer {
                        Some(p) => bytes_eq(&p.message, revert_data),
                        None => false,
                    },
                    _ => false,
                },
                None => false,
            },
            None => false,
        };
        assert(applies == revert_applies(old(self)@.registry, revert_data@));
        if applies {
            let m = match decoded_msg {
                Some(m) => m,
                None => {
                    assert(false);
                    return Err(BridgeError::Unauthorized);
                },
            };
            match self.registry.restore(m.token_id) {
                Ok(()) => {},
                Err(_) => {
                    assert(false);
                    return Err(BridgeError::Unauthorized);
                },
            }
            self.log.append(
                BridgeEvent::TransferReverted {
                    token_id: m.token_id,
                    original_sender: clone_bytes(original_sender),
                    amount,
                },
            );
            proof {
                let freg = self@.registry;
                let i = index_of(old(self)@.registry.records, m.token_id);
                lemma_index_of_is(freg, i, m@.token_id);
                assert(record_of(freg.records, m@.token_id).status == TokenStatus::Active);
            }
            Ok(true)
        } else {
            self.log.append(
                BridgeEvent::RevertNoted { original_sender: clone_bytes(original_sender), amount },
            );
            Ok(false)
        }
    }
}

} // verus!
