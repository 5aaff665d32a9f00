//! Append-only, ordered record of every bridge-level state transition,
//! consumed by off-chain observers.  Nothing is ever rewritten or removed:
//! each operation appends at most one entry at the end.

use vstd::prelude::*;

verus! {

/// One state transition, as the off-chain observers see it.
pub enum BridgeEvent {
    /// Fresh issuance of a token on this ledger.
    Minted { token_id: u64, owner: Vec<u8>, uri: Vec<u8>, ledger_ref: Vec<u8> },
    /// An outbound transfer locked the token and handed a message to the
    /// gateway.
    TransferInitiated {
        token_id: u64,
        destination_chain_id: u64,
        destination_receiver: Vec<u8>,
        sender: Vec<u8>,
    },
    /// An outbound transfer was rolled back before the gateway accepted
    /// it, and the token is active here again.
    TransferAborted { token_id: u64 },
    /// An inbound message minted or restored a token on this ledger.
    TransferReceived {
        token_id: u64,
        sender: Vec<u8>,
        receiver: Vec<u8>,
        name: Vec<u8>,
        symbol: Vec<u8>,
        uri: Vec<u8>,
    },
    /// A gateway revert notification restored a locked token.
    TransferReverted { token_id: u64, original_sender: Vec<u8>, amount: u64 },
    /// A gateway revert notification that named no locked token; noted for
    /// the audit trail, with no state change.
    RevertNoted { original_sender: Vec<u8>, amount: u64 },
}

/// Mathematical model of a [`BridgeEvent`].
pub ghost enum EventModel {
    Minted { token_id: u64, owner: Seq<u8>, uri: Seq<u8>, ledger_ref: Seq<u8> },
    TransferInitiated {
        token_id: u64,
        destination_chain_id: u64,
        destination_receiver: Seq<u8>,
        sender: Seq<u8>,
    },
    TransferAborted { token_id: u64 },
    TransferReceived {
        token_id: u64,
        sender: Seq<u8>,
        receiver: Seq<u8>,
        name: Seq<u8>,
        symbol: Seq<u8>,
        uri: Seq<u8>,
    },
    TransferReverted { token_id: u64, original_sender: Seq<u8>, amount: u64 },
    RevertNoted { original_sender: Seq<u8>, amount: u64 },
}

impl View for BridgeEvent {
    type V = EventModel;

    open spec fn view(&self) -> EventModel {
        match *self {
            BridgeEvent::Minted { token_id, ref owner, ref uri, ref ledger_ref } => EventModel::Minted {
                token_id,
                owner: owner@,
                uri: uri@,
                ledger_ref: ledger_ref@,
            },
            BridgeEvent::TransferInitiated {
                token_id,
                destination_chain_id,
                ref destination_receiver,
                ref sender,
            } => EventModel::TransferInitiated {
                token_id,
                destination_chain_id,
                destination_receiver: destination_receiver@,
                sender: sender@,
            },
            BridgeEvent::TransferAborted { token_id } => EventModel::TransferAborted { token_id },
            BridgeEvent::TransferReceived {
                token_id,
                ref sender,
                ref receiver,
                ref name,
                ref symbol,
                ref uri,
            } => EventModel::TransferReceived {
                token_id,
                sender: sender@,
                receiver: receiver@,
                name: name@,
                symbol: symbol@,
                uri: uri@,
            },
            BridgeEvent::TransferReverted { token_id, ref original_sender, amount } => EventModel::TransferReverted {
                token_id,
                original_sender: original_sender@,
                amount,
            },
            BridgeEvent::RevertNoted { ref original_sender, amount } => EventModel::RevertNoted {
                original_sender: original_sender@,
                amount,
            },
        }
    }
}

/// The ordered log of transitions.
pub struct EventLog {
    pub entries: Vec<BridgeEvent>,
}

impl View for EventLog {
    type V = Seq<EventModel>;

    open spec fn view(&self) -> Seq<EventModel> {
        self.entries@.map_values(|e: BridgeEvent| e@)
    }
}

impl EventLog {
    /// An empty log.
    pub fn new() -> (r: EventLog)
        ensures
            r@ == Seq::<EventModel>::empty(),
    {
        let r = EventLog { entries: Vec::new() };
        assert(r@ =~= Seq::<EventModel>::empty());
        r
    }

    /// Appends one entry at the end; everything already logged stays as it
    /// was.
    pub fn append(&mut self, e: BridgeEvent)
        ensures
            final(self)@ == old(self)@.push(e@),
    {
        let ghost em = e@;
        self.entries.push(e);
        assert(self@ =~= old(self)@.push(em));
    }

    /// How many entries the log holds.
    pub fn len(&self) -> (r: usize)
        ensures
            r == self@.len(),
    {
        self.entries.len()
    }

    /// The entry at `i`, oldest first.
    pub fn entry(&self, i: usize) -> (r: &BridgeEvent)
        requires
            i < self@.len(),
        ensures
            r@ == self@[i as int],
    {
        &self.entries[i]
    }
}

} // verus!
