use universal_nft::bridge::{Bridge, HOME_CHAIN_TAG, REVERT_GAS_LIMIT};
use universal_nft::codec::{decode, encode, CrossChainMessage};
use universal_nft::errors::BridgeError;
use universal_nft::events::BridgeEvent;
use universal_nft::registry::TokenStatus;

fn id32(fill: u8) -> Vec<u8> {
    vec![fill; 32]
}

fn addr20(fill: u8) -> Vec<u8> {
    vec![fill; 20]
}

const DEPLOYER: u8 = 0xD0;
const GATEWAY: u8 = 0x6A;
const ALICE: u8 = 0xA1;
const BOB: u8 = 0xB0;

fn fresh_bridge() -> Bridge {
    Bridge::new(id32(DEPLOYER), id32(GATEWAY))
}

/// A bridge holding token 1, actively owned by Alice.
fn bridge_with_token() -> Bridge {
    let mut b = fresh_bridge();
    b.mint(1, id32(ALICE), b"Dragon".to_vec(), b"DRG".to_vec(), b"ipfs://dragon".to_vec(), id32(0x01))
        .expect("fresh mint must succeed");
    b
}

fn status_of(b: &Bridge, token_id: u64) -> TokenStatus {
    b.registry.lookup(token_id).expect("record must exist").status
}

#[test]
fn scenario_mint_gives_active_record_and_supply_one() {
    let b = bridge_with_token();
    assert!(matches!(status_of(&b, 1), TokenStatus::Active));
    assert_eq!(b.registry.total_supply, 1);
    assert_eq!(b.registry.next_token_id, 2);
    assert_eq!(b.log.len(), 1);
    assert!(matches!(b.log.entry(0), BridgeEvent::Minted { token_id: 1, .. }));
}

#[test]
fn scenario_transfer_locks_record_and_message_names_token() {
    let mut b = bridge_with_token();
    let packet = b
        .initiate_transfer(1, 7, addr20(0xE7), &id32(ALICE), 1000)
        .expect("owner may transfer an active token");
    assert!(matches!(status_of(&b, 1), TokenStatus::InTransit));
    assert_eq!(b.registry.total_supply, 0);
    let m = decode(&packet.payload).expect("the gateway receives a decodable message");
    assert_eq!(m.token_id, 1);
    assert_eq!(m.name, b"Dragon".to_vec());
    assert_eq!(m.receiver, addr20(0xE7));
    assert_eq!(m.source_chain_tag, HOME_CHAIN_TAG);
    assert_eq!(packet.destination_chain_id, 7);
    assert_eq!(packet.envelope.revert_address, id32(ALICE));
    assert!(packet.envelope.call_on_revert);
    assert_eq!(packet.envelope.revert_message, packet.payload);
    assert_eq!(packet.envelope.gas_limit, REVERT_GAS_LIMIT);
    assert!(matches!(b.log.entry(1), BridgeEvent::TransferInitiated { token_id: 1, .. }));
}

#[test]
fn scenario_revert_restores_record_and_supply() {
    let mut b = bridge_with_token();
    let packet = b.initiate_transfer(1, 7, addr20(0xE7), &id32(ALICE), 1000).unwrap();
    let restored = b
        .on_revert(&id32(GATEWAY), &id32(ALICE), 1, &packet.envelope.revert_message)
        .expect("the gateway may revert");
    assert!(restored);
    assert!(matches!(status_of(&b, 1), TokenStatus::Active));
    assert_eq!(b.registry.total_supply, 1);
    assert!(matches!(
        b.log.entry(2),
        BridgeEvent::TransferReverted { token_id: 1, amount: 1, .. }
    ));
}

#[test]
fn scenario_receive_creates_record_and_mints_exactly_once() {
    let mut b = fresh_bridge();
    let incoming = encode(&CrossChainMessage {
        token_id: 99,
        name: b"Comet".to_vec(),
        symbol: b"CMT".to_vec(),
        uri: b"ipfs://comet".to_vec(),
        receiver: id32(BOB),
        source_chain_tag: 5,
    });
    let first = b
        .on_receive(&id32(GATEWAY), &addr20(0xF0), incoming.clone(), id32(0x02))
        .expect("the gateway may deliver");
    let directive = first.expect("a fresh payload yields one ledger mint");
    assert_eq!(directive.token_id, 99);
    assert_eq!(directive.receiver, id32(BOB));
    assert!(matches!(status_of(&b, 99), TokenStatus::Active));
    assert_eq!(b.registry.total_supply, 1);
    // a duplicated delivery is a no-op: no second ledger mint, no state change
    let second = b
        .on_receive(&id32(GATEWAY), &addr20(0xF0), incoming, id32(0x02))
        .expect("a duplicate is accepted quietly");
    assert!(second.is_none());
    assert_eq!(b.registry.total_supply, 1);
    assert_eq!(b.log.len(), 1);
}

#[test]
fn scenario_receive_by_non_gateway_fails_unauthorized() {
    let mut b = fresh_bridge();
    let incoming = encode(&CrossChainMessage {
        token_id: 99,
        name: b"Comet".to_vec(),
        symbol: b"CMT".to_vec(),
        uri: b"ipfs://comet".to_vec(),
        receiver: id32(BOB),
        source_chain_tag: 5,
    });
    let r = b.on_receive(&id32(BOB), &addr20(0xF0), incoming, id32(0x02));
    assert!(matches!(r, Err(BridgeError::Unauthorized)));
    assert!(b.registry.lookup(99).is_none());
    assert_eq!(b.registry.total_supply, 0);
    assert_eq!(b.log.len(), 0);
}

#[test]
fn receive_refuses_malformed_payload() {
    let mut b = fresh_bridge();
    let r = b.on_receive(&id32(GATEWAY), &addr20(0xF0), b"free-form command".to_vec(), id32(2));
    assert!(matches!(r, Err(BridgeError::MalformedMessage)));
    assert_eq!(b.log.len(), 0);
}

#[test]
fn receive_overwrites_colliding_record() {
    let mut b = bridge_with_token();
    let incoming = encode(&CrossChainMessage {
        token_id: 1,
        name: b"Dragon2".to_vec(),
        symbol: b"DR2".to_vec(),
        uri: b"ipfs://dragon2".to_vec(),
        receiver: id32(BOB),
        source_chain_tag: 5,
    });
    let r = b.on_receive(&id32(GATEWAY), &addr20(0xF0), incoming, id32(0x03)).unwrap();
    assert!(r.is_some());
    let rec = b.registry.lookup(1).unwrap();
    assert_eq!(rec.name, b"Dragon2".to_vec());
    assert_eq!(rec.owner, id32(BOB));
    assert!(matches!(rec.status, TokenStatus::Active));
    // the record was active before and is active after: supply stays 1
    assert_eq!(b.registry.total_supply, 1);
}

#[test]
fn double_transfer_without_revert_fails_invalid_state() {
    let mut b = bridge_with_token();
    b.initiate_transfer(1, 7, addr20(0xE7), &id32(ALICE), 1000).unwrap();
    let again = b.initiate_transfer(1, 7, addr20(0xE7), &id32(ALICE), 2000);
    assert!(matches!(again, Err(BridgeError::InvalidState)));
    assert_eq!(b.registry.total_supply, 0);
}

#[test]
fn second_revert_with_same_payload_is_a_noop() {
    let mut b = bridge_with_token();
    let packet = b.initiate_transfer(1, 7, addr20(0xE7), &id32(ALICE), 1000).unwrap();
    let first = b.on_revert(&id32(GATEWAY), &id32(ALICE), 1, &packet.payload).unwrap();
    assert!(first);
    assert_eq!(b.registry.total_supply, 1);
    let second = b.on_revert(&id32(GATEWAY), &id32(ALICE), 1, &packet.payload).unwrap();
    assert!(!second, "the second revert must not restore again");
    assert_eq!(b.registry.total_supply, 1, "supply must not be double-credited");
    assert!(matches!(status_of(&b, 1), TokenStatus::Active));
    assert!(matches!(b.log.entry(3), BridgeEvent::RevertNoted { .. }));
}

#[test]
fn revert_by_non_gateway_fails_unauthorized() {
    let mut b = bridge_with_token();
    let packet = b.initiate_transfer(1, 7, addr20(0xE7), &id32(ALICE), 1000).unwrap();
    let r = b.on_revert(&id32(ALICE), &id32(ALICE), 1, &packet.payload);
    assert!(matches!(r, Err(BridgeError::Unauthorized)));
    assert!(matches!(status_of(&b, 1), TokenStatus::InTransit));
}

#[test]
fn revert_with_unknown_payload_only_notes() {
    let mut b = bridge_with_token();
    let unrelated = encode(&CrossChainMessage {
        token_id: 55,
        name: b"Ghost".to_vec(),
        symbol: b"GHO".to_vec(),
        uri: b"ipfs://ghost".to_vec(),
        receiver: addr20(1),
        source_chain_tag: HOME_CHAIN_TAG,
    });
    let restored = b.on_revert(&id32(GATEWAY), &id32(ALICE), 1, &unrelated).unwrap();
    assert!(!restored);
    assert_eq!(b.registry.total_supply, 1);
    assert!(matches!(b.log.entry(1), BridgeEvent::RevertNoted { .. }));
}

#[test]
fn revert_with_undecodable_payload_only_notes() {
    let mut b = bridge_with_token();
    let restored = b.on_revert(&id32(GATEWAY), &id32(ALICE), 0, &b"garbage".to_vec()).unwrap();
    assert!(!restored);
    assert_eq!(b.registry.total_supply, 1);
    assert!(matches!(b.log.entry(1), BridgeEvent::RevertNoted { .. }));
}

#[test]
fn transfer_by_non_owner_fails_not_owner() {
    let mut b = bridge_with_token();
    let r = b.initiate_transfer(1, 7, addr20(0xE7), &id32(BOB), 1000);
    assert!(matches!(r, Err(BridgeError::NotOwner)));
    assert!(matches!(status_of(&b, 1), TokenStatus::Active));
    assert_eq!(b.registry.total_supply, 1);
}

#[test]
fn transfer_of_unknown_token_fails_invalid_token_id() {
    let mut b = bridge_with_token();
    let r = b.initiate_transfer(2, 7, addr20(0xE7), &id32(ALICE), 1000);
    assert!(matches!(r, Err(BridgeError::InvalidTokenId)));
}

#[test]
fn transfer_of_burned_token_fails_already_burned() {
    let mut b = bridge_with_token();
    b.initiate_transfer(1, 7, addr20(0xE7), &id32(ALICE), 1000).unwrap();
    b.registry.finalize_burn(1).expect("a locked token can be finalized");
    assert!(matches!(status_of(&b, 1), TokenStatus::Burned));
    assert_eq!(b.registry.total_supply, 0);
    let r = b.initiate_transfer(1, 7, addr20(0xE7), &id32(ALICE), 2000);
    assert!(matches!(r, Err(BridgeError::AlreadyBurned)));
}

#[test]
fn revert_after_finalized_burn_only_notes() {
    let mut b = bridge_with_token();
    let packet = b.initiate_transfer(1, 7, addr20(0xE7), &id32(ALICE), 1000).unwrap();
    b.registry.finalize_burn(1).unwrap();
    let restored = b.on_revert(&id32(GATEWAY), &id32(ALICE), 1, &packet.payload).unwrap();
    assert!(!restored, "a burned record must never be resurrected");
    assert!(matches!(status_of(&b, 1), TokenStatus::Burned));
    assert_eq!(b.registry.total_supply, 0);
}

#[test]
fn mint_with_stale_id_fails_identifier_conflict() {
    let mut b = bridge_with_token();
    let r = b.mint(1, id32(BOB), b"Copy".to_vec(), b"CPY".to_vec(), b"uri".to_vec(), id32(9));
    assert!(matches!(r, Err(BridgeError::IdentifierConflict)));
    assert_eq!(b.registry.total_supply, 1);
    let r0 = b.mint(0, id32(BOB), b"Zero".to_vec(), b"Z".to_vec(), b"uri".to_vec(), id32(9));
    assert!(matches!(r0, Err(BridgeError::IdentifierConflict)));
}

#[test]
fn mint_colliding_with_inbound_record_fails_identifier_conflict() {
    let mut b = fresh_bridge();
    let incoming = encode(&CrossChainMessage {
        token_id: 50,
        name: b"Comet".to_vec(),
        symbol: b"CMT".to_vec(),
        uri: b"ipfs://comet".to_vec(),
        receiver: id32(BOB),
        source_chain_tag: 5,
    });
    b.on_receive(&id32(GATEWAY), &addr20(0xF0), incoming, id32(2)).unwrap();
    // the inbound identifier sits above the watermark, yet a local mint of it is refused
    assert_eq!(b.registry.next_token_id, 1);
    let r = b.mint(50, id32(ALICE), b"Mine".to_vec(), b"M".to_vec(), b"uri".to_vec(), id32(9));
    assert!(matches!(r, Err(BridgeError::IdentifierConflict)));
}

#[test]
fn cancel_transfer_rolls_the_lock_back() {
    let mut b = bridge_with_token();
    b.initiate_transfer(1, 7, addr20(0xE7), &id32(ALICE), 1000).unwrap();
    b.cancel_transfer(1, &id32(ALICE)).expect("the owner may roll back");
    assert!(matches!(status_of(&b, 1), TokenStatus::Active));
    assert_eq!(b.registry.total_supply, 1);
    assert!(matches!(b.log.entry(2), BridgeEvent::TransferAborted { token_id: 1 }));
    // and the token can travel again afterwards
    b.initiate_transfer(1, 8, addr20(0xE8), &id32(ALICE), 3000).unwrap();
}

#[test]
fn cancel_by_non_owner_fails_not_owner() {
    let mut b = bridge_with_token();
    b.initiate_transfer(1, 7, addr20(0xE7), &id32(ALICE), 1000).unwrap();
    let r = b.cancel_transfer(1, &id32(BOB));
    assert!(matches!(r, Err(BridgeError::NotOwner)));
    assert!(matches!(status_of(&b, 1), TokenStatus::InTransit));
}

#[test]
fn allocate_id_is_monotonic_and_fresh() {
    let mut b = fresh_bridge();
    let a = b.registry.allocate_id();
    let c = b.registry.allocate_id();
    assert_eq!(a, 1);
    assert_eq!(c, 2);
    assert_eq!(b.registry.next_token_id, 3);
}

#[test]
fn watermark_never_decreases_across_operations() {
    let mut b = fresh_bridge();
    let mut last = b.registry.next_token_id;
    b.mint(10, id32(ALICE), b"A".to_vec(), b"A".to_vec(), b"a".to_vec(), id32(1)).unwrap();
    assert!(b.registry.next_token_id >= last);
    last = b.registry.next_token_id;
    b.initiate_transfer(10, 7, addr20(2), &id32(ALICE), 1).unwrap();
    assert!(b.registry.next_token_id >= last);
    last = b.registry.next_token_id;
    b.cancel_transfer(10, &id32(ALICE)).unwrap();
    assert!(b.registry.next_token_id >= last);
    last = b.registry.next_token_id;
    b.mint(11, id32(ALICE), b"B".to_vec(), b"B".to_vec(), b"b".to_vec(), id32(1)).unwrap();
    assert!(b.registry.next_token_id >= last);
}

#[test]
fn no_two_records_share_an_identifier() {
    let mut b = fresh_bridge();
    b.mint(1, id32(ALICE), b"A".to_vec(), b"A".to_vec(), b"a".to_vec(), id32(1)).unwrap();
    b.mint(2, id32(ALICE), b"B".to_vec(), b"B".to_vec(), b"b".to_vec(), id32(1)).unwrap();
    b.initiate_transfer(1, 7, addr20(2), &id32(ALICE), 1).unwrap();
    b.registry.finalize_burn(1).unwrap();
    // even after a burn, identifier 1 is never reissued
    let r = b.mint(1, id32(BOB), b"C".to_vec(), b"C".to_vec(), b"c".to_vec(), id32(1));
    assert!(matches!(r, Err(BridgeError::IdentifierConflict)));
    for i in 0..b.registry.records.len() {
        for j in (i + 1)..b.registry.records.len() {
            assert_ne!(b.registry.records[i].token_id, b.registry.records[j].token_id);
        }
    }
}

#[test]
fn supply_equals_active_count_after_every_operation() {
    let mut b = fresh_bridge();
    let check = |b: &Bridge| {
        let active = b.registry.records.iter().filter(|r| matches!(r.status, TokenStatus::Active)).count();
        assert_eq!(b.registry.total_supply as usize, active);
    };
    check(&b);
    b.mint(1, id32(ALICE), b"A".to_vec(), b"A".to_vec(), b"a".to_vec(), id32(1)).unwrap();
    check(&b);
    let packet = b.initiate_transfer(1, 7, addr20(2), &id32(ALICE), 1).unwrap();
    check(&b);
    b.on_revert(&id32(GATEWAY), &id32(ALICE), 1, &packet.payload).unwrap();
    check(&b);
    b.initiate_transfer(1, 7, addr20(2), &id32(ALICE), 2).unwrap();
    check(&b);
    b.registry.finalize_burn(1).unwrap();
    check(&b);
    let incoming = encode(&CrossChainMessage {
        token_id: 9,
        name: b"X".to_vec(),
        symbol: b"X".to_vec(),
        uri: b"x".to_vec(),
        receiver: id32(BOB),
        source_chain_tag: 3,
    });
    b.on_receive(&id32(GATEWAY), &addr20(4), incoming, id32(5)).unwrap();
    check(&b);
}

#[test]
fn restore_of_active_record_fails_invalid_state() {
    let mut b = bridge_with_token();
    let r = b.registry.restore(1);
    assert!(matches!(r, Err(BridgeError::InvalidState)));
    let rf = b.registry.finalize_burn(1);
    assert!(matches!(rf, Err(BridgeError::InvalidState)));
    let rn = b.registry.restore(2);
    assert!(matches!(rn, Err(BridgeError::InvalidTokenId)));
}

#[test]
fn duplicate_delivery_stays_a_noop_after_the_token_moved_on() {
    let mut b = fresh_bridge();
    let incoming = encode(&CrossChainMessage {
        token_id: 99,
        name: b"Comet".to_vec(),
        symbol: b"CMT".to_vec(),
        uri: b"ipfs://comet".to_vec(),
        receiver: id32(BOB),
        source_chain_tag: 5,
    });
    b.on_receive(&id32(GATEWAY), &addr20(0xF0), incoming.clone(), id32(2)).unwrap();
    // the received token travels out again, held by its new owner
    b.initiate_transfer(99, 7, addr20(0xE7), &id32(BOB), 2000).unwrap();
    assert!(matches!(status_of(&b, 99), TokenStatus::InTransit));
    // a late duplicate of the old delivery must not disturb the lock
    let replay = b.on_receive(&id32(GATEWAY), &addr20(0xF0), incoming, id32(2)).unwrap();
    assert!(replay.is_none());
    assert!(matches!(status_of(&b, 99), TokenStatus::InTransit));
    assert_eq!(b.registry.total_supply, 0);
}

#[test]
fn revert_with_tampered_payload_only_notes() {
    let mut b = bridge_with_token();
    let packet = b.initiate_transfer(1, 7, addr20(0xE7), &id32(ALICE), 1000).unwrap();
    // a decodable payload naming the right token, but not the bytes that were sent
    let tampered = encode(&CrossChainMessage {
        token_id: 1,
        name: b"Dragon".to_vec(),
        symbol: b"DRG".to_vec(),
        uri: b"ipfs://dragon".to_vec(),
        receiver: addr20(0xE8),
        source_chain_tag: HOME_CHAIN_TAG,
    });
    assert_ne!(tampered, packet.payload);
    let restored = b.on_revert(&id32(GATEWAY), &id32(ALICE), 1, &tampered).unwrap();
    assert!(!restored);
    assert!(matches!(status_of(&b, 1), TokenStatus::InTransit));
    assert_eq!(b.registry.total_supply, 0);
}

#[test]
fn transfer_to_home_identity_receiver_round_trips() {
    let mut b = bridge_with_token();
    let packet = b.initiate_transfer(1, 3, id32(0xC3), &id32(ALICE), 500).unwrap();
    let m = decode(&packet.payload).unwrap();
    assert_eq!(m.receiver, id32(0xC3));
    assert_eq!(m.token_id, 1);
}

#[test]
fn event_log_is_append_only_and_ordered() {
    let mut b = bridge_with_token();
    let packet = b.initiate_transfer(1, 7, addr20(2), &id32(ALICE), 1).unwrap();
    b.on_revert(&id32(GATEWAY), &id32(ALICE), 1, &packet.payload).unwrap();
    assert_eq!(b.log.len(), 3);
    assert!(matches!(b.log.entry(0), BridgeEvent::Minted { token_id: 1, .. }));
    assert!(matches!(b.log.entry(1), BridgeEvent::TransferInitiated { token_id: 1, .. }));
    assert!(matches!(b.log.entry(2), BridgeEvent::TransferReverted { token_id: 1, .. }));
}
