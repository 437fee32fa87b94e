use saito::{
    command_of, error_message, handshake_init_fields, handshake_signed_parts, ok_message,
    peer_msg_action, propagation_targets, result_message, socket_handshake_complete,
    socket_receive_transaction, socket_send_blockchain, wire_name, APIMessage, AddTransactionResult,
    Block, BlockCore, Command, CommandOutcome, CommandWork, TopicsRequest, work_for,
};

const RESULT: [u8; 8] = *b"RESULT__";
const ERROR: [u8; 8] = *b"ERROR___";

fn message(data: Vec<u8>) -> APIMessage {
    APIMessage { message_name: *b"REQCHAIN", message_id: 77, message_data: data }
}

fn block(hash: u8, previous: u8) -> Block {
    let core = BlockCore::from_parts(0, 0, [previous; 32], [0u8; 33], [0u8; 32], [0u8; 64], 0, 0, 0);
    Block::from_parts(core, vec![], [hash; 32], true)
}

fn chain_request(requested: u8) -> APIMessage {
    let mut data = vec![requested; 32];
    data.extend_from_slice(&[0u8; 32]);
    message(data)
}

#[test]
fn every_command_name_is_read_back() {
    let commands = [
        (Command::HandshakeInit, b"SHAKINIT"),
        (Command::HandshakeComplete, b"SHAKCOMP"),
        (Command::SendTransaction, b"SENDTRXN"),
        (Command::RequestChain, b"REQCHAIN"),
        (Command::SendChain, b"SNDCHAIN"),
        (Command::RequestBlockHeader, b"REQBLKHD"),
        (Command::SendBlockHeader, b"SNDBLKHD"),
        (Command::SendTransactions, b"SNDTRANS"),
        (Command::RequestBlock, b"REQBLOCK"),
        (Command::SendKeychain, b"SNDKYCHN"),
    ];
    for (command, name) in commands.iter() {
        assert_eq!(wire_name(*command), **name);
        assert_eq!(command_of(name), *command);
    }
}

#[test]
fn other_names_are_unknown() {
    assert_eq!(command_of(b"shakinit"), Command::Unknown);
    assert_eq!(command_of(b"RESULT__"), Command::Unknown);
    assert_eq!(command_of(&[0xff; 8]), Command::Unknown);
}

#[test]
fn reply_messages() {
    let r = result_message(3, vec![1, 2]);
    assert_eq!((r.message_name, r.message_id, r.message_data), (RESULT, 3, vec![1, 2]));
    let ok = ok_message(4);
    assert_eq!((ok.message_name, ok.message_id, ok.message_data), (RESULT, 4, b"OK".to_vec()));
    let e = error_message(5);
    assert_eq!((e.message_name, e.message_id, e.message_data), (ERROR, 5, b"ERROR".to_vec()));
}

#[test]
fn handshake_challenge_is_sent_back() {
    let a = peer_msg_action(9, CommandOutcome::HandshakeChallenge(Some(vec![4, 5])));
    let m = a.reply.unwrap();
    assert_eq!((m.message_name, m.message_id, m.message_data), (RESULT, 9, vec![4, 5]));
    assert!(!a.mark_handshake && !a.propagate);
    let none = peer_msg_action(9, CommandOutcome::HandshakeChallenge(None));
    assert!(none.reply.is_none() && !none.mark_handshake && !none.propagate);
}

#[test]
fn completed_handshake_is_acknowledged() {
    let a = peer_msg_action(2, CommandOutcome::HandshakeComplete(Some([1u8; 32])));
    let m = a.reply.unwrap();
    assert_eq!((m.message_name, m.message_id, m.message_data), (RESULT, 2, b"OK".to_vec()));
    assert!(a.mark_handshake && !a.propagate);
    let failed = peer_msg_action(2, CommandOutcome::HandshakeComplete(None));
    assert!(failed.reply.is_none() && !failed.mark_handshake && !failed.propagate);
}

#[test]
fn accepted_transactions_are_passed_on() {
    for result in [AddTransactionResult::Accepted, AddTransactionResult::Exists] {
        let a = peer_msg_action(11, CommandOutcome::TransactionAdded(result));
        let m = a.reply.unwrap();
        assert_eq!((m.message_name, m.message_id, m.message_data), (RESULT, 11, b"OK".to_vec()));
        assert!(a.propagate && a.mark_handshake);
    }
    for result in [AddTransactionResult::Invalid, AddTransactionResult::Rejected] {
        let a = peer_msg_action(11, CommandOutcome::TransactionAdded(result));
        let m = a.reply.unwrap();
        assert_eq!((m.message_name, m.message_id, m.message_data), (ERROR, 11, b"ERROR".to_vec()));
        assert!(!a.propagate && a.mark_handshake);
    }
}

#[test]
fn chain_replies() {
    let a = peer_msg_action(12, CommandOutcome::ChainHashes(Some(vec![8; 32])));
    let m = a.reply.unwrap();
    assert_eq!((m.message_name, m.message_id, m.message_data), (RESULT, 12, vec![8; 32]));
    assert!(a.mark_handshake && !a.propagate);
    let e = peer_msg_action(12, CommandOutcome::ChainHashes(None));
    let m = e.reply.unwrap();
    assert_eq!((m.message_name, m.message_id, m.message_data), (ERROR, 12, b"ERROR".to_vec()));
    assert!(e.mark_handshake && !e.propagate);
}

#[test]
fn other_commands_get_no_reply() {
    let a = peer_msg_action(1, CommandOutcome::Ignored);
    assert!(a.reply.is_none() && !a.mark_handshake && !a.propagate);
}

#[test]
fn handshake_completes_only_when_fresh_and_signed() {
    let h = [5u8; 32];
    assert_eq!(socket_handshake_complete(60, 100, 50, true, true, h), Some(h));
    assert_eq!(socket_handshake_complete(50, 100, 50, true, true, h), Some(h));
    assert_eq!(socket_handshake_complete(49, 100, 50, true, true, h), None);
    assert_eq!(socket_handshake_complete(60, 100, 50, false, true, h), None);
    assert_eq!(socket_handshake_complete(60, 100, 50, true, false, h), None);
}

#[test]
fn handshake_init_fields_are_read() {
    let mut data = vec![10, 0, 0, 1];
    data.extend_from_slice(&[7u8; 33]);
    data.push(99);
    let f = handshake_init_fields(&message(data));
    assert_eq!(f.my_octets, [42, 42, 42, 42]);
    assert_eq!(f.peer_octets, [10, 0, 0, 1]);
    assert_eq!(f.peer_pubkey, [7u8; 33]);
}

#[test]
fn handshake_signed_parts_are_prefixes() {
    let data: Vec<u8> = (0..80u8).collect();
    let (with_sig, bare) = handshake_signed_parts(&message(data.clone()), 10);
    assert_eq!(with_sig, data[..74].to_vec());
    assert_eq!(bare, data[..10].to_vec());
}

#[test]
fn sender_is_not_propagated_to() {
    let peers = vec![[1u8; 32], [2u8; 32], [1u8; 32], [3u8; 32]];
    assert_eq!(propagation_targets(&peers, &[1u8; 32]), vec![[2u8; 32], [3u8; 32]]);
    assert_eq!(propagation_targets(&peers, &[9u8; 32]), peers);
}

#[test]
fn received_transaction_keeps_the_payload() {
    let tx = socket_receive_transaction(message(vec![1, 2, 3])).unwrap();
    assert_eq!(tx.serialize_for_net(), vec![1, 2, 3]);
}

#[test]
fn no_latest_block_no_reply() {
    assert_eq!(socket_send_blockchain(&chain_request(1), None, &vec![]), None);
}

#[test]
fn peer_already_at_latest_block() {
    let latest = block(1, 0);
    assert_eq!(socket_send_blockchain(&chain_request(1), Some(&latest), &vec![]), Some(vec![]));
}

#[test]
fn chain_is_walked_down_to_the_requested_block() {
    let latest = block(4, 3);
    let blocks = vec![block(2, 1), block(3, 2), block(1, 0)];
    let mut expected = vec![4u8; 32];
    expected.extend_from_slice(&[3u8; 32]);
    expected.extend_from_slice(&[2u8; 32]);
    assert_eq!(socket_send_blockchain(&chain_request(1), Some(&latest), &blocks), Some(expected));
}

#[test]
fn chain_walk_stops_at_an_unknown_parent() {
    let latest = block(4, 3);
    let blocks = vec![block(3, 2)];
    let mut expected = vec![4u8; 32];
    expected.extend_from_slice(&[3u8; 32]);
    assert_eq!(socket_send_blockchain(&chain_request(9), Some(&latest), &blocks), Some(expected));
}

#[test]
fn topics_request_keeps_its_topics() {
    let request = TopicsRequest::new(vec!["blocks".to_string()]);
    assert_eq!(request.into_topics(), vec!["blocks".to_string()]);
}

#[test]
fn each_command_calls_for_its_work() {
    assert_eq!(work_for(Command::HandshakeInit), CommandWork::SignChallenge);
    assert_eq!(work_for(Command::HandshakeComplete), CommandWork::CompleteHandshake);
    assert_eq!(work_for(Command::SendTransaction), CommandWork::AddTransaction);
    assert_eq!(work_for(Command::RequestChain), CommandWork::SendChain);
    for command in [
        Command::SendChain,
        Command::RequestBlockHeader,
        Command::SendBlockHeader,
        Command::SendTransactions,
        Command::RequestBlock,
        Command::SendKeychain,
        Command::Unknown,
    ] {
        assert_eq!(work_for(command), CommandWork::Nothing);
    }
}

#[test]
fn chain_reply_ignores_everything_after_the_requested_hash() {
    let latest = block(4, 3);
    let blocks = vec![block(3, 2)];
    let mut other = chain_request(9);
    other.message_data[40] = 1;
    other.message_data.push(5);
    other.message_id = 1;
    other.message_name = *b"SHAKINIT";
    assert_eq!(
        socket_send_blockchain(&chain_request(9), Some(&latest), &blocks),
        socket_send_blockchain(&other, Some(&latest), &blocks)
    );
}
