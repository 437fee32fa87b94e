use saito::{Block, BlockCore, Transaction};

fn core_with(previous: [u8; 32]) -> BlockCore {
    BlockCore::from_parts(7, 1000, previous, [1u8; 33], [2u8; 32], [3u8; 64], 10, 20, 30)
}

#[test]
fn block_core_new_is_all_zero() {
    let parts = BlockCore::new().into_parts();
    assert_eq!(parts.0, 0);
    assert_eq!(parts.1, 0);
    assert_eq!(parts.2, [0u8; 32]);
    assert_eq!(parts.3, [0u8; 33]);
    assert_eq!(parts.4, [0u8; 32]);
    assert_eq!(parts.5, [0u8; 64]);
    assert_eq!((parts.6, parts.7, parts.8), (0, 0, 0));
}

#[test]
fn block_new_is_empty() {
    let block = Block::new();
    assert_eq!(block.get_hash(), [0u8; 32]);
    assert_eq!(block.get_previous_block_hash(), [0u8; 32]);
    let (core, transactions, hash, lc) = block.into_parts();
    assert_eq!(core.into_parts().0, 0);
    assert!(transactions.is_empty());
    assert_eq!(hash, [0u8; 32]);
    assert!(!lc);
}

#[test]
fn get_id_reads_back_set_id() {
    let mut block = Block::new();
    assert_eq!(block.get_id(), 0);
    block.set_id(5);
    assert_eq!(block.get_id(), 5);
    block.set_id(u64::MAX);
    assert_eq!(block.get_id(), u64::MAX);
    let (core, _, _, _) = block.into_parts();
    assert_eq!(core.into_parts().0, u64::MAX);
}

#[test]
fn setters_write_only_their_field() {
    let tx = Transaction::deserialize_from_net(vec![9, 9]);
    let mut block = Block::from_parts(core_with([4u8; 32]), vec![tx], [5u8; 32], true);
    block.set_timestamp(2000);
    block.set_previous_block_hash([6u8; 32]);
    assert_eq!(block.get_previous_block_hash(), [6u8; 32]);
    assert_eq!(block.get_hash(), [5u8; 32]);
    let (core, transactions, hash, lc) = block.into_parts();
    let parts = core.into_parts();
    assert_eq!(parts.0, 7);
    assert_eq!(parts.1, 2000);
    assert_eq!(parts.2, [6u8; 32]);
    assert_eq!(parts.3, [1u8; 33]);
    assert_eq!(parts.4, [2u8; 32]);
    assert_eq!(parts.5, [3u8; 64]);
    assert_eq!((parts.6, parts.7, parts.8), (10, 20, 30));
    assert_eq!(transactions.len(), 1);
    assert_eq!(transactions[0].serialize_for_net(), vec![9, 9]);
    assert_eq!(hash, [5u8; 32]);
    assert!(lc);
}

#[test]
fn set_hash_resets_the_hash_to_zero() {
    let mut block = Block::from_parts(core_with([4u8; 32]), vec![], [5u8; 32], false);
    block.set_hash();
    assert_eq!(block.get_hash(), [0u8; 32]);
    assert_eq!(block.get_previous_block_hash(), [4u8; 32]);
}

#[test]
fn writes_to_different_fields_commute() {
    let mut a = Block::new();
    a.set_id(3);
    a.set_timestamp(4);
    let mut b = Block::new();
    b.set_timestamp(4);
    b.set_id(3);
    let pa = a.into_parts().0.into_parts();
    let pb = b.into_parts().0.into_parts();
    assert_eq!((pa.0, pa.1), (pb.0, pb.1));
}

#[test]
fn last_write_wins() {
    let mut block = Block::new();
    block.set_previous_block_hash([1u8; 32]);
    block.set_previous_block_hash([2u8; 32]);
    assert_eq!(block.get_previous_block_hash(), [2u8; 32]);
}

#[test]
fn transaction_keeps_its_network_bytes() {
    let tx = Transaction::deserialize_from_net(vec![1, 2, 3]);
    assert_eq!(tx.serialize_for_net(), vec![1, 2, 3]);
}

#[test]
fn parts_round_trip() {
    let core = core_with([4u8; 32]);
    let block = Block::from_parts(core.clone(), vec![Transaction::deserialize_from_net(vec![1])], [5u8; 32], true);
    let copy = block.clone();
    let (core2, transactions, hash, lc) = block.into_parts();
    assert!(core2 == core);
    assert!(transactions == vec![Transaction::deserialize_from_net(vec![1])]);
    assert_eq!((hash, lc), ([5u8; 32], true));
    assert!(Block::from_parts(core2, transactions, hash, lc) == copy);
}
