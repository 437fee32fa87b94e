//! Blocks, transactions and the peer-message logic of a Saito node.

pub mod block;
pub mod crypto;
pub mod mempool;
pub mod networking;
pub mod transaction;

pub use block::{Block, BlockCore};
pub use crypto::{SaitoHash, SaitoPublicKey, SaitoSignature};
pub use mempool::AddTransactionResult;
pub use networking::api::{command_of, error_message, ok_message, result_message, wire_name, APIMessage, Command};
pub use networking::socket::{
    handshake_init_fields, handshake_signed_parts, peer_msg_action, propagation_targets,
    socket_handshake_complete, socket_receive_transaction, socket_send_blockchain, work_for, CommandOutcome, CommandWork,
    HandshakeInitFields, PeerAction, TopicsRequest,
};
pub use transaction::Transaction;
