use vstd::prelude::*;

use crate::block::{Block, BlockView};
use crate::crypto::{hash_at, hash_eq, SaitoHash, SaitoPublicKey};
use crate::mempool::AddTransactionResult;
use crate::networking::api::{Command, error_message, ok_message, result_message, ok_text, APIMessage};
use crate::transaction::Transaction;

verus! {

/// What each block in `blocks` holds.
pub open spec fn block_views(blocks: Seq<Block>) -> Seq<BlockView> {
    blocks.map_values(|b: Block| b@)
}

/// The first block in `blocks` whose own hash is `hash`, if there is one.
pub open spec fn block_with_hash(blocks: Seq<BlockView>, hash: Seq<u8>) -> Option<BlockView>
    decreases blocks.len(),
{
    if blocks.len() == 0 {
        None
    } else if blocks[0].hash == hash {
        Some(blocks[0])
    } else {
        block_with_hash(blocks.drop_first(), hash)
    }
}

/// A block found by its hash has that hash.
pub proof fn lemma_block_with_hash(blocks: Seq<BlockView>, hash: Seq<u8>)
    ensures
        block_with_hash(blocks, hash) matches Some(b) ==> b.hash == hash && blocks.contains(b),
    decreases blocks.len(),
{
    if blocks.len() > 0 && blocks[0].hash != hash {
        lemma_block_with_hash(blocks.drop_first(), hash);
        if let Some(b) = block_with_hash(blocks.drop_first(), hash) {
            let k = choose|k: int| 0 <= k < blocks.drop_first().len() && blocks.drop_first()[k] == b;
            assert(blocks[k + 1] == b);
        }
    }
    if blocks.len() > 0 && blocks[0].hash == hash {
        assert(blocks.contains(blocks[0]));
    }
}

/// Walks back from the block whose hash is `from`, parent by parent, and
/// gives the hashes of the blocks it passes, in that order. The walk stops at
/// a hash that names no block in `blocks`, or at `stop`, neither of which it
/// lists. `None` when the walk takes more than `fuel` steps.
pub open spec fn hashes_walked(blocks: Seq<BlockView>, from: Seq<u8>, stop: Seq<u8>, fuel: nat) -> Option<Seq<u8>>
    decreases fuel,
{
    match block_with_hash(blocks, from) {
        None => Some(Seq::empty()),
        Some(b) => if from == stop {
            Some(Seq::empty())
        } else if fuel == 0 {
            None
        } else {
            match hashes_walked(blocks, b.core.previous_block_hash, stop, (fuel - 1) as nat) {
                Some(rest) => Some(b.hash + rest),
                None => None,
            }
        },
    }
}

/// The walk back from `from` ends: it does not go round a cycle of parent hashes forever.
pub open spec fn walk_ends(blocks: Seq<BlockView>, from: Seq<u8>, stop: Seq<u8>) -> bool {
    exists|fuel: nat| #[trigger] hashes_walked(blocks, from, stop, fuel) is Some
}

/// The hashes passed on the walk back from `from` to `stop`, where that walk ends.
pub open spec fn ancestor_hashes(blocks: Seq<BlockView>, from: Seq<u8>, stop: Seq<u8>) -> Seq<u8> {
    hashes_walked(blocks, from, stop, choose|fuel: nat| #[trigger] hashes_walked(blocks, from, stop, fuel) is Some).unwrap()
}

/// More steps do not change a walk that has already ended.
pub proof fn lemma_walk_more_fuel(blocks: Seq<BlockView>, from: Seq<u8>, stop: Seq<u8>, fuel: nat, more: nat)
    requires
        hashes_walked(blocks, from, stop, fuel) is Some,
        fuel <= more,
    ensures
        hashes_walked(blocks, from, stop, more) == hashes_walked(blocks, from, stop, fuel),
    decreases fuel,
{
    if let Some(b) = block_with_hash(blocks, from) {
        if from != stop {
            lemma_walk_more_fuel(blocks, b.core.previous_block_hash, stop, (fuel - 1) as nat, (more - 1) as nat);
        }
    }
}

/// A walk that ends within `fuel` steps lists the ancestor hashes.
pub proof fn lemma_ancestor_hashes(blocks: Seq<BlockView>, from: Seq<u8>, stop: Seq<u8>, fuel: nat)
    requires
        hashes_walked(blocks, from, stop, fuel) is Some,
    ensures
        walk_ends(blocks, from, stop),
        ancestor_hashes(blocks, from, stop) == hashes_walked(blocks, from, stop, fuel).unwrap(),
{
    let chosen = choose|f: nat| #[trigger] hashes_walked(blocks, from, stop, f) is Some;
    if chosen <= fuel {
        lemma_walk_more_fuel(blocks, from, stop, chosen, fuel);
    } else {
        lemma_walk_more_fuel(blocks, from, stop, fuel, chosen);
    }
}

/// What a node answers a peer that asks for the chain above the block `requested`:
/// nothing when it has no latest block; no hashes when the latest block is the
/// requested one; else the latest block's hash followed by the hashes of its
/// ancestors down to `requested` or to the first parent the node does not hold.
pub open spec fn blockchain_reply(latest: Option<BlockView>, blocks: Seq<BlockView>, requested: Seq<u8>) -> Option<Seq<u8>> {
    match latest {
        None => None,
        Some(target) => if target.hash == requested {
            Some(Seq::empty())
        } else {
            Some(target.hash + ancestor_hashes(blocks, target.core.previous_block_hash, requested))
        },
    }
}

/// Every block in `blocks` carries a 32-byte hash, as every `Block` does.
pub open spec fn hashes_are_32_bytes(blocks: Seq<BlockView>) -> bool {
    forall|i: int| 0 <= i < blocks.len() ==> (#[trigger] blocks[i]).hash.len() == 32
}

/// Blocks have 32-byte hashes.
pub proof fn lemma_block_views_have_32_byte_hashes(blocks: Seq<Block>)
    ensures
        hashes_are_32_bytes(block_views(blocks)),
{
    assert forall|i: int| 0 <= i < block_views(blocks).len() implies (#[trigger] block_views(blocks)[i]).hash.len() == 32 by {
        blocks[i].lemma_well_formed();
    }
}

/// The `k`-th 32-byte hash in a run of hashes.
pub open spec fn hash_in(hashes: Seq<u8>, k: int) -> Seq<u8> {
    hashes.subrange(32 * k, 32 * k + 32)
}

/// The hashes a walk lists are whole 32-byte hashes, none of them `stop`;
/// the first is `from`, each names a block in `blocks`, and each after the
/// first is the parent hash of the block named before it.
proof fn lemma_walk_shape(blocks: Seq<BlockView>, from: Seq<u8>, stop: Seq<u8>, fuel: nat)
    requires
        hashes_are_32_bytes(blocks),
        hashes_walked(blocks, from, stop, fuel) is Some,
    ensures
        ({
            let walked = hashes_walked(blocks, from, stop, fuel).unwrap();
            let n = walked.len() / 32;
            &&& walked.len() % 32 == 0
            &&& n > 0 ==> hash_in(walked, 0) == from
            &&& forall|k: int| 0 <= k < n ==> #[trigger] hash_in(walked, k) != stop
            &&& forall|k: int| 0 <= k < n ==> block_with_hash(blocks, #[trigger] hash_in(walked, k)) is Some
            &&& forall|k: int| 0 <= k < n - 1 ==> block_with_hash(blocks, #[trigger] hash_in(walked, k)).unwrap().core.previous_block_hash
                == hash_in(walked, k + 1)
            &&& n == 0 ==> (block_with_hash(blocks, from) is None || from == stop)
            &&& n > 0 ==> ({
                let last_parent = block_with_hash(blocks, hash_in(walked, n - 1)).unwrap().core.previous_block_hash;
                last_parent == stop || block_with_hash(blocks, last_parent) is None
            })
        }),
    decreases fuel,
{
    lemma_block_with_hash(blocks, from);
    if let Some(b) = block_with_hash(blocks, from) {
        if from != stop && fuel > 0 {
            let next = b.core.previous_block_hash;
            lemma_walk_shape(blocks, next, stop, (fuel - 1) as nat);
            let rest = hashes_walked(blocks, next, stop, (fuel - 1) as nat).unwrap();
            let walked = b.hash + rest;
            let n = walked.len() / 32;
            let i = choose|i: int| 0 <= i < blocks.len() && blocks[i] == b;
            assert(blocks[i].hash.len() == 32);
            assert(hash_in(walked, 0) =~= b.hash);
            assert forall|k: int| 1 <= k < n implies #[trigger] hash_in(walked, k) == hash_in(rest, k - 1) by {
                assert(hash_in(walked, k) =~= hash_in(rest, k - 1));
            }
            assert forall|k: int| 0 <= k < n implies #[trigger] hash_in(walked, k) != stop by {
                if k > 0 {
                    assert(hash_in(walked, k) == hash_in(rest, k - 1));
                }
            }
            assert forall|k: int| 0 <= k < n implies block_with_hash(blocks, #[trigger] hash_in(walked, k)) is Some by {
                if k > 0 {
                    assert(hash_in(walked, k) == hash_in(rest, k - 1));
                }
            }
            assert forall|k: int| 0 <= k < n - 1 implies block_with_hash(blocks, #[trigger] hash_in(walked, k)).unwrap().core.previous_block_hash
                == hash_in(walked, k + 1) by {
                assert(hash_in(walked, k + 1) == hash_in(rest, k));
                if k > 0 {
                    assert(hash_in(walked, k) == hash_in(rest, k - 1));
                }
            }
            if n > 1 {
                assert(hash_in(walked, n - 1) == hash_in(rest, n - 2));
            }
        }
    }
}

/// A reply to a chain request lists whole 32-byte hashes, never the hash of
/// the block the peer said it holds. It is empty exactly when the latest
/// block is the requested one; else it starts at the node's latest block,
/// each hash after the first is the parent hash of the block before it, a
/// block that `blocks` holds, and it goes on until the last block's parent is
/// the requested block or one that `blocks` does not hold.
pub proof fn law_chain_reply_is_a_chain(latest: BlockView, blocks: Seq<BlockView>, requested: Seq<u8>)
    requires
        latest.hash.len() == 32,
        hashes_are_32_bytes(blocks),
        latest.hash != requested ==> walk_ends(blocks, latest.core.previous_block_hash, requested),
    ensures
        blockchain_reply(Some(latest), blocks, requested) matches Some(reply) && ({
            let n = reply.len() / 32;
            &&& reply.len() % 32 == 0
            &&& forall|k: int| 0 <= k < n ==> #[trigger] hash_in(reply, k) != requested
            &&& n > 0 ==> hash_in(reply, 0) == latest.hash
            &&& n > 1 ==> hash_in(reply, 1) == latest.core.previous_block_hash
            &&& forall|k: int| 1 <= k < n ==> block_with_hash(blocks, #[trigger] hash_in(reply, k)) is Some
            &&& forall|k: int| 1 <= k < n - 1 ==> block_with_hash(blocks, #[trigger] hash_in(reply, k)).unwrap().core.previous_block_hash
                == hash_in(reply, k + 1)
            &&& (n == 0 <==> latest.hash == requested)
            &&& n == 1 ==> (latest.core.previous_block_hash == requested
                || block_with_hash(blocks, latest.core.previous_block_hash) is None)
            &&& n > 1 ==> ({
                let last_parent = block_with_hash(blocks, hash_in(reply, n - 1)).unwrap().core.previous_block_hash;
                last_parent == requested || block_with_hash(blocks, last_parent) is None
            })
        }),
{
    if latest.hash != requested {
        let start = latest.core.previous_block_hash;
        let fuel = choose|fuel: nat| #[trigger] hashes_walked(blocks, start, requested, fuel) is Some;
        lemma_walk_shape(blocks, start, requested, fuel);
        let rest = ancestor_hashes(blocks, start, requested);
        let reply = latest.hash + rest;
        let n = reply.len() / 32;
        assert(hash_in(reply, 0) =~= latest.hash);
        assert forall|k: int| 1 <= k < n implies #[trigger] hash_in(reply, k) == hash_in(rest, k - 1) by {
            assert(hash_in(reply, k) =~= hash_in(rest, k - 1));
        }
        assert forall|k: int| 0 <= k < n implies #[trigger] hash_in(reply, k) != requested by {
            if k > 0 {
                assert(hash_in(reply, k) == hash_in(rest, k - 1));
            }
        }
        assert forall|k: int| 1 <= k < n implies block_with_hash(blocks, #[trigger] hash_in(reply, k)) is Some by {
            assert(hash_in(reply, k) == hash_in(rest, k - 1));
        }
        assert forall|k: int| 1 <= k < n - 1 implies block_with_hash(blocks, #[trigger] hash_in(reply, k)).unwrap().core.previous_block_hash
            == hash_in(reply, k + 1) by {
            assert(hash_in(reply, k) == hash_in(rest, k - 1));
            assert(hash_in(reply, k + 1) == hash_in(rest, k));
        }
        if n > 1 {
            assert(hash_in(reply, 1) == hash_in(rest, 0));
            assert(hash_in(reply, n - 1) == hash_in(rest, n - 2));
        }
    }
}

/// A chain reply depends on the request only through its first 32 bytes: the
/// fork id, any bytes after it, and the message's name and id do not change it.
pub proof fn law_chain_reply_reads_only_the_requested_hash(
    first: APIMessage,
    second: APIMessage,
    latest: Option<BlockView>,
    blocks: Seq<BlockView>,
)
    requires
        first.message_data@.len() >= 64,
        second.message_data@.len() >= 64,
        first.message_data@.subrange(0, 32) == second.message_data@.subrange(0, 32),
    ensures
        blockchain_reply(latest, blocks, first.message_data@.subrange(0, 32))
            == blockchain_reply(latest, blocks, second.message_data@.subrange(0, 32)),
{
}

/// The index of the first block in `blocks` whose hash is `hash`.
fn find_block(blocks: &Vec<Block>, hash: &SaitoHash) -> (index: Option<usize>)
    ensures
        match index {
            Some(i) => i < blocks@.len() && block_with_hash(block_views(blocks@), hash@) == Some(blocks@[i as int]@),
            None => block_with_hash(block_views(blocks@), hash@) is None,
        },
{
    let ghost views = block_views(blocks@);
    let mut i: usize = 0;
    assert(views.skip(0) =~= views);
    while i < blocks.len()
        invariant
            0 <= i <= blocks@.len(),
            views == block_views(blocks@),
            views.len() == blocks@.len(),
            block_with_hash(views, hash@) == block_with_hash(views.skip(i as int), hash@),
        decreases blocks@.len() - i,
    {
        let h = blocks[i].get_hash();
        assert(views.skip(i as int)[0] == blocks@[i as int]@);
        if hash_eq(&h, hash) {
            return Some(i);
        }
        assert(views.skip(i as int).drop_first() =~= views.skip(i + 1));
        i = i + 1;
    }
    None
}

/// Answers a peer's request for the chain. The first 32 bytes of the request
/// name the block the peer holds, the next 32 its fork id. `latest_block` is
/// the node's latest block and `blocks` those it can look up by hash.
pub fn socket_send_blockchain(message: &APIMessage, latest_block: Option<&Block>, blocks: &Vec<Block>) -> (reply: Option<Vec<u8>>)
    requires
        message.message_data@.len() >= 64,
        latest_block matches Some(t) ==> (t@.hash != message.message_data@.subrange(0, 32) ==> walk_ends(
            block_views(blocks@),
            t@.core.previous_block_hash,
            message.message_data@.subrange(0, 32),
        )),
    ensures
        reply is Some <==> latest_block is Some,
        reply matches Some(hashes) ==> Some(hashes@) == blockchain_reply(
            match latest_block { Some(t) => Some(t@), None => None },
            block_views(blocks@),
            message.message_data@.subrange(0, 32),
        ),
        reply matches Some(hashes) ==> latest_block matches Some(t) && ({
            let requested = message.message_data@.subrange(0, 32);
            let views = block_views(blocks@);
            let n = hashes@.len() / 32;
            &&& hashes@.len() % 32 == 0
            &&& (n == 0 <==> t@.hash == requested)
            &&& n > 0 ==> hash_in(hashes@, 0) == t@.hash
            &&& forall|k: int| 0 <= k < n ==> #[trigger] hash_in(hashes@, k) != requested
            &&& n == 1 ==> (t@.core.previous_block_hash == requested
                || block_with_hash(views, t@.core.previous_block_hash) is None)
            &&& n > 1 ==> ({
                let last_parent = block_with_hash(views, hash_in(hashes@, n - 1)).unwrap().core.previous_block_hash;
                last_parent == requested || block_with_hash(views, last_parent) is None
            })
        }),
{
    let block_hash = hash_at(message.message_data.as_slice(), 0);
    let _fork_id = hash_at(message.message_data.as_slice(), 32);
    let ghost views = block_views(blocks@);
    let ghost stop = block_hash@;
    match latest_block {
        None => None,
        Some(target_block) => {
            let mut hashes: Vec<u8> = Vec::new();
            let target_block_hash = target_block.get_hash();
            if !hash_eq(&target_block_hash, &block_hash) {
                hashes.extend_from_slice(target_block_hash.as_slice());
                let mut previous_block_hash = target_block.get_previous_block_hash();
                let ghost start = previous_block_hash@;
                let ghost mut fuel: nat = choose|fuel: nat| #[trigger] hashes_walked(views, start, stop, fuel) is Some;
                let ghost goal = target_block@.hash + ancestor_hashes(views, start, stop);
                assert(hashes@ =~= target_block@.hash);
                loop
                    invariant_except_break
                        views == block_views(blocks@),
                        stop == block_hash@,
                        hashes_walked(views, previous_block_hash@, stop, fuel) is Some,
                        hashes@ + hashes_walked(views, previous_block_hash@, stop, fuel).unwrap() == goal,
                    ensures
                        hashes@ == goal,
                    decreases fuel,
                {
                    match find_block(blocks, &previous_block_hash) {
                        None => {
                            assert(hashes@ =~= goal);
                            break;
                        },
                        Some(i) => {
                            if hash_eq(&previous_block_hash, &block_hash) {
                                assert(hashes@ =~= goal);
                                break;
                            }
                            let block = &blocks[i];
                            let ghost rest = hashes_walked(views, block@.core.previous_block_hash, stop, (fuel - 1) as nat).unwrap();
                            let ghost old_hashes = hashes@;
                            let h = block.get_hash();
                            hashes.extend_from_slice(h.as_slice());
                            previous_block_hash = block.get_previous_block_hash();
                            proof {
                                assert(hashes@ =~= old_hashes + block@.hash);
                                assert(old_hashes + block@.hash + rest =~= old_hashes + (block@.hash + rest));
                                fuel = (fuel - 1) as nat;
                            }
                        },
                    }
                }
            }
            proof {
                target_block.lemma_well_formed();
                lemma_block_views_have_32_byte_hashes(blocks@);
                law_chain_reply_is_a_chain(target_block@, views, stop);
            }
            Some(hashes)
        },
    }
}

/// Takes a transaction that a peer sent; every message yields one.
pub fn socket_receive_transaction(message: APIMessage) -> (tx: Option<Transaction>)
    ensures
        tx matches Some(t) && t@ == message.message_data@,
{
    let tx = Transaction::deserialize_from_net(message.message_data);
    Some(tx)
}

/// A request to subscribe to topics.
#[derive(Debug)]
pub struct TopicsRequest {
    topics: Vec<String>,
}

impl TopicsRequest {
    /// A request for the given topics.
    pub fn new(topics: Vec<String>) -> (request: TopicsRequest)
        ensures
            request.topics() == topics,
    {
        TopicsRequest { topics }
    }

    /// The topics asked for.
    pub closed spec fn topics(&self) -> Vec<String> {
        self.topics
    }

    /// The topics asked for, given back.
    pub fn into_topics(self) -> (topics: Vec<String>)
        ensures
            topics == self.topics(),
    {
        self.topics
    }
}

/// The fields that a handshake challenge is built from, read off a `SHAKINIT`
/// request: the node's own address, and the peer's address and public key.
pub struct HandshakeInitFields {
    pub my_octets: [u8; 4],
    pub peer_octets: [u8; 4],
    pub peer_pubkey: SaitoPublicKey,
}

/// Reads a handshake init request: the peer's IPv4 address in its first 4
/// bytes and its public key in the next 33. The node answers as 42.42.42.42.
pub fn handshake_init_fields(message: &APIMessage) -> (fields: HandshakeInitFields)
    requires
        message.message_data@.len() >= 37,
    ensures
        fields.my_octets@ == seq![42u8, 42, 42, 42],
        fields.peer_octets@ == message.message_data@.subrange(0, 4),
        fields.peer_pubkey@ == message.message_data@.subrange(4, 37),
{
    let data = &message.message_data;
    let mut peer_octets: [u8; 4] = [0u8; 4];
    let mut i: usize = 0;
    while i < 4
        invariant
            0 <= i <= 4,
            data@.len() >= 37,
            peer_octets@.len() == 4,
            forall|j: int| 0 <= j < i ==> peer_octets@[j] == data@[j],
        decreases 4 - i,
    {
        peer_octets[i] = data[i];
        i = i + 1;
    }
    let mut peer_pubkey: SaitoPublicKey = [0u8; 33];
    let mut k: usize = 0;
    while k < 33
        invariant
            0 <= k <= 33,
            data@.len() >= 37,
            peer_pubkey@.len() == 33,
            forall|j: int| 0 <= j < k ==> peer_pubkey@[j] == data@[4 + j],
        decreases 33 - k,
    {
        peer_pubkey[k] = data[4 + k];
        k = k + 1;
    }
    let my_octets: [u8; 4] = [42u8, 42, 42, 42];
    assert(my_octets@ =~= seq![42u8, 42, 42, 42]);
    assert(peer_octets@ =~= data@.subrange(0, 4));
    assert(peer_pubkey@ =~= data@.subrange(4, 37));
    HandshakeInitFields { my_octets, peer_octets, peer_pubkey }
}

/// The parts of a `SHAKCOMP` payload that the two signatures cover: the
/// challenge with the challenger's signature (`challenge_size + 64` bytes),
/// which the challengie signed, and the bare challenge, which the challenger signed.
pub fn handshake_signed_parts(message: &APIMessage, challenge_size: usize) -> (parts: (Vec<u8>, Vec<u8>))
    requires
        challenge_size + 64 <= message.message_data@.len(),
    ensures
        parts.0@ == message.message_data@.subrange(0, challenge_size + 64),
        parts.1@ == message.message_data@.subrange(0, challenge_size as int),
{
    let data = &message.message_data;
    let mut signed_by_challengie: Vec<u8> = Vec::new();
    let mut signed_by_challenger: Vec<u8> = Vec::new();
    let data_len = data.len();
    let end = challenge_size + 64;
    let mut i: usize = 0;
    while i < end
        invariant
            0 <= i <= end,
            end == challenge_size + 64,
            end <= data_len,
            data_len == data@.len(),
            signed_by_challengie@ == data@.subrange(0, i as int),
            signed_by_challenger@ == data@.subrange(0, if i <= challenge_size { i as int } else { challenge_size as int }),
        decreases end - i,
    {
        signed_by_challengie.push(data[i]);
        if i < challenge_size {
            signed_by_challenger.push(data[i]);
        }
        assert(signed_by_challengie@ =~= data@.subrange(0, i + 1));
        assert(signed_by_challenger@ =~= data@.subrange(0, if i + 1 <= challenge_size { i + 1 } else { challenge_size as int }));
        i = i + 1;
    }
    (signed_by_challengie, signed_by_challenger)
}

/// The outcome of a returned handshake: the payload's hash when the challenge
/// is fresh and both signatures hold, else nothing.
pub open spec fn handshake_outcome(
    challenge_timestamp: u64,
    now: u64,
    expiration: u64,
    challengie_signature_valid: bool,
    challenger_signature_valid: bool,
    message_hash: SaitoHash,
) -> Option<SaitoHash> {
    if challenge_timestamp >= now - expiration && challengie_signature_valid && challenger_signature_valid {
        Some(message_hash)
    } else {
        None
    }
}

/// Whether a returned handshake completes it: the challenge must not have
/// expired (its timestamp is at least `now - expiration`) and both signatures
/// must hold. Then the node keeps the hash of the whole payload.
pub fn socket_handshake_complete(
    challenge_timestamp: u64,
    now: u64,
    expiration: u64,
    challengie_signature_valid: bool,
    challenger_signature_valid: bool,
    message_hash: SaitoHash,
) -> (completed: Option<SaitoHash>)
    requires
        expiration <= now,
    ensures
        completed == handshake_outcome(
            challenge_timestamp,
            now,
            expiration,
            challengie_signature_valid,
            challenger_signature_valid,
            message_hash,
        ),
        completed is Some <==> (challenge_timestamp >= now - expiration && challengie_signature_valid
            && challenger_signature_valid),
        completed matches Some(h) ==> h == message_hash,
{
    if challenge_timestamp < now - expiration {
        return None;
    }
    if !challengie_signature_valid {
        return None;
    }
    if !challenger_signature_valid {
        return None;
    }
    Some(message_hash)
}

/// The peers that a transaction from `sender` is passed on to: all others, in order.
pub fn propagation_targets(peers: &Vec<SaitoHash>, sender: &SaitoHash) -> (targets: Vec<SaitoHash>)
    ensures
        targets@ == peers@.filter(|k: SaitoHash| k@ != sender@),
        forall|i: int| 0 <= i < targets@.len() ==> (#[trigger] targets@[i])@ != sender@,
        forall|i: int| 0 <= i < peers@.len() && (#[trigger] peers@[i])@ != sender@ ==> targets@.contains(peers@[i]),
{
    let ghost keep = |k: SaitoHash| k@ != sender@;
    let mut targets: Vec<SaitoHash> = Vec::new();
    let mut i: usize = 0;
    assert(peers@.take(0) =~= Seq::<SaitoHash>::empty());
    while i < peers.len()
        invariant
            0 <= i <= peers@.len(),
            keep == (|k: SaitoHash| k@ != sender@),
            targets@ == peers@.take(i as int).filter(keep),
        decreases peers@.len() - i,
    {
        let peer = peers[i];
        proof {
            assert(peers@.take(i + 1) =~= peers@.take(i as int).push(peer));
            peers@.take(i as int).lemma_filter_push(peer, keep);
        }
        if !hash_eq(&peer, sender) {
            targets.push(peer);
        }
        i = i + 1;
    }
    assert(peers@.take(peers@.len() as int) =~= peers@);
    proof {
        assert forall|i: int| 0 <= i < targets@.len() implies (#[trigger] targets@[i])@ != sender@ by {
            peers@.lemma_filter_pred(keep, i);
        }
        assert forall|i: int| 0 <= i < peers@.len() && (#[trigger] peers@[i])@ != sender@ implies targets@.contains(peers@[i]) by {
            peers@.lemma_filter_contains(keep, i);
        }
    }
    targets
}

/// The work that a peer's command calls for before it can be answered.
#[derive(Clone, Copy, Debug, PartialEq, Eq, Structural)]
pub enum CommandWork {
    /// Build and sign a handshake challenge from the request (`SHAKINIT`).
    SignChallenge,
    /// Check the returned, signed challenge (`SHAKCOMP`).
    CompleteHandshake,
    /// Take the transaction and offer it to the mempool (`SENDTRXN`).
    AddTransaction,
    /// Walk the chain down to the requested block (`REQCHAIN`).
    SendChain,
    /// Nothing: the command is accepted and left unanswered.
    Nothing,
}

/// The work each command calls for.
pub open spec fn work_for_spec(command: Command) -> CommandWork {
    match command {
        Command::HandshakeInit => CommandWork::SignChallenge,
        Command::HandshakeComplete => CommandWork::CompleteHandshake,
        Command::SendTransaction => CommandWork::AddTransaction,
        Command::RequestChain => CommandWork::SendChain,
        _ => CommandWork::Nothing,
    }
}

/// Decides the work that a peer's command calls for.
pub fn work_for(command: Command) -> (work: CommandWork)
    ensures
        work == work_for_spec(command),
{
    match command {
        Command::HandshakeInit => CommandWork::SignChallenge,
        Command::HandshakeComplete => CommandWork::CompleteHandshake,
        Command::SendTransaction => CommandWork::AddTransaction,
        Command::RequestChain => CommandWork::SendChain,
        _ => CommandWork::Nothing,
    }
}

/// The outcome of the work that a peer's message called for, handed back by
/// the code that did it.
pub enum CommandOutcome {
    /// `SHAKINIT`: the serialized, signed challenge, or `None` if none could be made.
    HandshakeChallenge(Option<Vec<u8>>),
    /// `SHAKCOMP`: what `socket_handshake_complete` gave.
    HandshakeComplete(Option<SaitoHash>),
    /// `SENDTRXN`: what the mempool made of the transaction.
    TransactionAdded(AddTransactionResult),
    /// `REQCHAIN`: what `socket_send_blockchain` gave.
    ChainHashes(Option<Vec<u8>>),
    /// Every other command: nothing was done.
    Ignored,
}

/// What to do after a peer's message: the reply to send back, whether the
/// peer now counts as having completed its handshake, and whether to pass
/// the message on to every other peer.
pub struct PeerAction {
    pub reply: Option<APIMessage>,
    pub mark_handshake: bool,
    pub propagate: bool,
}

/// Decides the reply to request `message_id`, given the outcome of its work.
pub fn peer_msg_action(message_id: u32, outcome: CommandOutcome) -> (action: PeerAction)
    ensures
        action.reply matches Some(m) ==> m.message_id == message_id,
        match outcome {
            CommandOutcome::HandshakeChallenge(Some(challenge)) => action.reply matches Some(m)
                && m.is_result(message_id, challenge@) && !action.mark_handshake && !action.propagate,
            CommandOutcome::HandshakeComplete(Some(_)) => action.reply matches Some(m)
                && m.is_result(message_id, ok_text()) && action.mark_handshake && !action.propagate,
            CommandOutcome::TransactionAdded(result) => {
                let accepted = result == AddTransactionResult::Accepted || result == AddTransactionResult::Exists;
                &&& action.mark_handshake
                &&& action.propagate == accepted
                &&& action.reply matches Some(m)
                &&& (if accepted { m.is_result(message_id, ok_text()) } else { m.is_error(message_id) })
            },
            CommandOutcome::ChainHashes(Some(hashes)) => action.reply matches Some(m)
                && m.is_result(message_id, hashes@) && action.mark_handshake && !action.propagate,
            CommandOutcome::ChainHashes(None) => action.reply matches Some(m) && m.is_error(message_id)
                && action.mark_handshake && !action.propagate,
            _ => action.reply is None && !action.mark_handshake && !action.propagate,
        },
{
    match outcome {
        CommandOutcome::HandshakeChallenge(Some(challenge)) => PeerAction {
            reply: Some(result_message(message_id, challenge)),
            mark_handshake: false,
            propagate: false,
        },
        CommandOutcome::HandshakeComplete(Some(_)) => PeerAction {
            reply: Some(ok_message(message_id)),
            mark_handshake: true,
            propagate: false,
        },
        CommandOutcome::TransactionAdded(result) => match result {
            AddTransactionResult::Accepted | AddTransactionResult::Exists => PeerAction {
                reply: Some(ok_message(message_id)),
                mark_handshake: true,
                propagate: true,
            },
            AddTransactionResult::Invalid | AddTransactionResult::Rejected => PeerAction {
                reply: Some(error_message(message_id)),
                mark_handshake: true,
                propagate: false,
            },
        },
        CommandOutcome::ChainHashes(Some(hashes)) => PeerAction {
            reply: Some(result_message(message_id, hashes)),
            mark_handshake: true,
            propagate: false,
        },
        CommandOutcome::ChainHashes(None) => PeerAction {
            reply: Some(error_message(message_id)),
            mark_handshake: true,
            propagate: false,
        },
        _ => PeerAction { reply: None, mark_handshake: false, propagate: false },
    }
}

} // verus!
