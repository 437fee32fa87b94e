use vstd::prelude::*;

verus! {

/// A message between peers: an eight-byte command name, the id that ties a
/// reply to its request, and the payload.
#[derive(Clone, Debug)]
pub struct APIMessage {
    pub message_name: [u8; 8],
    pub message_id: u32,
    pub message_data: Vec<u8>,
}

impl APIMessage {
    /// This message is a `RESULT__` reply to request `message_id` carrying `data`.
    pub open spec fn is_result(&self, message_id: u32, data: Seq<u8>) -> bool {
        &&& self.message_name@ == result_name()
        &&& self.message_id == message_id
        &&& self.message_data@ == data
    }

    /// This message is an `ERROR___` reply to request `message_id`, carrying `ERROR`.
    pub open spec fn is_error(&self, message_id: u32) -> bool {
        &&& self.message_name@ == error_name()
        &&& self.message_id == message_id
        &&& self.message_data@ == error_text()
    }
}

/// A `RESULT__` reply to a request carries the name `RESULT__`, the request's
/// id and the given data; an error reply carries `ERROR___`, the request's id
/// and `ERROR`; and the two are never confused.
pub proof fn law_reply_contents(message: APIMessage, message_id: u32, data: Seq<u8>)
    ensures
        message.is_result(message_id, data) ==> message.message_name@ == seq![82u8, 69, 83, 85, 76, 84, 95, 95]
            && message.message_id == message_id && message.message_data@ == data,
        message.is_error(message_id) ==> message.message_name@ == seq![69u8, 82, 82, 79, 82, 95, 95, 95]
            && message.message_id == message_id && message.message_data@ == seq![69u8, 82, 82, 79, 82],
        ok_text() == seq![79u8, 75],
        !(message.is_result(message_id, data) && message.is_error(message_id)),
{
    if message.is_result(message_id, data) && message.is_error(message_id) {
        assert(result_name()[0] != error_name()[0]);
    }
}

/// `RESULT__`
pub open spec fn result_name() -> Seq<u8> {
    seq![82u8, 69, 83, 85, 76, 84, 95, 95]
}

/// `ERROR___`
pub open spec fn error_name() -> Seq<u8> {
    seq![69u8, 82, 82, 79, 82, 95, 95, 95]
}

/// `OK`
pub open spec fn ok_text() -> Seq<u8> {
    seq![79u8, 75]
}

/// `ERROR`
pub open spec fn error_text() -> Seq<u8> {
    seq![69u8, 82, 82, 79, 82]
}

/// The commands that a peer may send, by the eight-byte name they travel under.
#[derive(Clone, Copy, Debug, PartialEq, Eq, Structural)]
pub enum Command {
    /// `SHAKINIT`: the peer opens a handshake.
    HandshakeInit,
    /// `SHAKCOMP`: the peer returns the signed handshake challenge.
    HandshakeComplete,
    /// `SENDTRXN`: the peer offers a transaction.
    SendTransaction,
    /// `REQCHAIN`: the peer asks for the blocks it is missing.
    RequestChain,
    /// `SNDCHAIN`
    SendChain,
    /// `REQBLKHD`
    RequestBlockHeader,
    /// `SNDBLKHD`
    SendBlockHeader,
    /// `SNDTRANS`
    SendTransactions,
    /// `REQBLOCK`
    RequestBlock,
    /// `SNDKYCHN`
    SendKeychain,
    /// Any other name.
    Unknown,
}

impl Command {
    /// The name that the command travels under; empty for `Unknown`.
    pub open spec fn wire_name(self) -> Seq<u8> {
        match self {
            Command::HandshakeInit => seq![83u8, 72, 65, 75, 73, 78, 73, 84],
            Command::HandshakeComplete => seq![83u8, 72, 65, 75, 67, 79, 77, 80],
            Command::SendTransaction => seq![83u8, 69, 78, 68, 84, 82, 88, 78],
            Command::RequestChain => seq![82u8, 69, 81, 67, 72, 65, 73, 78],
            Command::SendChain => seq![83u8, 78, 68, 67, 72, 65, 73, 78],
            Command::RequestBlockHeader => seq![82u8, 69, 81, 66, 76, 75, 72, 68],
            Command::SendBlockHeader => seq![83u8, 78, 68, 66, 76, 75, 72, 68],
            Command::SendTransactions => seq![83u8, 78, 68, 84, 82, 65, 78, 83],
            Command::RequestBlock => seq![82u8, 69, 81, 66, 76, 79, 67, 75],
            Command::SendKeychain => seq![83u8, 78, 68, 75, 89, 67, 72, 78],
            Command::Unknown => Seq::empty(),
        }
    }
}

/// The command that a message name stands for.
pub open spec fn command_of_spec(name: Seq<u8>) -> Command {
    if name == Command::HandshakeInit.wire_name() {
        Command::HandshakeInit
    } else if name == Command::HandshakeComplete.wire_name() {
        Command::HandshakeComplete
    } else if name == Command::SendTransaction.wire_name() {
        Command::SendTransaction
    } else if name == Command::RequestChain.wire_name() {
        Command::RequestChain
    } else if name == Command::SendChain.wire_name() {
        Command::SendChain
    } else if name == Command::RequestBlockHeader.wire_name() {
        Command::RequestBlockHeader
    } else if name == Command::SendBlockHeader.wire_name() {
        Command::SendBlockHeader
    } else if name == Command::SendTransactions.wire_name() {
        Command::SendTransactions
    } else if name == Command::RequestBlock.wire_name() {
        Command::RequestBlock
    } else if name == Command::SendKeychain.wire_name() {
        Command::SendKeychain
    } else {
        Command::Unknown
    }
}

fn names_equal(a: &[u8; 8], b: &[u8; 8]) -> (r: bool)
    ensures
        r == (a@ == b@),
{
    let mut i: usize = 0;
    while i < 8
        invariant
            0 <= i <= 8,
            a@.len() == 8,
            b@.len() == 8,
            forall|j: int| 0 <= j < i ==> a@[j] == b@[j],
        decreases 8 - i,
    {
        if a[i] != b[i] {
            return false;
        }
        i = i + 1;
    }
    assert(a@ =~= b@);
    true
}

/// The name a known command travels under.
pub fn wire_name(command: Command) -> (name: [u8; 8])
    requires
        command != Command::Unknown,
    ensures
        name@ == command.wire_name(),
{
    let name: [u8; 8] = match command {
        Command::HandshakeInit => [83u8, 72, 65, 75, 73, 78, 73, 84],
        Command::HandshakeComplete => [83u8, 72, 65, 75, 67, 79, 77, 80],
        Command::SendTransaction => [83u8, 69, 78, 68, 84, 82, 88, 78],
        Command::RequestChain => [82u8, 69, 81, 67, 72, 65, 73, 78],
        Command::SendChain => [83u8, 78, 68, 67, 72, 65, 73, 78],
        Command::RequestBlockHeader => [82u8, 69, 81, 66, 76, 75, 72, 68],
        Command::SendBlockHeader => [83u8, 78, 68, 66, 76, 75, 72, 68],
        Command::SendTransactions => [83u8, 78, 68, 84, 82, 65, 78, 83],
        Command::RequestBlock => [82u8, 69, 81, 66, 76, 79, 67, 75],
        Command::SendKeychain => [83u8, 78, 68, 75, 89, 67, 72, 78],
        Command::Unknown => [0u8; 8],
    };
    assert(name@ =~= command.wire_name());
    name
}

/// Reads the command out of a message name. A name that is not exactly one of
/// the known names, byte for byte, is `Unknown`.
pub fn command_of(name: &[u8; 8]) -> (command: Command)
    ensures
        command == command_of_spec(name@),
{
    if names_equal(name, &wire_name(Command::HandshakeInit)) {
        Command::HandshakeInit
    } else if names_equal(name, &wire_name(Command::HandshakeComplete)) {
        Command::HandshakeComplete
    } else if names_equal(name, &wire_name(Command::SendTransaction)) {
        Command::SendTransaction
    } else if names_equal(name, &wire_name(Command::RequestChain)) {
        Command::RequestChain
    } else if names_equal(name, &wire_name(Command::SendChain)) {
        Command::SendChain
    } else if names_equal(name, &wire_name(Command::RequestBlockHeader)) {
        Command::RequestBlockHeader
    } else if names_equal(name, &wire_name(Command::SendBlockHeader)) {
        Command::SendBlockHeader
    } else if names_equal(name, &wire_name(Command::SendTransactions)) {
        Command::SendTransactions
    } else if names_equal(name, &wire_name(Command::RequestBlock)) {
        Command::RequestBlock
    } else if names_equal(name, &wire_name(Command::SendKeychain)) {
        Command::SendKeychain
    } else {
        Command::Unknown
    }
}

/// Every known command is read back from the name it travels under.
pub proof fn law_command_name_round_trip(command: Command)
    requires
        command != Command::Unknown,
    ensures
        command_of_spec(command.wire_name()) == command,
{
}

/// A name that is read as a known command is exactly that command's name.
pub proof fn law_known_command_has_its_name(name: Seq<u8>)
    ensures
        command_of_spec(name) != Command::Unknown ==> command_of_spec(name).wire_name() == name,
{
}

/// A `RESULT__` reply to request `message_id` that carries `message_data`.
pub fn result_message(message_id: u32, message_data: Vec<u8>) -> (message: APIMessage)
    ensures
        message.is_result(message_id, message_data@),
{
    let name: [u8; 8] = [82u8, 69, 83, 85, 76, 84, 95, 95];
    assert(name@ =~= result_name());
    APIMessage { message_name: name, message_id: message_id, message_data: message_data }
}

/// A `RESULT__` reply to request `message_id` that carries `OK`.
pub fn ok_message(message_id: u32) -> (message: APIMessage)
    ensures
        message.is_result(message_id, ok_text()),
{
    let data: Vec<u8> = vec![79u8, 75];
    assert(data@ =~= ok_text());
    result_message(message_id, data)
}

/// An `ERROR___` reply to request `message_id` that carries `ERROR`.
pub fn error_message(message_id: u32) -> (message: APIMessage)
    ensures
        message.is_error(message_id),
{
    let name: [u8; 8] = [69u8, 82, 82, 79, 82, 95, 95, 95];
    let data: Vec<u8> = vec![69u8, 82, 82, 79, 82];
    assert(name@ =~= error_name());
    assert(data@ =~= error_text());
    APIMessage { message_name: name, message_id: message_id, message_data: data }
}

} // verus!
