use vstd::prelude::*;

verus! {

/// A transaction as it travels between peers: the bytes of its network form.
#[derive(Clone, Debug, PartialEq)]
pub struct Transaction {
    serialized: Vec<u8>,
}

impl View for Transaction {
    type V = Seq<u8>;

    closed spec fn view(&self) -> Seq<u8> {
        self.serialized@
    }
}

impl Transaction {
    /// Takes a transaction off the wire; it keeps the bytes it was received as.
    pub fn deserialize_from_net(bytes: Vec<u8>) -> (tx: Transaction)
        ensures
            tx@ == bytes@,
    {
        Transaction { serialized: bytes }
    }

    /// The network form of the transaction.
    pub fn serialize_for_net(&self) -> (bytes: Vec<u8>)
        ensures
            bytes@ == self@,
    {
        self.serialized.clone()
    }
}

} // verus!
