use vstd::prelude::*;

verus! {

/// The ways an operation of this library can fail.
#[derive(Clone, Copy, Debug, PartialEq, Eq, Structural)]
pub enum ErrorKind {
    /// A verkey did not have the verkey format.
    InvalidKeyFormat,
    /// The wallet holds no record under the requested name.
    WalletItemNotFound,
    /// The wallet already holds a record under the name being added.
    WalletItemAlreadyExists,
    /// A signing, verification, encryption or decryption primitive failed.
    CryptoOperationFailed,
    /// The dispatcher no longer accepts commands.
    ChannelDisconnected,
}

} // verus!
