//! Command-execution core of an identity SDK: verkey validation, a wallet
//! store of keys and key metadata, the crypto command executor, and the
//! FIFO command dispatcher that serialises all work onto one worker.

mod command;
mod crypto;
mod dispatch;
mod error;
mod table;
mod verkey;

pub use error::ErrorKind;
pub use verkey::{
    validate_key, valid_verkey, is_base58_char, is_key_body, is_key_part, digit_value, b58_value, leading_ones,
    byte_len, decoded_len,
};
pub use table::{Entry, Table, key_of};
pub use crypto::{
    Key, KeyInfo, CryptoCommand, PrimitiveCall, Pending, PrimitiveOutput, CommandOutput, Step, Wallet,
    CryptoCommandExecutor, output_of, asks, is_stored_key, execute_post, has_malformed_verkey,
    lemma_validation_first, lemma_metadata_round_trip, lemma_metadata_overwrite, lemma_seal_carries_no_sender,
    lemma_opened_passes_through,
};
pub use dispatch::{
    DispatchState, Received, Dispatcher, send_model, shutdown_model, receive_model, send_all, receive_n, jobs,
    lemma_fifo, lemma_shutdown_drains,
};
pub use command::{Command, Action, step_of, submit, dispatch};
