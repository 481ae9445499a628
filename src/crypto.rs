use vstd::prelude::*;
use crate::error::ErrorKind;
use crate::table::Table;
use crate::verkey::{validate_key, valid_verkey};

verus! {

/// A stored key pair: the verkey names the record, the signkey is private.
pub struct Key {
    pub verkey: String,
    pub signkey: Vec<u8>,
}

/// How a new key is to be made: an optional seed and crypto type.
pub struct KeyInfo {
    pub seed: Option<String>,
    pub crypto_type: Option<String>,
}

/// The crypto operations, with their inputs.
pub enum CryptoCommand {
    /// wallet handle, key info
    CreateKey(i32, KeyInfo),
    /// wallet handle, verkey, metadata
    SetKeyMetadata(i32, String, String),
    /// wallet handle, verkey
    GetKeyMetadata(i32, String),
    /// wallet handle, my verkey, message
    CryptoSign(i32, String, Vec<u8>),
    /// their verkey, message, signature
    CryptoVerify(String, Vec<u8>, Vec<u8>),
    /// wallet handle, my verkey, their verkey, message
    AuthenticatedEncrypt(i32, String, String, Vec<u8>),
    /// wallet handle, my verkey, encrypted message
    AuthenticatedDecrypt(i32, String, Vec<u8>),
    /// their verkey, message
    AnonymousEncrypt(String, Vec<u8>),
    /// wallet handle, my verkey, encrypted message
    AnonymousDecrypt(i32, String, Vec<u8>),
}

/// A call into the cryptographic primitive provider.
pub enum PrimitiveCall {
    /// Generate a key pair.
    CreateKey(KeyInfo),
    /// Sign a message with a key.
    Sign(Key, Vec<u8>),
    /// Check a signature of a message against a verkey.
    Verify(String, Vec<u8>, Vec<u8>),
    /// Encrypt from a key to a recipient verkey, binding the sender.
    AuthenticatedEncrypt(Key, String, Vec<u8>),
    /// Decrypt with a key, recovering the sender's verkey.
    AuthenticatedDecrypt(Key, Vec<u8>),
    /// Seal a message for a recipient verkey.
    Seal(String, Vec<u8>),
    /// Open a sealed message with a key.
    SealOpen(Key, Vec<u8>),
}

/// A primitive call still to be made for a command of a wallet.
pub struct Pending {
    /// The wallet that the command addresses (0 where it needs none).
    pub wallet_handle: i32,
    /// The call to make.
    pub call: PrimitiveCall,
}

/// What a primitive call gives back.
pub enum PrimitiveOutput {
    Key(Key),
    Bytes(Vec<u8>),
    Valid(bool),
    /// sender verkey, plaintext
    Opened(String, Vec<u8>),
}

/// The result that a command's caller receives.
pub enum CommandOutput {
    Verkey(String),
    Unit,
    Metadata(String),
    Bytes(Vec<u8>),
    Valid(bool),
    /// sender verkey, plaintext
    Opened(String, Vec<u8>),
}

/// Where a command stands after `execute`.
pub enum Step {
    /// Finished, with the command's result.
    Done(Result<CommandOutput, ErrorKind>),
    /// Waiting for the outcome of one primitive call.
    Call(Pending),
}

/// Key records (signkeys) and key metadata of every wallet scope.
pub struct Wallet {
    keys: Table<Vec<u8>>,
    metadata: Table<String>,
}

impl Wallet {
    /// Each table holds at most one record per (handle, name).
    pub closed spec fn wf(&self) -> bool {
        self.keys.wf() && self.metadata.wf()
    }

    /// Signkeys by (wallet handle, verkey).
    pub closed spec fn keys(&self) -> Map<(i32, Seq<char>), Vec<u8>> {
        self.keys@
    }

    /// Metadata by (wallet handle, verkey).
    pub closed spec fn metadata(&self) -> Map<(i32, Seq<char>), String> {
        self.metadata@
    }

    pub fn new() -> (w: Self)
        ensures
            w.wf(),
            w.keys() == Map::<(i32, Seq<char>), Vec<u8>>::empty(),
            w.metadata() == Map::<(i32, Seq<char>), String>::empty(),
    {
        Wallet { keys: Table::new(), metadata: Table::new() }
    }
}

fn copy_bytes(v: &Vec<u8>) -> (r: Vec<u8>)
    ensures
        r@ == v@,
{
    let r = v.clone();
    assert(r@ =~= v@);
    r
}

/// The result that a primitive outcome gives for the call it answers,
/// where no wallet record stands in the way.
pub open spec fn output_of(call: PrimitiveCall, out: PrimitiveOutput) -> Result<CommandOutput, ErrorKind> {
    match (call, out) {
        (PrimitiveCall::CreateKey(_), PrimitiveOutput::Key(k)) => Ok(CommandOutput::Verkey(k.verkey)),
        (PrimitiveCall::Sign(_, _), PrimitiveOutput::Bytes(b)) => Ok(CommandOutput::Bytes(b)),
        (PrimitiveCall::Verify(_, _, _), PrimitiveOutput::Valid(v)) => Ok(CommandOutput::Valid(v)),
        (PrimitiveCall::AuthenticatedEncrypt(_, _, _), PrimitiveOutput::Bytes(b)) => Ok(CommandOutput::Bytes(b)),
        (PrimitiveCall::AuthenticatedDecrypt(_, _), PrimitiveOutput::Opened(s, m)) =>
            if valid_verkey(s@) {
                Ok(CommandOutput::Opened(s, m))
            } else {
                Err(ErrorKind::InvalidKeyFormat)
            },
        (PrimitiveCall::Seal(_, _), PrimitiveOutput::Bytes(b)) => Ok(CommandOutput::Bytes(b)),
        (PrimitiveCall::SealOpen(_, _), PrimitiveOutput::Bytes(b)) => Ok(CommandOutput::Bytes(b)),
        _ => Err(ErrorKind::CryptoOperationFailed),
    }
}

/// `step` asks for `call` on wallet `h` and nothing else.
pub open spec fn asks(step: Step, h: i32, pred: spec_fn(PrimitiveCall) -> bool) -> bool {
    match step {
        Step::Call(p) => p.wallet_handle == h && pred(p.call),
        Step::Done(_) => false,
    }
}

/// `k` is the stored key of `vk` in wallet `h` of `keys`.
pub open spec fn is_stored_key(keys: Map<(i32, Seq<char>), Vec<u8>>, h: i32, vk: String, k: Key) -> bool {
    k.verkey == vk && k.signkey@ == keys[(h, vk@)]@
}

/// What `execute` does: `w0`/`w1` are the wallet before and after.
pub open spec fn execute_post(w0: Wallet, cmd: CryptoCommand, w1: Wallet, step: Step) -> bool {
    let keys = w0.keys();
    let err = |e: ErrorKind| step == Step::Done(Err(e)) && w1.keys() == w0.keys() && w1.metadata() == w0.metadata();
    match cmd {
        CryptoCommand::CreateKey(h, info) =>
            w1.keys() == w0.keys() && w1.metadata() == w0.metadata()
                && step == Step::Call(Pending { wallet_handle: h, call: PrimitiveCall::CreateKey(info) }),
        CryptoCommand::SetKeyMetadata(h, vk, m) =>
            if !valid_verkey(vk@) {
                err(ErrorKind::InvalidKeyFormat)
            } else {
                step == Step::Done(Ok(CommandOutput::Unit)) && w1.keys() == w0.keys()
                    && w1.metadata() == w0.metadata().insert((h, vk@), m)
            },
        CryptoCommand::GetKeyMetadata(h, vk) =>
            if !valid_verkey(vk@) {
                err(ErrorKind::InvalidKeyFormat)
            } else if !w0.metadata().contains_key((h, vk@)) {
                err(ErrorKind::WalletItemNotFound)
            } else {
                step == Step::Done(Ok(CommandOutput::Metadata(w0.metadata()[(h, vk@)])))
                    && w1.keys() == w0.keys() && w1.metadata() == w0.metadata()
            },
        CryptoCommand::CryptoSign(h, vk, msg) =>
            if !valid_verkey(vk@) {
                err(ErrorKind::InvalidKeyFormat)
            } else if !keys.contains_key((h, vk@)) {
                err(ErrorKind::WalletItemNotFound)
            } else {
                w1.keys() == w0.keys() && w1.metadata() == w0.metadata()
                    && asks(step, h, |c: PrimitiveCall| match c {
                        PrimitiveCall::Sign(k, m) => is_stored_key(keys, h, vk, k) && m == msg,
                        _ => false,
                    })
            },
        CryptoCommand::CryptoVerify(vk, msg, sig) =>
            if !valid_verkey(vk@) {
                err(ErrorKind::InvalidKeyFormat)
            } else {
                w1.keys() == w0.keys() && w1.metadata() == w0.metadata()
                    && asks(step, 0, |c: PrimitiveCall| c == PrimitiveCall::Verify(vk, msg, sig))
            },
        CryptoCommand::AuthenticatedEncrypt(h, my_vk, their_vk, msg) =>
            if !valid_verkey(my_vk@) || !valid_verkey(their_vk@) {
                err(ErrorKind::InvalidKeyFormat)
            } else if !keys.contains_key((h, my_vk@)) {
                err(ErrorKind::WalletItemNotFound)
            } else {
                w1.keys() == w0.keys() && w1.metadata() == w0.metadata()
                    && asks(step, h, |c: PrimitiveCall| match c {
                        PrimitiveCall::AuthenticatedEncrypt(k, t, m) =>
                            is_stored_key(keys, h, my_vk, k) && t == their_vk && m == msg,
                        _ => false,
                    })
            },
        CryptoCommand::AuthenticatedDecrypt(h, my_vk, ct) =>
            if !valid_verkey(my_vk@) {
                err(ErrorKind::InvalidKeyFormat)
            } else if !keys.contains_key((h, my_vk@)) {
                err(ErrorKind::WalletItemNotFound)
            } else {
                w1.keys() == w0.keys() && w1.metadata() == w0.metadata()
                    && asks(step, h, |c: PrimitiveCall| match c {
                        PrimitiveCall::AuthenticatedDecrypt(k, m) => is_stored_key(keys, h, my_vk, k) && m == ct,
                        _ => false,
                    })
            },
        CryptoCommand::AnonymousEncrypt(their_vk, msg) =>
            if !valid_verkey(their_vk@) {
                err(ErrorKind::InvalidKeyFormat)
            } else {
                w1.keys() == w0.keys() && w1.metadata() == w0.metadata()
                    && asks(step, 0, |c: PrimitiveCall| c == PrimitiveCall::Seal(their_vk, msg))
            },
        CryptoCommand::AnonymousDecrypt(h, my_vk, ct) =>
            if !valid_verkey(my_vk@) {
                err(ErrorKind::InvalidKeyFormat)
            } else if !keys.contains_key((h, my_vk@)) {
                err(ErrorKind::WalletItemNotFound)
            } else {
                w1.keys() == w0.keys() && w1.metadata() == w0.metadata()
                    && asks(step, h, |c: PrimitiveCall| match c {
                        PrimitiveCall::SealOpen(k, m) => is_stored_key(keys, h, my_vk, k) && m == ct,
                        _ => false,
                    })
            },
    }
}

/// Runs crypto commands against the wallet it owns; the primitive calls
/// that a command needs are handed out and their outcomes taken back.
pub struct CryptoCommandExecutor {
    wallet: Wallet,
}

impl CryptoCommandExecutor {
    /// The wallet that commands read and write.
    pub closed spec fn wallet(&self) -> Wallet {
        self.wallet
    }

    /// The owned wallet is well formed.
    pub open spec fn wf(&self) -> bool {
        self.wallet().wf()
    }

    pub fn new(wallet: Wallet) -> (r: Self)
        requires
            wallet.wf(),
        ensures
            r.wf(),
            r.wallet() == wallet,
    {
        CryptoCommandExecutor { wallet }
    }

    /// Fetches the key stored under `vk` in wallet `h`.
    fn fetch_key(&self, h: i32, vk: String) -> (r: Result<Key, ErrorKind>)
        requires
            self.wf(),
        ensures
            match r {
                Ok(k) => self.wallet().keys().contains_key((h, vk@))
                    && is_stored_key(self.wallet().keys(), h, vk, k),
                Err(e) => !self.wallet().keys().contains_key((h, vk@)) && e == ErrorKind::WalletItemNotFound,
            },
    {
        match self.wallet.keys.get(h, &vk) {
            Some(sk) => Ok(Key { verkey: vk, signkey: copy_bytes(sk) }),
            None => Err(ErrorKind::WalletItemNotFound),
        }
    }

    fn create_key(&mut self, h: i32, info: KeyInfo) -> (step: Step)
        requires
            old(self).wf(),
        ensures
            final(self).wf(),
            execute_post(old(self).wallet(), CryptoCommand::CreateKey(h, info), final(self).wallet(), step),
    {
        Step::Call(Pending { wallet_handle: h, call: PrimitiveCall::CreateKey(info) })
    }

    fn set_key_metadata(&mut self, h: i32, vk: String, m: String) -> (step: Step)
        requires
            old(self).wf(),
        ensures
            final(self).wf(),
            execute_post(old(self).wallet(), CryptoCommand::SetKeyMetadata(h, vk, m), final(self).wallet(), step),
    {
        if validate_key(vk.as_str()).is_err() {
            return Step::Done(Err(ErrorKind::InvalidKeyFormat));
        }
        self.wallet.metadata.upsert(h, &vk, m);
        Step::Done(Ok(CommandOutput::Unit))
    }

    fn get_key_metadata(&self, h: i32, vk: String) -> (step: Step)
        requires
            self.wf(),
        ensures
            execute_post(self.wallet(), CryptoCommand::GetKeyMetadata(h, vk), self.wallet(), step),
    {
        if validate_key(vk.as_str()).is_err() {
            return Step::Done(Err(ErrorKind::InvalidKeyFormat));
        }
        match self.wallet.metadata.get(h, &vk) {
            Some(m) => Step::Done(Ok(CommandOutput::Metadata(m.clone()))),
            None => Step::Done(Err(ErrorKind::WalletItemNotFound)),
        }
    }

    fn crypto_sign(&self, h: i32, vk: String, msg: Vec<u8>) -> (step: Step)
        requires
            self.wf(),
        ensures
            execute_post(self.wallet(), CryptoCommand::CryptoSign(h, vk, msg), self.wallet(), step),
    {
        if validate_key(vk.as_str()).is_err() {
            return Step::Done(Err(ErrorKind::InvalidKeyFormat));
        }
        match self.fetch_key(h, vk) {
            Ok(k) => Step::Call(Pending { wallet_handle: h, call: PrimitiveCall::Sign(k, msg) }),
            Err(e) => Step::Done(Err(e)),
        }
    }

    fn crypto_verify(&self, vk: String, msg: Vec<u8>, sig: Vec<u8>) -> (step: Step)
        requires
            self.wf(),
        ensures
            execute_post(self.wallet(), CryptoCommand::CryptoVerify(vk, msg, sig), self.wallet(), step),
    {
        if validate_key(vk.as_str()).is_err() {
            return Step::Done(Err(ErrorKind::InvalidKeyFormat));
        }
        Step::Call(Pending { wallet_handle: 0, call: PrimitiveCall::Verify(vk, msg, sig) })
    }

    fn authenticated_encrypt(&self, h: i32, my_vk: String, their_vk: String, msg: Vec<u8>) -> (step: Step)
        requires
            self.wf(),
        ensures
            execute_post(
                self.wallet(),
                CryptoCommand::AuthenticatedEncrypt(h, my_vk, their_vk, msg),
                self.wallet(),
                step,
            ),
    {
        if validate_key(my_vk.as_str()).is_err() || validate_key(their_vk.as_str()).is_err() {
            return Step::Done(Err(ErrorKind::InvalidKeyFormat));
        }
        match self.fetch_key(h, my_vk) {
            Ok(k) => Step::Call(Pending { wallet_handle: h, call: PrimitiveCall::AuthenticatedEncrypt(k, their_vk, msg) }),
            Err(e) => Step::Done(Err(e)),
        }
    }

    fn authenticated_decrypt(&self, h: i32, my_vk: String, ct: Vec<u8>) -> (step: Step)
        requires
            self.wf(),
        ensures
            execute_post(self.wallet(), CryptoCommand::AuthenticatedDecrypt(h, my_vk, ct), self.wallet(), step),
    {
        if validate_key(my_vk.as_str()).is_err() {
            return Step::Done(Err(ErrorKind::InvalidKeyFormat));
        }
        match self.fetch_key(h, my_vk) {
            Ok(k) => Step::Call(Pending { wallet_handle: h, call: PrimitiveCall::AuthenticatedDecrypt(k, ct) }),
            Err(e) => Step::Done(Err(e)),
        }
    }

    fn anonymous_encrypt(&self, their_vk: String, msg: Vec<u8>) -> (step: Step)
        requires
            self.wf(),
        ensures
            execute_post(self.wallet(), CryptoCommand::AnonymousEncrypt(their_vk, msg), self.wallet(), step),
    {
        if validate_key(their_vk.as_str()).is_err() {
            return Step::Done(Err(ErrorKind::InvalidKeyFormat));
        }
        Step::Call(Pending { wallet_handle: 0, call: PrimitiveCall::Seal(their_vk, msg) })
    }

    fn anonymous_decrypt(&self, h: i32, my_vk: String, ct: Vec<u8>) -> (step: Step)
        requires
            self.wf(),
        ensures
            execute_post(self.wallet(), CryptoCommand::AnonymousDecrypt(h, my_vk, ct), self.wallet(), step),
    {
        if validate_key(my_vk.as_str()).is_err() {
            return Step::Done(Err(ErrorKind::InvalidKeyFormat));
        }
        match self.fetch_key(h, my_vk) {
            Ok(k) => Step::Call(Pending { wallet_handle: h, call: PrimitiveCall::SealOpen(k, ct) }),
            Err(e) => Step::Done(Err(e)),
        }
    }

    /// Starts a command: validates its verkeys before anything else, then
    /// reads or writes the wallet, and either finishes or asks for the one
    /// primitive call that the command needs.
    pub fn execute(&mut self, command: CryptoCommand) -> (step: Step)
        requires
            old(self).wf(),
        ensures
            final(self).wf(),
            execute_post(old(self).wallet(), command, final(self).wallet(), step),
    {
        match command {
            CryptoCommand::CreateKey(h, info) => self.create_key(h, info),
            CryptoCommand::SetKeyMetadata(h, vk, m) => self.set_key_metadata(h, vk, m),
            CryptoCommand::GetKeyMetadata(h, vk) => self.get_key_metadata(h, vk),
            CryptoCommand::CryptoSign(h, vk, msg) => self.crypto_sign(h, vk, msg),
            CryptoCommand::CryptoVerify(vk, msg, sig) => self.crypto_verify(vk, msg, sig),
            CryptoCommand::AuthenticatedEncrypt(h, my_vk, their_vk, msg) =>
                self.authenticated_encrypt(h, my_vk, their_vk, msg),
            CryptoCommand::AuthenticatedDecrypt(h, my_vk, ct) => self.authenticated_decrypt(h, my_vk, ct),
            CryptoCommand::AnonymousEncrypt(their_vk, msg) => self.anonymous_encrypt(their_vk, msg),
            CryptoCommand::AnonymousDecrypt(h, my_vk, ct) => self.anonymous_decrypt(h, my_vk, ct),
        }
    }

    /// Finishes a command with the outcome of the primitive call it asked
    /// for. A created key is stored in its wallet under its verkey, unless
    /// that name is taken there; errors of the call pass through unchanged.
    pub fn resume(&mut self, pending: Pending, outcome: Result<PrimitiveOutput, ErrorKind>) -> (r: Result<
        CommandOutput,
        ErrorKind,
    >)
        requires
            old(self).wf(),
        ensures
            final(self).wf(),
            final(self).wallet().metadata() == old(self).wallet().metadata(),
            match (pending.call, outcome) {
                (PrimitiveCall::CreateKey(_), Ok(PrimitiveOutput::Key(k))) =>
                    if old(self).wallet().keys().contains_key((pending.wallet_handle, k.verkey@)) {
                        r == Err::<CommandOutput, ErrorKind>(ErrorKind::WalletItemAlreadyExists)
                            && final(self).wallet().keys() == old(self).wallet().keys()
                    } else {
                        r == Ok::<CommandOutput, ErrorKind>(CommandOutput::Verkey(k.verkey))
                            && final(self).wallet().keys() == old(self).wallet().keys().insert(
                                (pending.wallet_handle, k.verkey@), k.signkey)
                    },
                (_, Ok(out)) => r == output_of(pending.call, out)
                    && final(self).wallet().keys() == old(self).wallet().keys(),
                (_, Err(e)) => r == Err::<CommandOutput, ErrorKind>(e)
                    && final(self).wallet().keys() == old(self).wallet().keys(),
            },
    {
        let out = match outcome {
            Ok(out) => out,
            Err(e) => return Err(e),
        };
        match (pending.call, out) {
            (PrimitiveCall::CreateKey(_), PrimitiveOutput::Key(k)) => {
                match self.wallet.keys.add(pending.wallet_handle, &k.verkey, k.signkey) {
                    Ok(()) => Ok(CommandOutput::Verkey(k.verkey)),
                    Err(e) => Err(e),
                }
            },
            (PrimitiveCall::Sign(_, _), PrimitiveOutput::Bytes(b)) => Ok(CommandOutput::Bytes(b)),
            (PrimitiveCall::Verify(_, _, _), PrimitiveOutput::Valid(v)) => Ok(CommandOutput::Valid(v)),
            (PrimitiveCall::AuthenticatedEncrypt(_, _, _), PrimitiveOutput::Bytes(b)) => Ok(CommandOutput::Bytes(b)),
            (PrimitiveCall::AuthenticatedDecrypt(_, _), PrimitiveOutput::Opened(s, m)) => {
                if validate_key(s.as_str()).is_err() {
                    return Err(ErrorKind::InvalidKeyFormat);
                }
                Ok(CommandOutput::Opened(s, m))
            },
            (PrimitiveCall::Seal(_, _), PrimitiveOutput::Bytes(b)) => Ok(CommandOutput::Bytes(b)),
            (PrimitiveCall::SealOpen(_, _), PrimitiveOutput::Bytes(b)) => Ok(CommandOutput::Bytes(b)),
            _ => Err(ErrorKind::CryptoOperationFailed),
        }
    }
}

/// Whether some verkey that `cmd` names is malformed.
pub open spec fn has_malformed_verkey(cmd: CryptoCommand) -> bool {
    match cmd {
        CryptoCommand::CreateKey(_, _) => false,
        CryptoCommand::SetKeyMetadata(_, vk, _) => !valid_verkey(vk@),
        CryptoCommand::GetKeyMetadata(_, vk) => !valid_verkey(vk@),
        CryptoCommand::CryptoSign(_, vk, _) => !valid_verkey(vk@),
        CryptoCommand::CryptoVerify(vk, _, _) => !valid_verkey(vk@),
        CryptoCommand::AuthenticatedEncrypt(_, my_vk, their_vk, _) =>
            !valid_verkey(my_vk@) || !valid_verkey(their_vk@),
        CryptoCommand::AuthenticatedDecrypt(_, vk, _) => !valid_verkey(vk@),
        CryptoCommand::AnonymousEncrypt(vk, _) => !valid_verkey(vk@),
        CryptoCommand::AnonymousDecrypt(_, vk, _) => !valid_verkey(vk@),
    }
}

/// A command that names a malformed verkey fails with `InvalidKeyFormat`,
/// leaves the wallet as it was and asks for no primitive call.
pub proof fn lemma_validation_first(w0: Wallet, cmd: CryptoCommand, w1: Wallet, step: Step)
    requires
        execute_post(w0, cmd, w1, step),
        has_malformed_verkey(cmd),
    ensures
        step == Step::Done(Err(ErrorKind::InvalidKeyFormat)),
        w1.keys() == w0.keys(),
        w1.metadata() == w0.metadata(),
{
}

/// Metadata set for a verkey is what a later read of it returns.
pub proof fn lemma_metadata_round_trip(
    w0: Wallet,
    w1: Wallet,
    w2: Wallet,
    h: i32,
    vk: String,
    m: String,
    set_step: Step,
    get_step: Step,
)
    requires
        valid_verkey(vk@),
        execute_post(w0, CryptoCommand::SetKeyMetadata(h, vk, m), w1, set_step),
        execute_post(w1, CryptoCommand::GetKeyMetadata(h, vk), w2, get_step),
    ensures
        set_step == Step::Done(Ok(CommandOutput::Unit)),
        get_step == Step::Done(Ok(CommandOutput::Metadata(m))),
{
}

/// Of two values set in turn for one verkey, a read returns the second.
pub proof fn lemma_metadata_overwrite(
    w0: Wallet,
    w1: Wallet,
    w2: Wallet,
    w3: Wallet,
    h: i32,
    vk: String,
    m1: String,
    m2: String,
    step1: Step,
    step2: Step,
    step3: Step,
)
    requires
        valid_verkey(vk@),
        execute_post(w0, CryptoCommand::SetKeyMetadata(h, vk, m1), w1, step1),
        execute_post(w1, CryptoCommand::SetKeyMetadata(h, vk, m2), w2, step2),
        execute_post(w2, CryptoCommand::GetKeyMetadata(h, vk), w3, step3),
    ensures
        step3 == Step::Done(Ok(CommandOutput::Metadata(m2))),
{
}

/// Anonymous encryption asks the sealing primitive for the recipient's
/// verkey and the message alone: no key of any wallet is handed to it.
pub proof fn lemma_seal_carries_no_sender(w0: Wallet, w1: Wallet, their_vk: String, msg: Vec<u8>, step: Step)
    requires
        valid_verkey(their_vk@),
        execute_post(w0, CryptoCommand::AnonymousEncrypt(their_vk, msg), w1, step),
    ensures
        step == Step::Call(Pending { wallet_handle: 0, call: PrimitiveCall::Seal(their_vk, msg) }),
{
}

/// Authenticated decryption returns the sender verkey and the plaintext
/// that the primitive recovered, unchanged, when the sender verkey is
/// well formed.
pub proof fn lemma_opened_passes_through(key: Key, ct: Vec<u8>, sender: String, plain: Vec<u8>)
    requires
        valid_verkey(sender@),
    ensures
        output_of(PrimitiveCall::AuthenticatedDecrypt(key, ct), PrimitiveOutput::Opened(sender, plain))
            == Ok::<CommandOutput, ErrorKind>(CommandOutput::Opened(sender, plain)),
{
}

} // verus!
