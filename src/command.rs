use vstd::prelude::*;
use crate::crypto::{CryptoCommand, CryptoCommandExecutor, CommandOutput, Pending, Step, execute_post};
use crate::dispatch::{Dispatcher, Received, send_model, shutdown_model};
use crate::error::ErrorKind;

verus! {

/// A command for the worker: one case per domain, and the Exit sentinel.
pub enum Command {
    Exit,
    Crypto(CryptoCommand),
}

/// What the worker is to do next with the command's completion token `C`.
pub enum Action<C> {
    /// Stop the worker.
    Stop,
    /// Wait for a command to be sent.
    Wait,
    /// Complete the command with its result.
    Finish(C, Result<CommandOutput, ErrorKind>),
    /// Make the primitive call, then resume the command with its outcome.
    Perform(C, Pending),
}

/// The crypto step that a finishing or performing action stands for.
pub open spec fn step_of<C>(a: Action<C>) -> Step {
    match a {
        Action::Finish(_, r) => Step::Done(r),
        Action::Perform(_, p) => Step::Call(p),
        _ => Step::Done(Err(ErrorKind::CryptoOperationFailed)),
    }
}

/// Hands a command to the dispatcher: Exit requests shutdown, any other
/// command is queued together with its completion token.
pub fn submit<C>(d: &mut Dispatcher<(Command, C)>, cmd: Command, token: C) -> (r: Result<(), ErrorKind>)
    ensures
        match cmd {
            Command::Exit => (final(d).pending(), final(d).state(), r) == shutdown_model(
                old(d).pending(),
                old(d).state(),
            ),
            _ => (final(d).pending(), final(d).state(), r) == send_model(
                old(d).pending(),
                old(d).state(),
                (cmd, token),
            ),
        },
{
    match cmd {
        Command::Exit => d.shutdown(),
        _ => d.send((cmd, token)),
    }
}

/// Routes what the worker received to the executor of its domain.
pub fn dispatch<C>(crypto: &mut CryptoCommandExecutor, received: Received<(Command, C)>) -> (a: Action<C>)
    requires
        old(crypto).wf(),
    ensures
        final(crypto).wf(),
        match received {
            Received::Job((Command::Crypto(c), tok)) => {
                &&& (a matches Action::Finish(t, _) && t == tok) || (a matches Action::Perform(t, _) && t == tok)
                &&& execute_post(old(crypto).wallet(), c, final(crypto).wallet(), step_of(a))
            },
            Received::Job((Command::Exit, _)) => a is Stop && *final(crypto) == *old(crypto),
            Received::Exit => a is Stop && *final(crypto) == *old(crypto),
            Received::Empty => a is Wait && *final(crypto) == *old(crypto),
        },
{
    match received {
        Received::Job((Command::Crypto(c), tok)) => match crypto.execute(c) {
            Step::Done(r) => Action::Finish(tok, r),
            Step::Call(p) => Action::Perform(tok, p),
        },
        Received::Job((Command::Exit, _)) => Action::Stop,
        Received::Exit => Action::Stop,
        Received::Empty => Action::Wait,
    }
}

} // verus!
