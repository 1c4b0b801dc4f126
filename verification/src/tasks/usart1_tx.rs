//! The handler of the interrupt that the transmit DMA stream raises when a
//! transfer is complete.

use crate::tasks::write_telemetry::TxBufferState;
use vstd::prelude::*;

verus! {

/// What a transfer-complete interrupt found.
#[derive(Debug, Clone, Copy, PartialEq, Eq, Structural)]
pub enum CompletionOutcome {
    /// A transfer was in flight and is over: its completion flag is to be
    /// cleared and the stream paused.
    Finished,
    /// No transfer was in flight. The interrupt is spurious: it warrants a
    /// warning, and the stream is paused all the same.
    Spurious,
}

/// Handles a transfer-complete interrupt of the transmit stream.
///
/// `send` is the shared slot of the transmit buffer state. Whatever the state
/// was, it is `Idle` afterwards, with the same transfer and the same buffer
/// contents.
pub fn on_usart1_txe(send: &mut Option<TxBufferState>) -> (outcome: CompletionOutcome)
    requires
        old(send).is_some(),
    ensures
        *final(send) == Some(TxBufferState::Idle(old(send).unwrap().transfer())),
        old(send).unwrap() is Running ==> outcome == CompletionOutcome::Finished,
        old(send).unwrap() is Idle ==> outcome == CompletionOutcome::Spurious,
{
    match send.take().unwrap() {
        TxBufferState::Running(transfer) => {
            *send = Some(TxBufferState::Idle(transfer));
            CompletionOutcome::Finished
        },
        TxBufferState::Idle(transfer) => {
            *send = Some(TxBufferState::Idle(transfer));
            CompletionOutcome::Spurious
        },
    }
}

} // verus!
