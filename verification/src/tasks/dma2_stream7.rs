//! The handler of the interrupt of DMA2 stream 7, the stream that carries the
//! transmit side of USART1.

use crate::tasks::usart1_tx::{on_usart1_txe, CompletionOutcome};
use crate::tasks::write_telemetry::TxBufferState;
use vstd::prelude::*;

verus! {

/// Handles an interrupt of DMA2 stream 7.
///
/// The stream raises it when a transfer is complete, so this is
/// [`on_usart1_txe`] under the name of the interrupt.
pub fn on_dma2_stream7(send: &mut Option<TxBufferState>) -> (outcome: CompletionOutcome)
    requires
        old(send).is_some(),
    ensures
        *final(send) == Some(TxBufferState::Idle(old(send).unwrap().transfer())),
        old(send).unwrap() is Running ==> outcome == CompletionOutcome::Finished,
        old(send).unwrap() is Idle ==> outcome == CompletionOutcome::Spurious,
{
    on_usart1_txe(send)
}

} // verus!
