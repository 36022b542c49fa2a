use vstd::prelude::*;
use crate::model::{AckState, FORWARD_LIMIT, WINDOW};

verus! {

/// What is known of the sequence numbers received from the other side of a
/// virtual connection.
#[derive(Debug)]
pub struct ExternalAcks {
    /// The newest sequence number received from the other side.
    pub last_seq: u16,
    /// Bit `i` is set when sequence number `last_seq - (i + 1)` (wrapping)
    /// has been received: with `last_seq` at 100, bit 0 stands for 99 and
    /// bit 31 for 68.
    pub field: u32,
    /// Whether a sequence number has been recorded yet.
    pub initialized: bool,
}

impl View for ExternalAcks {
    type V = AckState;

    open spec fn view(&self) -> AckState {
        AckState { initialized: self.initialized, last_seq: self.last_seq, field: self.field }
    }
}

impl ExternalAcks {
    /// A tracker that has seen no packet.
    pub fn new() -> (r: ExternalAcks)
        ensures
            r@ == AckState::fresh(),
    {
        ExternalAcks { last_seq: 0, field: 0, initialized: false }
    }

    /// Records the arrival of the packet with sequence number `seq_num`.
    pub fn ack(&mut self, seq_num: u16)
        ensures
            final(self)@ == old(self)@.record(seq_num),
            final(self)@.wf(),
    {
        if !self.initialized {
            self.last_seq = seq_num;
            self.initialized = true;
            return;
        }
        let pos_diff: u16 = seq_num.wrapping_sub(self.last_seq);
        let neg_diff: u16 = self.last_seq.wrapping_sub(seq_num);

        if pos_diff == 0 {
            return;
        }
        if pos_diff < FORWARD_LIMIT {
            if pos_diff <= WINDOW {
                // The old newest number becomes bit 0, then everything moves
                // back by the rest of the distance.
                self.field = ((self.field << 1u32) | 1u32) << ((pos_diff - 1) as u32);
            } else {
                self.field = 0;
            }
            self.last_seq = seq_num;
        } else if neg_diff <= WINDOW {
            self.field = self.field | (1u32 << ((neg_diff - 1) as u32));
        }
    }
}

impl Default for ExternalAcks {
    fn default() -> (r: ExternalAcks)
        ensures
            r@ == AckState::fresh(),
    {
        ExternalAcks::new()
    }
}

} // verus!
