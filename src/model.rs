use vstd::prelude::*;

verus! {

/// Distance beyond which a sequence number ahead of the newest one counts as
/// older rather than newer.
pub const FORWARD_LIMIT: u16 = 32000;

/// Number of sequence numbers before the newest one that the field covers.
pub const WINDOW: u16 = 32;

/// `(a - b) mod 65536`: how far `a` lies ahead of `b` on the wrapping circle.
pub open spec fn wrap_diff(a: u16, b: u16) -> int {
    (a as int - b as int) % 0x10000
}

/// `a - c`, wrapping modulo 65536.
pub open spec fn wrap_sub(a: u16, c: u16) -> u16 {
    ((a as int - c as int) % 0x10000) as u16
}

/// Bit `i` of `field`, counted from the least significant one.
pub open spec fn bit(field: u32, i: u32) -> bool {
    (field >> i) & 1u32 == 1u32
}

/// The state of a tracker as plain values.
pub struct AckState {
    pub initialized: bool,
    pub last_seq: u16,
    pub field: u32,
}

impl AckState {
    /// Well-formed: a tracker that has seen nothing yet has an empty field.
    pub open spec fn wf(self) -> bool {
        self.initialized || self.field == 0
    }

    /// A tracker that has seen nothing yet.
    pub open spec fn fresh() -> AckState {
        AckState { initialized: false, last_seq: 0, field: 0 }
    }

    /// The state after the sequence number `seq` has been recorded.
    pub open spec fn record(self, seq: u16) -> AckState {
        if !self.initialized {
            AckState { initialized: true, last_seq: seq, field: self.field }
        } else {
            let pos = wrap_diff(seq, self.last_seq);
            let neg = wrap_diff(self.last_seq, seq);
            if pos == 0 {
                self
            } else if pos < FORWARD_LIMIT {
                let field = if pos <= WINDOW {
                    ((self.field << 1u32) | 1u32) << ((pos - 1) as u32)
                } else {
                    0u32
                };
                AckState { initialized: true, last_seq: seq, field }
            } else if neg <= WINDOW {
                AckState { field: self.field | (1u32 << ((neg - 1) as u32)), ..self }
            } else {
                self
            }
        }
    }

    /// The state after each of `seqs` has been recorded, in order.
    pub open spec fn replay(self, seqs: Seq<u16>) -> AckState
        decreases seqs.len(),
    {
        if seqs.len() == 0 {
            self
        } else {
            self.replay(seqs.drop_last()).record(seqs.last())
        }
    }

    /// The same state with every sequence number moved back by `c`, wrapping.
    pub open spec fn shifted(self, c: u16) -> AckState {
        AckState { last_seq: wrap_sub(self.last_seq, c), ..self }
    }

    /// Whether the state acknowledges `s`: it is the newest number, or lies
    /// `d` behind it for some `d` in `1..=32` whose bit `d - 1` is set.
    pub open spec fn acked(self, s: u16) -> bool {
        self.initialized && (s == self.last_seq || {
            let d = wrap_diff(self.last_seq, s);
            1 <= d <= WINDOW && bit(self.field, (d - 1) as u32)
        })
    }
}

} // verus!
