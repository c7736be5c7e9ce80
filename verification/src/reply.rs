//! How a reply goes out on the half-duplex bus: the transmit-enable line is
//! raised, two preamble bytes `0xFF` are written, then the frame; the
//! transmitter is flushed until it is idle, and the line is lowered.
//!
//! The sender is a state machine. It names the next thing to do; the caller
//! does it, waiting where the hardware would block, and tells the sender how
//! it went. An error of the line or of the bus ends the main loop: the sender
//! is not told.
use vstd::prelude::*;
use vstd::slice::slice_subrange;

verus! {

/// The byte that goes out before every frame.
pub const PREAMBLE_BYTE: u8 = 0xFF;

/// The number of preamble bytes.
pub const PREAMBLE_LEN: usize = 2;

/// Where the sender is.
#[derive(Debug, Clone, Copy, PartialEq, Eq, Structural)]
pub enum TxPhase {
    /// About to raise the transmit-enable line.
    Raise,
    /// Writing the preamble.
    Preamble,
    /// Writing the frame.
    Frame,
    /// About to flush the transmitter.
    Flush,
    /// About to lower the transmit-enable line.
    Lower,
    /// The reply is out.
    Done,
}

/// What the caller is to do next.
#[derive(Debug, Clone, Copy, PartialEq, Eq, Structural)]
pub enum TxAction {
    /// Set the transmit-enable line.
    SetTxEnable { high: bool },
    /// Write the bytes that `pending` hands out; the bus may take fewer.
    Write,
    /// Flush the transmitter until it is idle.
    Flush,
    /// Nothing: the reply is out.
    Finished,
}

/// The sender of one reply.
#[derive(Debug)]
pub struct ReplySender {
    pub phase: TxPhase,
    /// The preamble bytes that are still to be written.
    pub preamble_left: usize,
    /// The frame of the reply.
    pub frame: Vec<u8>,
    /// The number of bytes of the frame that are written.
    pub offset: usize,
    /// The one byte that a write of the preamble hands to the bus.
    pub preamble: [u8; 1],
}

impl ReplySender {
    pub open spec fn wf(&self) -> bool {
        &&& self.preamble@ == seq![PREAMBLE_BYTE]
        &&& self.preamble_left <= PREAMBLE_LEN
        &&& self.offset <= self.frame@.len()
        &&& match self.phase {
            TxPhase::Raise => self.preamble_left == PREAMBLE_LEN && self.offset == 0,
            TxPhase::Preamble => self.preamble_left > 0 && self.offset == 0,
            TxPhase::Frame => self.preamble_left == 0 && self.offset < self.frame@.len(),
            _ => self.preamble_left == 0 && self.offset == self.frame@.len(),
        }
    }

    /// The bytes that went out so far.
    pub open spec fn sent(&self) -> Seq<u8> {
        Seq::new((PREAMBLE_LEN - self.preamble_left) as nat, |i: int| PREAMBLE_BYTE)
            + self.frame@.take(self.offset as int)
    }

    /// What the sender asks for in its state.
    pub open spec fn wanted(&self) -> TxAction {
        match self.phase {
            TxPhase::Raise => TxAction::SetTxEnable { high: true },
            TxPhase::Preamble | TxPhase::Frame => TxAction::Write,
            TxPhase::Flush => TxAction::Flush,
            TxPhase::Lower => TxAction::SetTxEnable { high: false },
            TxPhase::Done => TxAction::Finished,
        }
    }

    /// The bytes that the next write hands to the bus: one preamble byte, or
    /// the rest of the frame.
    pub open spec fn to_write(&self) -> Seq<u8> {
        match self.phase {
            TxPhase::Preamble => seq![PREAMBLE_BYTE],
            TxPhase::Frame => self.frame@.subrange(self.offset as int, self.frame@.len() as int),
            _ => Seq::empty(),
        }
    }

    /// The phase after the preamble: the frame, or the flush where the frame is
    /// empty.
    pub open spec fn after_preamble(&self) -> TxPhase {
        if self.frame@.len() == 0 {
            TxPhase::Flush
        } else {
            TxPhase::Frame
        }
    }

    /// The sender of the reply with the given frame.
    pub fn new(frame: Vec<u8>) -> (sender: ReplySender)
        ensures
            sender.wf(),
            sender.phase == TxPhase::Raise,
            sender.frame@ == frame@,
            sender.sent() == Seq::<u8>::empty(),
    {
        let sender = ReplySender {
            phase: TxPhase::Raise,
            preamble_left: PREAMBLE_LEN,
            frame,
            offset: 0,
            preamble: [PREAMBLE_BYTE],
        };
        assert(sender.preamble@ =~= seq![PREAMBLE_BYTE]);
        assert(sender.sent() =~= Seq::<u8>::empty());
        sender
    }

    /// What to do next.
    pub fn action(&self) -> (action: TxAction)
        ensures
            action == self.wanted(),
    {
        match self.phase {
            TxPhase::Raise => TxAction::SetTxEnable { high: true },
            TxPhase::Preamble | TxPhase::Frame => TxAction::Write,
            TxPhase::Flush => TxAction::Flush,
            TxPhase::Lower => TxAction::SetTxEnable { high: false },
            TxPhase::Done => TxAction::Finished,
        }
    }

    /// The bytes to hand to the bus in the next write.
    pub fn pending(&self) -> (bytes: &[u8])
        requires
            self.wf(),
        ensures
            bytes@ == self.to_write(),
    {
        match self.phase {
            TxPhase::Preamble => self.preamble.as_slice(),
            TxPhase::Frame => slice_subrange(
                self.frame.as_slice(),
                self.offset,
                self.frame.len(),
            ),
            _ => slice_subrange(self.frame.as_slice(), 0, 0),
        }
    }

    /// The line is set, or the transmitter is flushed.
    pub fn done(&mut self)
        requires
            old(self).wf(),
            old(self).phase == TxPhase::Raise || old(self).phase == TxPhase::Flush || old(
                self,
            ).phase == TxPhase::Lower,
        ensures
            final(self).wf(),
            final(self).frame@ == old(self).frame@,
            final(self).sent() == old(self).sent(),
            final(self).phase == (match old(self).phase {
                TxPhase::Raise => TxPhase::Preamble,
                TxPhase::Flush => TxPhase::Lower,
                _ => TxPhase::Done,
            }),
    {
        match self.phase {
            TxPhase::Raise => {
                self.phase = TxPhase::Preamble;
            },
            TxPhase::Flush => {
                self.phase = TxPhase::Lower;
            },
            _ => {
                self.phase = TxPhase::Done;
            },
        }
    }

    /// The bus took the first `count` of the pending bytes. A write of the
    /// preamble may take none; a write of the frame takes at least one.
    pub fn written(&mut self, count: usize)
        requires
            old(self).wf(),
            old(self).phase == TxPhase::Preamble || old(self).phase == TxPhase::Frame,
            count <= old(self).to_write().len(),
            old(self).phase == TxPhase::Frame ==> count > 0,
        ensures
            final(self).wf(),
            final(self).frame@ == old(self).frame@,
            final(self).sent() == old(self).sent() + old(self).to_write().take(count as int),
            final(self).phase == (match old(self).phase {
                TxPhase::Preamble => if old(self).preamble_left == count {
                    old(self).after_preamble()
                } else {
                    TxPhase::Preamble
                },
                _ => if old(self).offset + count == old(self).frame@.len() {
                    TxPhase::Flush
                } else {
                    TxPhase::Frame
                },
            }),
    {
        match self.phase {
            TxPhase::Preamble => {
                self.preamble_left = self.preamble_left - count;
                if self.preamble_left == 0 {
                    self.phase = if self.frame.len() == 0 {
                        TxPhase::Flush
                    } else {
                        TxPhase::Frame
                    };
                }
            },
            _ => {
                let total = self.frame.len();
                self.offset = self.offset + count;
                if self.offset == total {
                    self.phase = TxPhase::Flush;
                }
            },
        }
        assert(self.sent() =~= old(self).sent() + old(self).to_write().take(count as int));
    }

    /// Whether the reply is out.
    pub fn finished(&self) -> (yes: bool)
        ensures
            yes == (self.phase == TxPhase::Done),
    {
        self.phase == TxPhase::Done
    }

    /// From the flush on, exactly the two preamble bytes and the frame went out.
    pub proof fn lemma_all_sent(&self)
        requires
            self.wf(),
            self.phase == TxPhase::Flush || self.phase == TxPhase::Lower || self.phase
                == TxPhase::Done,
        ensures
            self.sent() == seq![PREAMBLE_BYTE, PREAMBLE_BYTE] + self.frame@,
    {
        assert(self.sent() =~= seq![PREAMBLE_BYTE, PREAMBLE_BYTE] + self.frame@);
    }
}

} // verus!
