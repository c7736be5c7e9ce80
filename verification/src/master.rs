//! The master's end of one exchange: the frame of a request, the time to wait
//! for the answer, and what the bytes that come back amount to.
use crate::bytes::Wire;
use crate::codec::{master_next, master_reads, RequestTrait, Response};
use crate::command::Command;
use crate::frame::{frame_wire, hunt, Message};
use vstd::prelude::*;

verus! {

/// The most bytes that wait in the master's buffer: a frame with 1024 bytes
/// between header and footer.
pub const MASTER_BUFFER_LEN: usize = 1034;

/// The least time in microseconds that the master waits for an answer.
pub const MIN_TIMEOUT_US: u32 = 1000;

/// The time in microseconds that the master waits for the answer to a request
/// of type `P`.
pub fn response_timeout_us<P: RequestTrait>() -> (timeout: u32)
    ensures
        timeout == (if P::request_timeout_us() > MIN_TIMEOUT_US {
            P::request_timeout_us()
        } else {
            MIN_TIMEOUT_US
        }),
{
    let timeout = P::timeout_us();
    if timeout > MIN_TIMEOUT_US {
        timeout
    } else {
        MIN_TIMEOUT_US
    }
}

/// The frame that carries `payload` as a request to the device at `address`.
pub fn request_frame<P: RequestTrait>(address: u16, payload: P) -> (frame: Vec<u8>)
    ensures
        frame@ == frame_wire(address, P::request_command().code(), payload.wire()),
{
    Message::new_request(address, P::command(), payload).as_bytes()
}

/// The address that a scan of the bus asks at its step `index`, counted from
/// zero: the addresses from 0 to `max_address` in order, then `0xFFFF`, the
/// address of an unconfigured device, unless it was asked already. Without
/// `max_address` all addresses are asked. `None` when the scan is over.
pub fn scan_address(index: u32, max_address: Option<u16>) -> (address: Option<u16>)
    ensures
        address == ({
            let last: u16 = match max_address {
                Some(max) => max,
                None => 0xFFFFu16,
            };
            if index <= last {
                Some(index as u16)
            } else if index == last + 1 && last != 0xFFFF {
                Some(0xFFFFu16)
            } else {
                None
            }
        }),
{
    let last: u16 = match max_address {
        Some(max) => max,
        None => 0xFFFF,
    };
    if index <= last as u32 {
        Some(index as u16)
    } else if index == last as u32 + 1 && last != 0xFFFF {
        Some(0xFFFF)
    } else {
        None
    }
}

/// What the bytes received so far amount to.
#[derive(Debug, Clone, Copy, PartialEq, Eq)]
pub enum Answer<R> {
    /// The awaited response.
    Response(R),
    /// A response from another device than the one that was asked.
    WrongAddress(u16),
    /// A response to another command than the one that was sent.
    WrongCommand(Command),
    /// No response yet.
    Pending,
}

/// The bytes that the master has received and not processed yet.
pub struct Master {
    buffer: Vec<u8>,
}

impl Master {
    pub closed spec fn buffer(&self) -> Seq<u8> {
        self.buffer@
    }

    pub open spec fn wf(&self) -> bool {
        self.buffer().len() <= MASTER_BUFFER_LEN
    }

    pub fn new() -> (master: Master)
        ensures
            master.wf(),
            master.buffer() == Seq::<u8>::empty(),
    {
        Master { buffer: Vec::new() }
    }

    /// The number of bytes that a read may bring.
    pub fn free_tail(&self) -> (free: usize)
        requires
            self.wf(),
        ensures
            free == MASTER_BUFFER_LEN - self.buffer().len(),
    {
        MASTER_BUFFER_LEN - self.buffer.len()
    }

    /// What `answer` and the buffer `after` must be, where the master reads `read`
    /// from the buffer `all` while it awaits the response to a request of type
    /// `P` from the device at `address`. A response from another device or to
    /// another command is reported and stays in the buffer; in every other case
    /// the buffer loses what the look into it is done with.
    pub open spec fn answered<P: RequestTrait>(
        all: Seq<u8>,
        address: u16,
        read: Option<(u16, Response)>,
        answer: Answer<P::Response>,
        after: Seq<u8>,
    ) -> bool {
        let rest = all.subrange(hunt(all, 0).processed, all.len() as int);
        match read {
            None => answer is Pending && after == rest,
            Some((from, response)) => if from != address {
                answer == Answer::<P::Response>::WrongAddress(from) && after == all
            } else if response.command_of() != P::request_command() {
                answer == Answer::<P::Response>::WrongCommand(response.command_of()) && after
                    == all
            } else {
                &&& answer matches Answer::Response(message)
                &&& message.wire() == response.payload()
                &&& after == rest
            },
        }
    }

    /// A read brought `data`, which may be empty: looks once into the buffer for
    /// the response to a request of type `P` from the device at `address`.
    pub fn received<P: RequestTrait>(&mut self, data: &[u8], address: u16) -> (answer: Answer<
        P::Response,
    >)
        requires
            old(self).wf(),
            data@.len() <= MASTER_BUFFER_LEN - old(self).buffer().len(),
        ensures
            final(self).wf(),
            exists|read: Option<(u16, Response)>|
                {
                    &&& #[trigger] master_reads(old(self).buffer() + data@, read)
                    &&& Master::answered::<P>(
                        old(self).buffer() + data@,
                        address,
                        read,
                        answer,
                        final(self).buffer(),
                    )
                },
    {
        self.buffer.extend_from_slice(data);
        let ghost all = self.buffer@;
        assert(all =~= old(self).buffer() + data@);
        let (maybe_message, processed) = master_next(self.buffer.as_slice());
        proof {
            crate::frame::lemma_hunt_bounds(all, 0);
        }
        let answer = match maybe_message {
            Some((from, response)) => {
                if from != address {
                    Answer::WrongAddress(from)
                } else {
                    match P::get_response(response) {
                        Some(message) => {
                            let rest = self.buffer.split_off(processed);
                            self.buffer = rest;
                            Answer::Response(message)
                        },
                        None => Answer::WrongCommand(response.command()),
                    }
                }
            },
            None => {
                let rest = self.buffer.split_off(processed);
                self.buffer = rest;
                Answer::Pending
            },
        };
        assert(master_reads(all, maybe_message) && Master::answered::<P>(
            all,
            address,
            maybe_message,
            answer,
            self.buffer@,
        ));
        answer
    }
}

} // verus!
