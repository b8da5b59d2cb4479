//! The telegram state machine as a mathematical object: its states, its
//! transition function on one logical byte, and what holds of every state
//! that it can reach.

use vstd::prelude::*;
use crate::telegram::{RequestView, ResponseView, TelegramView, MAX_PAYLOAD_LEN};
use crate::crc8::checksum;

verus! {

/// Synchronisation byte: the bus is idle, a telegram may begin.
pub const SYN: u8 = 0xAA;

/// Positive acknowledgement.
pub const ACK: u8 = 0x00;

/// Negative acknowledgement: the sender will repeat the telegram.
pub const NACK: u8 = 0xFF;

/// Destination address that reaches every participant.
pub const BROADCAST: u8 = 0xFE;

/// What the state machine expects next.
#[derive(Clone, Copy, Debug, PartialEq, Eq, Structural)]
pub enum EbusParserState {
    /// Nothing is in progress; everything but a SYN is passed over.
    WaitingForSYN,
    /// A SYN was seen; the next byte that is not a SYN is a source address.
    WaitingForSrc,
    /// The destination address comes next.
    WaitingForDest,
    /// The primary command byte comes next.
    WaitingForPB,
    /// The secondary command byte comes next.
    WaitingForSB,
    /// The declared payload length of the request comes next.
    WaitingForLen,
    /// Payload bytes of the request or of the response are still to come.
    WaitingForData,
    /// The checksum byte of the request or of the response comes next.
    WaitingForCRC,
    /// The request, or the response, is complete; its acknowledgement comes
    /// next.
    WaitingForACK,
    /// The request was acknowledged; a response or a SYN comes next.
    WaitingForResponse,
}

/// The whole state of the machine between two bytes.
pub ghost struct Machine {
    pub state: EbusParserState,
    pub request: RequestView,
    pub response: ResponseView,
    /// Payload bytes still to come for the half that is being received.
    pub remaining: u8,
    pub got_response: bool,
    pub ack_received: bool,
    pub got_broadcast: bool,
}

impl Machine {
    /// A machine in `state` that holds no trace of any telegram.
    pub open spec fn cleared(state: EbusParserState) -> Machine {
        Machine {
            state,
            request: RequestView::empty(),
            response: ResponseView::empty(),
            remaining: 0,
            got_response: false,
            ack_received: false,
            got_broadcast: false,
        }
    }

    /// The machine before the first byte.
    pub open spec fn initial() -> Machine {
        Machine::cleared(EbusParserState::WaitingForSYN)
    }

    /// The telegram that the machine would deliver now: the request, and the
    /// response if one has been received.
    pub open spec fn telegram(self) -> TelegramView {
        TelegramView {
            request: self.request,
            response: if self.got_response {
                Some(self.response)
            } else {
                None
            },
        }
    }

    /// Takes `byte` as the declared length of the half that is being received.
    /// A length above the limit abandons the telegram. A length of zero is
    /// followed directly by the checksum.
    pub open spec fn accept_length(self, byte: u8) -> Machine {
        if byte > MAX_PAYLOAD_LEN {
            Machine::cleared(EbusParserState::WaitingForSYN)
        } else {
            let state = if byte == 0 {
                EbusParserState::WaitingForCRC
            } else {
                EbusParserState::WaitingForData
            };
            if self.got_response {
                Machine {
                    state,
                    response: ResponseView { len: byte, ..self.response },
                    remaining: byte,
                    ..self
                }
            } else {
                Machine {
                    state,
                    request: RequestView { len: byte, ..self.request },
                    remaining: byte,
                    ..self
                }
            }
        }
    }

    /// Appends `byte` to the payload that is being received.
    pub open spec fn accept_data(self, byte: u8) -> Machine {
        let remaining = if self.remaining > 0 {
            (self.remaining - 1) as u8
        } else {
            0
        };
        let state = if remaining == 0 {
            EbusParserState::WaitingForCRC
        } else {
            EbusParserState::WaitingForData
        };
        if self.got_response {
            Machine {
                state,
                response: ResponseView { data: self.response.data.push(byte), ..self.response },
                remaining,
                ..self
            }
        } else {
            Machine {
                state,
                request: RequestView { data: self.request.data.push(byte), ..self.request },
                remaining,
                ..self
            }
        }
    }

    /// Takes `byte` as the checksum of the half that is being received. If it
    /// is not the CRC-8 of that half, the telegram is abandoned.
    pub open spec fn accept_crc(self, byte: u8) -> Machine {
        if self.got_response {
            if checksum(self.response.checked_bytes()) == byte {
                Machine {
                    state: EbusParserState::WaitingForACK,
                    response: ResponseView { crc: byte, ..self.response },
                    ..self
                }
            } else {
                Machine::cleared(EbusParserState::WaitingForSYN)
            }
        } else {
            if checksum(self.request.checked_bytes()) == byte {
                Machine {
                    state: EbusParserState::WaitingForACK,
                    request: RequestView { crc: byte, ..self.request },
                    ..self
                }
            } else {
                Machine::cleared(EbusParserState::WaitingForSYN)
            }
        }
    }

    /// The transition on one logical byte: the next state of the machine, and
    /// the telegram that this byte completes, if it completes one.
    ///
    /// A telegram is delivered in three places: by the ACK that follows a
    /// response; by the SYN that follows an acknowledged request in place of
    /// a response; and, for a broadcast, by the SYN that follows the request
    /// in place of an ACK. That last SYN is also the start of the next
    /// telegram, so the machine goes on to wait for a source address; the
    /// same holds when the request was no broadcast, and is then dropped.
    /// After a delivery and after every drop the machine holds nothing of
    /// the telegram any more.
    pub open spec fn step(self, byte: u8) -> (Machine, Option<TelegramView>) {
        match self.state {
            EbusParserState::WaitingForSYN => if byte == SYN {
                (Machine { state: EbusParserState::WaitingForSrc, ..self }, None)
            } else {
                (self, None)
            },
            EbusParserState::WaitingForSrc => if byte != SYN {
                (
                    Machine {
                        state: EbusParserState::WaitingForDest,
                        request: RequestView { src: byte, ..self.request },
                        ..self
                    },
                    None,
                )
            } else {
                (self, None)
            },
            EbusParserState::WaitingForDest => (
                Machine {
                    state: EbusParserState::WaitingForPB,
                    request: RequestView { dest: byte, ..self.request },
                    got_broadcast: self.got_broadcast || byte == BROADCAST,
                    ..self
                },
                None,
            ),
            EbusParserState::WaitingForPB => (
                Machine {
                    state: EbusParserState::WaitingForSB,
                    request: RequestView { pbsb: (byte * 256) as u16, ..self.request },
                    ..self
                },
                None,
            ),
            EbusParserState::WaitingForSB => (
                Machine {
                    state: EbusParserState::WaitingForLen,
                    request: RequestView {
                        pbsb: ((self.request.pbsb / 256) * 256 + byte) as u16,
                        ..self.request
                    },
                    ..self
                },
                None,
            ),
            EbusParserState::WaitingForLen => (self.accept_length(byte), None),
            EbusParserState::WaitingForData => (self.accept_data(byte), None),
            EbusParserState::WaitingForCRC => (self.accept_crc(byte), None),
            EbusParserState::WaitingForACK => if byte == ACK {
                if self.got_response {
                    (Machine::cleared(EbusParserState::WaitingForSYN), Some(self.telegram()))
                } else {
                    (
                        Machine {
                            state: EbusParserState::WaitingForResponse,
                            ack_received: true,
                            ..self
                        },
                        None,
                    )
                }
            } else if byte == NACK {
                (Machine::cleared(EbusParserState::WaitingForSYN), None)
            } else if byte == SYN {
                (
                    Machine::cleared(EbusParserState::WaitingForSrc),
                    if self.got_broadcast {
                        Some(self.telegram())
                    } else {
                        None
                    },
                )
            } else {
                (Machine::cleared(EbusParserState::WaitingForSYN), None)
            },
            EbusParserState::WaitingForResponse => if byte == SYN {
                (Machine::cleared(EbusParserState::WaitingForSYN), Some(self.telegram()))
            } else {
                (Machine { got_response: true, ..self }.accept_length(byte), None)
            },
        }
    }

    /// The machine after a run of logical bytes, and the telegrams that the
    /// run completed, in order of completion.
    pub open spec fn run(self, bytes: Seq<u8>) -> (Machine, Seq<TelegramView>)
        decreases bytes.len(),
    {
        if bytes.len() == 0 {
            (self, Seq::empty())
        } else {
            let before = self.run(bytes.drop_last());
            let last = before.0.step(bytes.last());
            (
                last.0,
                match last.1 {
                    Some(telegram) => before.1.push(telegram),
                    None => before.1,
                },
            )
        }
    }

    /// While a payload or its checksum is awaited: the half being received
    /// has room for exactly the bytes still to come, and a request that a
    /// response follows is complete.
    pub open spec fn collecting(self) -> bool {
        if self.got_response {
            &&& self.request.complete()
            &&& self.response.len <= MAX_PAYLOAD_LEN
            &&& self.response.data.len() + self.remaining == self.response.len
        } else {
            &&& self.response.data.len() == 0
            &&& self.request.len <= MAX_PAYLOAD_LEN
            &&& self.request.data.len() + self.remaining == self.request.len
        }
    }

    /// What holds of every state that the machine reaches from
    /// `Machine::initial()`.
    pub open spec fn wf(self) -> bool {
        &&& match self.state {
            EbusParserState::WaitingForSYN | EbusParserState::WaitingForSrc => self
                == Machine::cleared(self.state),
            EbusParserState::WaitingForDest => {
                &&& !self.got_response
                &&& !self.got_broadcast
                &&& self.request.data.len() == 0
                &&& self.response.data.len() == 0
            },
            EbusParserState::WaitingForPB
            | EbusParserState::WaitingForSB
            | EbusParserState::WaitingForLen => {
                &&& !self.got_response
                &&& self.request.data.len() == 0
                &&& self.response.data.len() == 0
            },
            EbusParserState::WaitingForData => self.remaining > 0 && self.collecting(),
            EbusParserState::WaitingForCRC => self.remaining == 0 && self.collecting(),
            EbusParserState::WaitingForACK => {
                &&& self.request.complete()
                &&& if self.got_response {
                    self.response.complete()
                } else {
                    self.response.data.len() == 0
                }
            },
            EbusParserState::WaitingForResponse => {
                &&& self.request.complete()
                &&& !self.got_response
                &&& self.response.data.len() == 0
            },
        }
        &&& match self.state {
            EbusParserState::WaitingForSYN
            | EbusParserState::WaitingForSrc
            | EbusParserState::WaitingForDest => true,
            _ => self.got_broadcast == (self.request.dest == BROADCAST),
        }
    }
}

/// A step from a reachable state leads to a reachable state, and a telegram
/// that it delivers is complete: no partial telegram is ever delivered.
pub proof fn lemma_step_preserves_wf(machine: Machine, byte: u8)
    requires
        machine.wf(),
    ensures
        machine.step(byte).0.wf(),
        machine.step(byte).1 is Some ==> machine.step(byte).1->0.complete(),
{
}

/// Every telegram of the sequence is complete.
pub open spec fn all_complete(telegrams: Seq<TelegramView>) -> bool {
    forall|i: int| 0 <= i < telegrams.len() ==> (#[trigger] telegrams[i]).complete()
}

/// A run from a reachable state ends in a reachable state and delivers
/// complete telegrams only.
pub proof fn lemma_run_preserves_wf(machine: Machine, bytes: Seq<u8>)
    requires
        machine.wf(),
    ensures
        machine.run(bytes).0.wf(),
        all_complete(machine.run(bytes).1),
    decreases bytes.len(),
{
    if bytes.len() > 0 {
        lemma_run_preserves_wf(machine, bytes.drop_last());
        lemma_step_preserves_wf(machine.run(bytes.drop_last()).0, bytes.last());
    }
}

/// Running two sequences one after the other is running their concatenation:
/// where the bytes are cut makes no difference to the final state or to the
/// telegrams delivered.
pub proof fn lemma_run_concat(machine: Machine, first: Seq<u8>, second: Seq<u8>)
    ensures
        machine.run(first + second).0 == machine.run(first).0.run(second).0,
        machine.run(first + second).1 == machine.run(first).1 + machine.run(first).0.run(
            second,
        ).1,
    decreases second.len(),
{
    let middle = machine.run(first);
    if second.len() == 0 {
        assert(first + second =~= first);
        assert(middle.1 + Seq::<TelegramView>::empty() =~= middle.1);
    } else {
        lemma_run_concat(machine, first, second.drop_last());
        assert((first + second).drop_last() =~= first + second.drop_last());
        let before = middle.0.run(second.drop_last());
        let last = before.0.step(second.last());
        match last.1 {
            Some(telegram) => {
                assert((middle.1 + before.1).push(telegram) =~= middle.1 + before.1.push(
                    telegram,
                ));
            },
            None => {},
        }
    }
}

/// Only a broadcast is delivered without an acknowledgement: if a SYN in
/// place of the ACK delivers a telegram, its request went to the broadcast
/// address.
pub proof fn lemma_unacknowledged_delivery_is_broadcast(machine: Machine)
    requires
        machine.wf(),
        machine.state == EbusParserState::WaitingForACK,
        machine.step(SYN).1 is Some,
    ensures
        machine.step(SYN).1->0.request.dest == BROADCAST,
{
}

} // verus!
