//! The decoding pipeline: raw bytes are queued, deframed into logical bytes,
//! and run through the telegram state machine. Completed telegrams are handed
//! to the caller by value, in the order in which their last byte arrived.

use vstd::prelude::*;
use std::collections::VecDeque;
use crate::deframer::{
    deframe, deframed, lemma_deframed_concat, lemma_deframed_rest, logical_bytes, EbusData,
};
use crate::machine::{
    lemma_run_concat, lemma_step_preserves_wf, EbusParserState, Machine, ACK, BROADCAST, NACK, SYN,
};
use crate::telegram::{
    telegram_views, EbusRequest, EbusResponse, RequestView, ResponseView, Telegram, TelegramView,
    MAX_PAYLOAD_LEN,
};

verus! {

/// `feed` starts a parse pass once more than this many raw bytes are queued.
pub const PARSE_THRESHOLD: usize = 64;

/// What a parser is, apart from how it is stored: the raw bytes that are
/// queued and not yet deframed, and the state of the telegram machine.
pub ghost struct ParserView {
    pub pending: Seq<u8>,
    pub machine: Machine,
}

impl ParserView {
    /// A parser that has seen nothing.
    pub open spec fn initial() -> ParserView {
        ParserView { pending: Seq::empty(), machine: Machine::initial() }
    }

    /// One parse pass: everything queued is deframed, the logical bytes run
    /// through the machine, and what deframing could not yet consume stays
    /// queued. The second component holds the telegrams that the pass
    /// completed.
    pub open spec fn parse_pass(self) -> (ParserView, Seq<TelegramView>) {
        let framed = deframed(self.pending);
        let ran = self.machine.run(logical_bytes(framed.0));
        (ParserView { pending: framed.1, machine: ran.0 }, ran.1)
    }

    /// The parser with `chunk` added to its queue and nothing parsed.
    pub open spec fn queue(self, chunk: Seq<u8>) -> ParserView {
        ParserView { pending: self.pending + chunk, machine: self.machine }
    }

    /// Feeding a chunk: the chunk is queued, and a parse pass follows if the
    /// queue has grown beyond the threshold.
    pub open spec fn feed(self, chunk: Seq<u8>) -> (ParserView, Seq<TelegramView>) {
        let queued = self.queue(chunk);
        if queued.pending.len() > PARSE_THRESHOLD {
            queued.parse_pass()
        } else {
            (queued, Seq::empty())
        }
    }

    /// Feeding chunk after chunk: the parser after the last one, and all
    /// telegrams delivered on the way, in order.
    pub open spec fn feed_all(self, chunks: Seq<Seq<u8>>) -> (ParserView, Seq<TelegramView>)
        decreases chunks.len(),
    {
        if chunks.len() == 0 {
            (self, Seq::empty())
        } else {
            let before = self.feed_all(chunks.drop_last());
            let last = before.0.feed(chunks.last());
            (last.0, before.1 + last.1)
        }
    }
}

/// The bytes of all chunks, one chunk after the other.
pub open spec fn joined(chunks: Seq<Seq<u8>>) -> Seq<u8>
    decreases chunks.len(),
{
    if chunks.len() == 0 {
        Seq::empty()
    } else {
        joined(chunks.drop_last()) + chunks.last()
    }
}

/// A parse pass right after a parse pass finds nothing to do.
pub proof fn lemma_parse_pass_settles(parser: ParserView)
    ensures
        parser.parse_pass().0.parse_pass() == (
            parser.parse_pass().0,
            Seq::<TelegramView>::empty(),
        ),
{
    lemma_deframed_rest(parser.pending);
    assert(logical_bytes(Seq::<EbusData>::empty()) =~= Seq::<u8>::empty());
}

/// A parse pass may come early: parsing what is queued, queueing `more` and
/// parsing again ends in the same parser and delivers the same telegrams as
/// queueing `more` first and parsing once.
pub proof fn lemma_parse_pass_resumes(parser: ParserView, more: Seq<u8>)
    ensures
        parser.queue(more).parse_pass().0 == parser.parse_pass().0.queue(more).parse_pass().0,
        parser.queue(more).parse_pass().1 == parser.parse_pass().1 + parser.parse_pass().0.queue(
            more,
        ).parse_pass().1,
{
    let first = deframed(parser.pending);
    let second = deframed(first.1 + more);
    lemma_deframed_concat(parser.pending, more);
    assert(logical_bytes(first.0 + second.0) =~= logical_bytes(first.0) + logical_bytes(
        second.0,
    ));
    lemma_run_concat(parser.machine, logical_bytes(first.0), logical_bytes(second.0));
}

/// Chunking invariance. However a byte sequence is cut into chunks, feeding
/// the chunks in order and then parsing what is still queued ends in the same
/// parser, and delivers the same telegrams in the same order, as queueing the
/// whole sequence and parsing once.
pub proof fn lemma_chunking_invariance(parser: ParserView, chunks: Seq<Seq<u8>>)
    ensures
        parser.feed_all(chunks).0.parse_pass().0 == parser.queue(joined(chunks)).parse_pass().0,
        parser.feed_all(chunks).1 + parser.feed_all(chunks).0.parse_pass().1 == parser.queue(
            joined(chunks),
        ).parse_pass().1,
    decreases chunks.len(),
{
    let none = Seq::<TelegramView>::empty();
    if chunks.len() == 0 {
        assert(parser.queue(joined(chunks)) == parser) by {
            assert(parser.pending + Seq::<u8>::empty() =~= parser.pending);
        }
        assert(none + parser.parse_pass().1 =~= parser.parse_pass().1);
    } else {
        let chunk = chunks.last();
        let before = parser.feed_all(chunks.drop_last());
        let whole_before = parser.queue(joined(chunks.drop_last()));
        lemma_chunking_invariance(parser, chunks.drop_last());
        lemma_parse_pass_resumes(before.0, chunk);
        lemma_parse_pass_resumes(whole_before, chunk);
        assert(whole_before.queue(chunk) == parser.queue(joined(chunks))) by {
            assert((parser.pending + joined(chunks.drop_last())) + chunk =~= parser.pending + (
            joined(chunks.drop_last()) + chunk));
        }
        let resumed = before.0.parse_pass().0.queue(chunk).parse_pass();
        assert(before.1 + (before.0.parse_pass().1 + resumed.1) =~= (before.1
            + before.0.parse_pass().1) + resumed.1);
        if before.0.queue(chunk).pending.len() > PARSE_THRESHOLD {
            lemma_parse_pass_settles(before.0.queue(chunk));
            let last = before.0.queue(chunk).parse_pass();
            assert((before.1 + last.1) + none =~= before.1 + last.1);
        } else {
            assert(before.1 + none =~= before.1);
        }
    }
}

/// Decoder for one bus connection.
pub struct EbusParser {
    state: EbusParserState,
    request: EbusRequest,
    response: EbusResponse,
    incoming_data_len: u8,
    incoming: VecDeque<u8>,
    got_response: bool,
    ack_received: bool,
    got_broadcast: bool,
}

impl View for EbusParser {
    type V = ParserView;

    closed spec fn view(&self) -> ParserView {
        ParserView {
            pending: self.incoming@,
            machine: Machine {
                state: self.state,
                request: self.request@,
                response: self.response@,
                remaining: self.incoming_data_len,
                got_response: self.got_response,
                ack_received: self.ack_received,
                got_broadcast: self.got_broadcast,
            },
        }
    }
}

impl EbusParser {
    /// The machine is in a state that it can reach from its initial state.
    pub open spec fn wf(&self) -> bool {
        self@.machine.wf()
    }

    /// A parser with an empty queue, waiting for the first SYN.
    pub fn new() -> (parser: EbusParser)
        ensures
            parser@ == ParserView::initial(),
            parser.wf(),
    {
        EbusParser {
            state: EbusParserState::WaitingForSYN,
            request: EbusRequest::empty(),
            response: EbusResponse::empty(),
            incoming: VecDeque::new(),
            incoming_data_len: 0,
            got_response: false,
            ack_received: false,
            got_broadcast: false,
        }
    }

    /// Abandons the telegram in progress and waits for the next SYN. Bytes
    /// that are queued stay queued.
    fn clear(&mut self)
        ensures
            final(self)@.pending == old(self)@.pending,
            final(self)@.machine == Machine::cleared(EbusParserState::WaitingForSYN),
    {
        self.state = EbusParserState::WaitingForSYN;
        self.request.clear();
        self.response.clear();
        self.incoming_data_len = 0;
        self.got_response = false;
        self.ack_received = false;
        self.got_broadcast = false;
    }

    /// Queues the first `len` bytes of `data` and, if more than
    /// `PARSE_THRESHOLD` bytes are then queued, parses all of them. Returns
    /// the telegrams that were completed, oldest first.
    pub fn feed(&mut self, data: &[u8], len: usize) -> (telegrams: Vec<Telegram>)
        requires
            old(self).wf(),
            len <= data@.len(),
        ensures
            final(self).wf(),
            final(self)@ == old(self)@.feed(data@.take(len as int)).0,
            telegram_views(telegrams@) == old(self)@.feed(data@.take(len as int)).1,
            forall|i: int| 0 <= i < telegrams@.len() ==> (#[trigger] telegrams@[i])@.complete(),
    {
        let ghost start = self@;
        let mut i: usize = 0;
        while i < len
            invariant
                i <= len <= data@.len(),
                self@.machine == start.machine,
                self@.pending == start.pending + data@.take(i as int),
            decreases len - i,
        {
            self.incoming.push_back(data[i]);
            proof {
                assert((start.pending + data@.take(i as int)).push(data@[i as int]) =~= start.pending
                    + data@.take(i + 1));
            }
            i += 1;
        }
        if self.incoming.len() > PARSE_THRESHOLD {
            self.parse_incoming_data()
        } else {
            let telegrams: Vec<Telegram> = Vec::new();
            proof {
                assert(telegram_views(telegrams@) =~= Seq::<TelegramView>::empty());
            }
            telegrams
        }
    }

    /// One parse pass over everything that is queued, whatever its amount.
    /// Returns the telegrams that were completed, oldest first.
    pub fn parse_incoming_data(&mut self) -> (telegrams: Vec<Telegram>)
        requires
            old(self).wf(),
        ensures
            final(self).wf(),
            final(self)@ == old(self)@.parse_pass().0,
            telegram_views(telegrams@) == old(self)@.parse_pass().1,
            forall|i: int| 0 <= i < telegrams@.len() ==> (#[trigger] telegrams@[i])@.complete(),
    {
        let buffer = deframe(&mut self.incoming);
        self.parse_protocol_buffer(&buffer)
    }

    /// Runs the logical bytes of `buffer` through the state machine. Returns
    /// the telegrams that were completed, oldest first.
    pub fn parse_protocol_buffer(&mut self, buffer: &Vec<EbusData>) -> (telegrams: Vec<Telegram>)
        requires
            old(self).wf(),
        ensures
            final(self).wf(),
            final(self)@.pending == old(self)@.pending,
            final(self)@.machine == old(self)@.machine.run(logical_bytes(buffer@)).0,
            telegram_views(telegrams@) == old(self)@.machine.run(logical_bytes(buffer@)).1,
            forall|i: int| 0 <= i < telegrams@.len() ==> (#[trigger] telegrams@[i])@.complete(),
    {
        let ghost start = self@;
        let ghost bytes = logical_bytes(buffer@);
        let mut telegrams: Vec<Telegram> = Vec::new();
        let mut i: usize = 0;
        proof {
            assert(telegram_views(telegrams@) =~= Seq::<TelegramView>::empty());
        }
        while i < buffer.len()
            invariant
                i <= buffer@.len(),
                bytes == logical_bytes(buffer@),
                self.wf(),
                self@.pending == start.pending,
                self@.machine == start.machine.run(bytes.take(i as int)).0,
                telegram_views(telegrams@) == start.machine.run(bytes.take(i as int)).1,
                forall|k: int| 0 <= k < telegrams@.len() ==> (#[trigger] telegrams@[k])@.complete(),
            decreases buffer@.len() - i,
        {
            let ghost before = telegram_views(telegrams@);
            proof {
                assert(bytes.take(i + 1).drop_last() =~= bytes.take(i as int));
                assert(bytes.take(i + 1).last() == buffer@[i as int].spec_byte());
            }
            match self.process_byte(buffer[i].byte()) {
                Some(telegram) => {
                    telegrams.push(telegram);
                    proof {
                        assert(telegram_views(telegrams@) =~= before.push(telegram@));
                    }
                },
                None => {},
            }
            i += 1;
        }
        proof {
            assert(bytes.take(i as int) =~= bytes);
        }
        telegrams
    }

    /// One transition of the state machine.
    fn process_byte(&mut self, byte: u8) -> (emitted: Option<Telegram>)
        requires
            old(self).wf(),
        ensures
            final(self).wf(),
            final(self)@.pending == old(self)@.pending,
            final(self)@.machine == old(self)@.machine.step(byte).0,
            emitted is Some == old(self)@.machine.step(byte).1 is Some,
            emitted is Some ==> emitted->0@ == old(self)@.machine.step(byte).1->0,
            emitted is Some ==> emitted->0@.complete(),
    {
        proof {
            lemma_step_preserves_wf(self@.machine, byte);
        }
        match self.state {
            EbusParserState::WaitingForSYN => {
                if byte == SYN {
                    self.state = EbusParserState::WaitingForSrc;
                }
                None
            },
            EbusParserState::WaitingForSrc => {
                if byte != SYN {
                    self.request.src = byte;
                    self.state = EbusParserState::WaitingForDest;
                }
                None
            },
            EbusParserState::WaitingForDest => {
                self.request.dest = byte;
                if self.request.dest == BROADCAST {
                    self.got_broadcast = true;
                }
                self.state = EbusParserState::WaitingForPB;
                None
            },
            EbusParserState::WaitingForPB => {
                self.request.pbsb = (byte as u16) << 8;
                proof {
                    assert((byte as u16) << 8 == (byte * 256) as u16) by (bit_vector);
                }
                self.state = EbusParserState::WaitingForSB;
                None
            },
            EbusParserState::WaitingForSB => {
                let high: u16 = self.request.pbsb & 0xFF00;
                self.request.pbsb = high | (byte as u16);
                proof {
                    let pbsb = old(self).request.pbsb;
                    assert((pbsb & 0xFF00) | (byte as u16) == ((pbsb / 256) * 256 + byte) as u16)
                        by (bit_vector);
                }
                self.state = EbusParserState::WaitingForLen;
                None
            },
            EbusParserState::WaitingForLen => {
                self.accept_length(byte);
                None
            },
            EbusParserState::WaitingForData => {
                if self.got_response {
                    self.response.data.push(byte);
                } else {
                    self.request.data.push(byte);
                }
                self.incoming_data_len -= 1;
                if self.incoming_data_len == 0 {
                    self.state = EbusParserState::WaitingForCRC;
                }
                None
            },
            EbusParserState::WaitingForCRC => {
                if self.got_response {
                    let crc = self.response.calc_crc8();
                    if crc == byte {
                        self.response.crc = byte;
                        self.state = EbusParserState::WaitingForACK;
                    } else {
                        self.clear();
                    }
                } else {
                    let crc = self.request.calc_crc8();
                    if crc == byte {
                        self.request.crc = byte;
                        self.state = EbusParserState::WaitingForACK;
                    } else {
                        self.clear();
                    }
                }
                None
            },
            EbusParserState::WaitingForACK => {
                if byte == ACK {
                    if self.got_response {
                        self.state = EbusParserState::WaitingForSYN;
                        Some(self.process())
                    } else {
                        self.ack_received = true;
                        self.state = EbusParserState::WaitingForResponse;
                        None
                    }
                } else if byte == NACK {
                    self.clear();
                    None
                } else if byte == SYN {
                    if self.got_broadcast {
                        self.state = EbusParserState::WaitingForSrc;
                        Some(self.process())
                    } else {
                        self.clear();
                        self.state = EbusParserState::WaitingForSrc;
                        None
                    }
                } else {
                    self.clear();
                    None
                }
            },
            EbusParserState::WaitingForResponse => {
                if byte == SYN {
                    self.state = EbusParserState::WaitingForSYN;
                    Some(self.process())
                } else {
                    self.got_response = true;
                    self.accept_length(byte);
                    None
                }
            },
        }
    }

    /// Takes `byte` as the declared length of the half that is being received.
    fn accept_length(&mut self, byte: u8)
        ensures
            final(self)@.pending == old(self)@.pending,
            final(self)@.machine == old(self)@.machine.accept_length(byte),
    {
        if byte > MAX_PAYLOAD_LEN {
            self.clear();
        } else {
            if self.got_response {
                self.response.len = byte;
            } else {
                self.request.len = byte;
            }
            self.incoming_data_len = byte;
            if byte == 0 {
                self.state = EbusParserState::WaitingForCRC;
            } else {
                self.state = EbusParserState::WaitingForData;
            }
        }
    }

    /// Delivers the telegram that has just been completed and forgets it. The
    /// state in which the machine goes on is the caller's to set.
    fn process(&mut self) -> (telegram: Telegram)
        ensures
            telegram@ == old(self)@.machine.telegram(),
            final(self)@.pending == old(self)@.pending,
            final(self)@.machine == Machine::cleared(old(self)@.machine.state),
    {
        let telegram = self.process_frame();
        self.incoming_data_len = 0;
        self.got_response = false;
        self.ack_received = false;
        self.got_broadcast = false;
        telegram
    }

    /// Moves the completed request, and the response if there is one, out of
    /// the parser and leaves empty ones in their place.
    fn process_frame(&mut self) -> (telegram: Telegram)
        ensures
            telegram@ == old(self)@.machine.telegram(),
            final(self)@.pending == old(self)@.pending,
            final(self)@.machine == (Machine {
                request: RequestView::empty(),
                response: ResponseView::empty(),
                ..old(self)@.machine
            }),
    {
        let mut request = EbusRequest::empty();
        let mut response = EbusResponse::empty();
        core::mem::swap(&mut self.request, &mut request);
        core::mem::swap(&mut self.response, &mut response);
        if self.got_response {
            Telegram { request, response: Some(response) }
        } else {
            Telegram { request, response: None }
        }
    }
}

} // verus!
