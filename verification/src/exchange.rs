//! Whole exchanges: the bytes that a request and a response are on the bus,
//! and what the state machine makes of them. The laws here are stated for
//! every request and response, not for examples.

use vstd::prelude::*;
use crate::crc8::{checksum, lemma_checksum_detects_single_byte_change};
use crate::machine::{lemma_run_concat, EbusParserState, Machine, ACK, BROADCAST, SYN};
use crate::telegram::{RequestView, ResponseView, TelegramView, MAX_PAYLOAD_LEN};

verus! {

/// A request as it travels: header, payload, checksum byte.
pub open spec fn request_wire(request: RequestView) -> Seq<u8> {
    request.checked_bytes().push(request.crc)
}

/// A response as it travels: declared length, payload, checksum byte.
pub open spec fn response_wire(response: ResponseView) -> Seq<u8> {
    response.checked_bytes().push(response.crc)
}

/// A request that the machine can take in after a SYN: its source is not
/// itself a SYN, and its payload has the declared length, within the limit.
/// Nothing is said of its checksum byte.
pub open spec fn request_framed(request: RequestView) -> bool {
    &&& request.src != SYN
    &&& request.len <= MAX_PAYLOAD_LEN
    &&& request.data.len() == request.len
}

/// A response whose payload has the declared length, within the limit.
/// Nothing is said of its checksum byte.
pub open spec fn response_framed(response: ResponseView) -> bool {
    &&& response.len <= MAX_PAYLOAD_LEN
    &&& response.data.len() == response.len
}

/// The machine that holds a complete request and awaits its acknowledgement.
pub open spec fn holding_request(request: RequestView) -> Machine {
    Machine {
        state: EbusParserState::WaitingForACK,
        request,
        got_broadcast: request.dest == BROADCAST,
        ..Machine::cleared(EbusParserState::WaitingForACK)
    }
}

/// The machine that holds an acknowledged request and awaits the response.
pub open spec fn awaiting_response(request: RequestView) -> Machine {
    Machine {
        state: EbusParserState::WaitingForResponse,
        ack_received: true,
        ..holding_request(request)
    }
}

/// The machine that holds request and response and awaits the final
/// acknowledgement.
pub open spec fn holding_response(request: RequestView, response: ResponseView) -> Machine {
    Machine {
        state: EbusParserState::WaitingForACK,
        response,
        got_response: true,
        ..awaiting_response(request)
    }
}

/// One more byte at the end of a run is one more step.
pub proof fn lemma_run_push(machine: Machine, bytes: Seq<u8>, byte: u8)
    ensures
        machine.run(bytes.push(byte)).0 == machine.run(bytes).0.step(byte).0,
        machine.run(bytes.push(byte)).1 == match machine.run(bytes).0.step(byte).1 {
            Some(telegram) => machine.run(bytes).1.push(telegram),
            None => machine.run(bytes).1,
        },
{
    assert(bytes.push(byte).drop_last() =~= bytes);
}

/// The machine after `data` has been appended to the payload that it is
/// receiving.
pub open spec fn with_payload(machine: Machine, data: Seq<u8>) -> Machine {
    let remaining = (machine.remaining - data.len()) as u8;
    let state = if remaining == 0 {
        EbusParserState::WaitingForCRC
    } else {
        EbusParserState::WaitingForData
    };
    if machine.got_response {
        Machine {
            state,
            remaining,
            response: ResponseView {
                data: machine.response.data + data,
                ..machine.response
            },
            ..machine
        }
    } else {
        Machine {
            state,
            remaining,
            request: RequestView { data: machine.request.data + data, ..machine.request },
            ..machine
        }
    }
}

/// While a payload is awaited, bytes are appended to it one by one and
/// nothing is delivered.
pub proof fn lemma_run_payload(machine: Machine, data: Seq<u8>)
    requires
        machine.state == EbusParserState::WaitingForData,
        0 < machine.remaining,
        data.len() <= machine.remaining,
    ensures
        machine.run(data) == (with_payload(machine, data), Seq::<TelegramView>::empty()),
    decreases data.len(),
{
    if data.len() == 0 {
        assert(machine.request.data + data =~= machine.request.data);
        assert(machine.response.data + data =~= machine.response.data);
    } else {
        lemma_run_payload(machine, data.drop_last());
        let before = with_payload(machine, data.drop_last());
        assert(before.state == EbusParserState::WaitingForData);
        assert((machine.request.data + data.drop_last()).push(data.last())
            =~= machine.request.data + data);
        assert((machine.response.data + data.drop_last()).push(data.last())
            =~= machine.response.data + data);
    }
}

/// Reception of a request. After a SYN, the bytes of a framed request lead
/// the machine to hold exactly that request if its checksum byte is the
/// CRC-8 of header and payload, and back to waiting for a SYN, with nothing
/// kept, if it is not. Either way nothing is delivered yet.
pub proof fn lemma_request_reception(request: RequestView)
    requires
        request_framed(request),
    ensures
        Machine::cleared(EbusParserState::WaitingForSrc).run(request_wire(request)) == (
            if request.crc == checksum(request.checked_bytes()) {
                holding_request(request)
            } else {
                Machine::cleared(EbusParserState::WaitingForSYN)
            },
            Seq::<TelegramView>::empty(),
        ),
{
    let start = Machine::cleared(EbusParserState::WaitingForSrc);
    let header = request.header_bytes();
    let none = Seq::<TelegramView>::empty();
    let e = Seq::<u8>::empty();
    let h1 = e.push(header[0]);
    let h2 = h1.push(header[1]);
    let h3 = h2.push(header[2]);
    let h4 = h3.push(header[3]);
    let h5 = h4.push(header[4]);
    assert(h5 =~= header);
    lemma_run_push(start, e, header[0]);
    lemma_run_push(start, h1, header[1]);
    lemma_run_push(start, h2, header[2]);
    lemma_run_push(start, h3, header[3]);
    lemma_run_push(start, h4, header[4]);
    let pb = header[2];
    let sb = header[3];
    assert(((((pb * 256) as u16) / 256) * 256 + sb) as u16 == request.pbsb) by {
        assert(pb == request.pbsb / 256);
        assert(sb == request.pbsb % 256);
        assert((pb * 256) as u16 == pb * 256);
        assert((pb * 256) / 256 == pb as int);
    }
    let partial = RequestView { data: e, crc: 0, ..request };
    let at_length = Machine {
        state: if request.len == 0 {
            EbusParserState::WaitingForCRC
        } else {
            EbusParserState::WaitingForData
        },
        request: partial,
        remaining: request.len,
        got_broadcast: request.dest == BROADCAST,
        ..start
    };
    assert(start.run(header) == (at_length, none));
    lemma_run_concat(start, header, request.data);
    let filled = Machine {
        state: EbusParserState::WaitingForCRC,
        request: RequestView { crc: 0, ..request },
        remaining: 0,
        ..at_length
    };
    assert(at_length.run(request.data) == (filled, none)) by {
        if request.len == 0 {
            assert(request.data =~= e);
        } else {
            lemma_run_payload(at_length, request.data);
            assert(e + request.data =~= request.data);
        }
    }
    assert(none + none =~= none);
    assert(start.run(header + request.data) == (filled, none));
    lemma_run_push(start, header + request.data, request.crc);
    assert(filled.request.checked_bytes() == request.checked_bytes());
}

/// Reception of a response. After an acknowledged request, the bytes of a
/// framed response lead the machine to hold request and response if the
/// response's checksum byte is the CRC-8 of its length and payload, and back
/// to waiting for a SYN, with nothing kept, if it is not. Either way nothing
/// is delivered yet.
pub proof fn lemma_response_reception(request: RequestView, response: ResponseView)
    requires
        response_framed(response),
    ensures
        awaiting_response(request).run(response_wire(response)) == (
            if response.crc == checksum(response.checked_bytes()) {
                holding_response(request, response)
            } else {
                Machine::cleared(EbusParserState::WaitingForSYN)
            },
            Seq::<TelegramView>::empty(),
        ),
{
    let start = awaiting_response(request);
    let none = Seq::<TelegramView>::empty();
    let e = Seq::<u8>::empty();
    let header = seq![response.len];
    assert(e.push(response.len) =~= header);
    lemma_run_push(start, e, response.len);
    let at_length = Machine {
        state: if response.len == 0 {
            EbusParserState::WaitingForCRC
        } else {
            EbusParserState::WaitingForData
        },
        response: ResponseView { len: response.len, data: e, crc: 0 },
        remaining: response.len,
        got_response: true,
        ..start
    };
    assert(start.run(header) == (at_length, none));
    lemma_run_concat(start, header, response.data);
    let filled = Machine {
        state: EbusParserState::WaitingForCRC,
        response: ResponseView { crc: 0, ..response },
        remaining: 0,
        ..at_length
    };
    assert(at_length.run(response.data) == (filled, none)) by {
        if response.len == 0 {
            assert(response.data =~= e);
        } else {
            lemma_run_payload(at_length, response.data);
            assert(e + response.data =~= response.data);
        }
    }
    assert(none + none =~= none);
    lemma_run_push(start, header + response.data, response.crc);
    assert(filled.response.checked_bytes() == response.checked_bytes());
}

/// A request that no peer answers. After a SYN, a complete request, an ACK
/// and a SYN deliver exactly one telegram: the request, without a response.
/// The machine then waits for the next SYN.
pub proof fn lemma_request_alone_is_delivered(request: RequestView)
    requires
        request.complete(),
        request.src != SYN,
    ensures
        Machine::cleared(EbusParserState::WaitingForSrc).run(
            request_wire(request).push(ACK).push(SYN),
        ) == (
            Machine::cleared(EbusParserState::WaitingForSYN),
            seq![TelegramView { request, response: None }],
        ),
{
    let start = Machine::cleared(EbusParserState::WaitingForSrc);
    lemma_request_reception(request);
    lemma_run_push(start, request_wire(request), ACK);
    lemma_run_push(start, request_wire(request).push(ACK), SYN);
    assert(Seq::<TelegramView>::empty().push(TelegramView { request, response: None })
        =~= seq![TelegramView { request, response: None }]);
}

/// A request and its response. After a SYN, a complete request, an ACK, a
/// complete response and an ACK deliver exactly one telegram that holds
/// both, as they were sent. The machine then waits for the next SYN.
pub proof fn lemma_request_with_response_is_delivered(
    request: RequestView,
    response: ResponseView,
)
    requires
        request.complete(),
        request.src != SYN,
        response.complete(),
    ensures
        Machine::cleared(EbusParserState::WaitingForSrc).run(
            request_wire(request).push(ACK) + response_wire(response).push(ACK),
        ) == (
            Machine::cleared(EbusParserState::WaitingForSYN),
            seq![TelegramView { request, response: Some(response) }],
        ),
{
    let start = Machine::cleared(EbusParserState::WaitingForSrc);
    let none = Seq::<TelegramView>::empty();
    let telegram = TelegramView { request, response: Some(response) };
    lemma_request_reception(request);
    lemma_run_push(start, request_wire(request), ACK);
    lemma_response_reception(request, response);
    lemma_run_push(awaiting_response(request), response_wire(response), ACK);
    lemma_run_concat(start, request_wire(request).push(ACK), response_wire(response).push(ACK));
    assert(none.push(telegram) =~= seq![telegram]);
    assert(none + seq![telegram] =~= seq![telegram]);
}

/// A broadcast. After a SYN, a complete request to the broadcast address and
/// a SYN deliver exactly one telegram: the request, without a response. That
/// SYN also opens the next telegram: the machine waits for a source address.
pub proof fn lemma_broadcast_is_delivered(request: RequestView)
    requires
        request.complete(),
        request.src != SYN,
        request.dest == BROADCAST,
    ensures
        Machine::cleared(EbusParserState::WaitingForSrc).run(request_wire(request).push(SYN)) == (
            Machine::cleared(EbusParserState::WaitingForSrc),
            seq![TelegramView { request, response: None }],
        ),
{
    let start = Machine::cleared(EbusParserState::WaitingForSrc);
    lemma_request_reception(request);
    lemma_run_push(start, request_wire(request), SYN);
    assert(Seq::<TelegramView>::empty().push(TelegramView { request, response: None })
        =~= seq![TelegramView { request, response: None }]);
}

/// An oversized request is dropped. After a SYN, a header that declares more
/// payload than the limit allows returns the machine to waiting for a SYN,
/// with nothing kept and nothing delivered.
pub proof fn lemma_oversized_request_is_dropped(src: u8, dest: u8, pb: u8, sb: u8, len: u8)
    requires
        src != SYN,
        len > MAX_PAYLOAD_LEN,
    ensures
        Machine::cleared(EbusParserState::WaitingForSrc).run(seq![src, dest, pb, sb, len]) == (
            Machine::cleared(EbusParserState::WaitingForSYN),
            Seq::<TelegramView>::empty(),
        ),
{
    let start = Machine::cleared(EbusParserState::WaitingForSrc);
    let e = Seq::<u8>::empty();
    lemma_run_push(start, e, src);
    lemma_run_push(start, e.push(src), dest);
    lemma_run_push(start, e.push(src).push(dest), pb);
    lemma_run_push(start, e.push(src).push(dest).push(pb), sb);
    lemma_run_push(start, e.push(src).push(dest).push(pb).push(sb), len);
    assert(e.push(src).push(dest).push(pb).push(sb).push(len) =~= seq![src, dest, pb, sb, len]);
}

/// An oversized response is dropped, and the request with it. After an
/// acknowledged request, a byte that is neither a SYN nor a length within
/// the limit returns the machine to waiting for a SYN, with nothing kept and
/// nothing delivered.
pub proof fn lemma_oversized_response_is_dropped(request: RequestView, len: u8)
    requires
        len != SYN,
        len > MAX_PAYLOAD_LEN,
    ensures
        awaiting_response(request).step(len) == (
            Machine::cleared(EbusParserState::WaitingForSYN),
            None::<TelegramView>,
        ),
{
}

/// A corrupted request is dropped. If the bytes of a complete request are
/// altered at one position of the payload or at the checksum byte, the
/// machine delivers nothing and returns to waiting for a SYN, with nothing
/// kept of the request.
pub proof fn lemma_corrupted_request_is_dropped(request: RequestView, received: Seq<u8>, at: int)
    requires
        request.complete(),
        request.src != SYN,
        received.len() == request_wire(request).len(),
        5 <= at < received.len(),
        received[at] != request_wire(request)[at],
        forall|i: int|
            0 <= i < received.len() && i != at ==> received[i] == request_wire(request)[i],
    ensures
        Machine::cleared(EbusParserState::WaitingForSrc).run(received) == (
            Machine::cleared(EbusParserState::WaitingForSYN),
            Seq::<TelegramView>::empty(),
        ),
{
    let sent = request_wire(request);
    let last = received.len() - 1;
    let got = RequestView {
        data: received.subrange(5, last),
        crc: received[last],
        ..request
    };
    assert(request_wire(got) =~= received);
    if at < last {
        assert(got.checked_bytes()[at] == received[at]);
        assert(request.checked_bytes()[at] == sent[at]);
        assert forall|i: int| 0 <= i < got.checked_bytes().len() && i != at implies got.checked_bytes()[i]
            == request.checked_bytes()[i] by {
            assert(got.checked_bytes()[i] == received[i]);
            assert(request.checked_bytes()[i] == sent[i]);
        }
        lemma_checksum_detects_single_byte_change(
            got.checked_bytes(),
            request.checked_bytes(),
            at,
        );
    } else {
        assert(got.checked_bytes() =~= request.checked_bytes()) by {
            assert forall|i: int| 0 <= i < got.checked_bytes().len() implies got.checked_bytes()[i]
                == request.checked_bytes()[i] by {
                assert(got.checked_bytes()[i] == received[i]);
                assert(request.checked_bytes()[i] == sent[i]);
            }
        }
    }
    lemma_request_reception(got);
}

/// A corrupted response is dropped, and the request with it. If the bytes of
/// a complete response are altered at one position of the payload or at the
/// checksum byte, the machine delivers nothing and returns to waiting for a
/// SYN, with nothing kept of the exchange.
pub proof fn lemma_corrupted_response_is_dropped(
    request: RequestView,
    response: ResponseView,
    received: Seq<u8>,
    at: int,
)
    requires
        response.complete(),
        received.len() == response_wire(response).len(),
        1 <= at < received.len(),
        received[at] != response_wire(response)[at],
        forall|i: int|
            0 <= i < received.len() && i != at ==> received[i] == response_wire(response)[i],
    ensures
        awaiting_response(request).run(received) == (
            Machine::cleared(EbusParserState::WaitingForSYN),
            Seq::<TelegramView>::empty(),
        ),
{
    let sent = response_wire(response);
    let last = received.len() - 1;
    let got = ResponseView {
        data: received.subrange(1, last),
        crc: received[last],
        ..response
    };
    assert(received[0] == sent[0]);
    assert(response_wire(got) =~= received);
    if at < last {
        assert(got.checked_bytes()[at] == received[at]);
        assert(response.checked_bytes()[at] == sent[at]);
        assert forall|i: int| 0 <= i < got.checked_bytes().len() && i != at implies got.checked_bytes()[i]
            == response.checked_bytes()[i] by {
            assert(got.checked_bytes()[i] == received[i]);
            assert(response.checked_bytes()[i] == sent[i]);
        }
        lemma_checksum_detects_single_byte_change(
            got.checked_bytes(),
            response.checked_bytes(),
            at,
        );
    } else {
        assert(got.checked_bytes() =~= response.checked_bytes()) by {
            assert forall|i: int| 0 <= i < got.checked_bytes().len() implies got.checked_bytes()[i]
                == response.checked_bytes()[i] by {
                assert(got.checked_bytes()[i] == received[i]);
                assert(response.checked_bytes()[i] == sent[i]);
            }
        }
    }
    lemma_response_reception(request, got);
}

} // verus!
