use ebus::crc8::checksum_of;
use ebus::deframer::EbusData;
use ebus::parser::{EbusParser, PARSE_THRESHOLD};
use ebus::telegram::Telegram;

const SYN: u8 = 0xaa;
const ACK: u8 = 0x00;
const NACK: u8 = 0xff;

/// Request(src=0x03, dest=0x10, cmd=0x0700, len=0) with its checksum.
const REQUEST: [u8; 6] = [0x03, 0x10, 0x07, 0x00, 0x00, 0xd2];
/// Response(len=2, payload=[0x12, 0x34]) with its checksum.
const RESPONSE: [u8; 4] = [0x02, 0x12, 0x34, 0x87];
/// Request(src=0x03, dest=0xFE, cmd=0x0700, len=0) with its checksum.
const BROADCAST_REQUEST: [u8; 6] = [0x03, 0xfe, 0x07, 0x00, 0x00, 0xf0];

/// What a telegram holds, as plain values.
type Plain = ((u8, u8, u16, u8, Vec<u8>, u8), Option<(u8, Vec<u8>, u8)>);

fn plain(t: &Telegram) -> Plain {
    let q = t.request();
    (
        (q.src(), q.dest(), q.pbsb(), q.len(), q.data().clone(), q.crc()),
        t.response().map(|r| (r.len(), r.data().clone(), r.crc())),
    )
}

/// The bus bytes as the adapter sends them: every byte from 0x80 up travels
/// as an escaped pair with the command code for a received byte.
fn wire(bytes: &[u8]) -> Vec<u8> {
    let mut out = Vec::new();
    for &b in bytes {
        if b >= 0x80 {
            out.push(0xc4 | (b >> 6));
            out.push(0x80 | (b & 0x3f));
        } else {
            out.push(b);
        }
    }
    out
}

/// Feeds the raw bytes at once and parses whatever is queued.
fn decode_raw(raw: &[u8]) -> Vec<Plain> {
    let mut parser = EbusParser::new();
    let mut out: Vec<Plain> = parser.feed(raw, raw.len()).iter().map(plain).collect();
    out.extend(parser.parse_incoming_data().iter().map(plain));
    out
}

/// Sends the bus bytes through the adapter framing and decodes them.
fn decode(bytes: &[u8]) -> Vec<Plain> {
    decode_raw(&wire(bytes))
}

/// Runs the bus bytes through the state machine without any framing.
fn decode_logical(bytes: &[u8]) -> Vec<Plain> {
    let mut parser = EbusParser::new();
    let buffer: Vec<EbusData> = bytes.iter().map(|b| EbusData::PureByte(*b)).collect();
    parser.parse_protocol_buffer(&buffer).iter().map(plain).collect()
}

/// Feeds the raw bytes in chunks of `size` and parses whatever is queued at
/// the end.
fn decode_chunked(bytes: &[u8], size: usize) -> Vec<Plain> {
    let mut parser = EbusParser::new();
    let mut out: Vec<Plain> = Vec::new();
    for chunk in bytes.chunks(size) {
        out.extend(parser.feed(chunk, chunk.len()).iter().map(plain));
    }
    out.extend(parser.parse_incoming_data().iter().map(plain));
    out
}

fn request_only() -> Vec<u8> {
    let mut bytes = vec![SYN];
    bytes.extend_from_slice(&REQUEST);
    bytes.push(ACK);
    bytes.push(SYN);
    bytes
}

fn request_with_response() -> Vec<u8> {
    let mut bytes = vec![SYN];
    bytes.extend_from_slice(&REQUEST);
    bytes.push(ACK);
    bytes.extend_from_slice(&RESPONSE);
    bytes.push(ACK);
    bytes
}

fn expected_request() -> (u8, u8, u16, u8, Vec<u8>, u8) {
    (0x03, 0x10, 0x0700, 0, vec![], 0xd2)
}

#[test]
fn test_vectors_carry_correct_checksums() {
    assert_eq!(checksum_of(&REQUEST[..5]), REQUEST[5]);
    assert_eq!(checksum_of(&RESPONSE[..3]), RESPONSE[3]);
    assert_eq!(checksum_of(&BROADCAST_REQUEST[..5]), BROADCAST_REQUEST[5]);
}

#[test]
fn valid_telegram_without_response() {
    let out = decode_logical(&request_only());
    assert_eq!(out, vec![(expected_request(), None)]);
    assert_eq!(decode(&request_only()), out);
}

#[test]
fn valid_telegram_with_response() {
    let out = decode_logical(&request_with_response());
    assert_eq!(out, vec![(expected_request(), Some((2, vec![0x12, 0x34], 0x87)))]);
    assert_eq!(decode(&request_with_response()), out);
}

#[test]
fn unescaped_checksum_byte_is_a_framing_error() {
    assert_eq!(decode_raw(&request_only()), vec![]);
}

#[test]
fn state_machine_keeps_its_state_between_buffers() {
    let mut parser = EbusParser::new();
    let bytes = request_with_response();
    let mut count = 0;
    for b in &bytes {
        let out = parser.parse_protocol_buffer(&vec![EbusData::PureByte(*b)]);
        count += out.len();
    }
    assert_eq!(count, 1);
}

#[test]
fn telegram_getters_match_inputs() {
    let mut parser = EbusParser::new();
    let bytes = wire(&request_with_response());
    assert!(parser.feed(&bytes, bytes.len()).is_empty());
    let telegrams = parser.parse_incoming_data();
    assert_eq!(telegrams.len(), 1);
    let request = telegrams[0].request();
    assert_eq!(request.src(), 0x03);
    assert_eq!(request.dest(), 0x10);
    assert_eq!(request.pbsb(), 0x0700);
    assert_eq!(request.len(), 0);
    assert!(request.data().is_empty());
    assert_eq!(request.crc(), 0xd2);
    let response = telegrams[0].response().unwrap();
    assert_eq!(response.len(), 2);
    assert_eq!(response.data(), &vec![0x12, 0x34]);
    assert_eq!(response.crc(), 0x87);
}

#[test]
fn hex_getters_render_upper_case_without_padding() {
    let mut bytes = vec![SYN, 0x1f, 0x08, 0xb5, 0x09, 0x03, 0x0d, 0xab, 0x00];
    bytes.push(checksum_of(&bytes[1..]));
    bytes.push(ACK);
    bytes.extend_from_slice(&[0x10]);
    bytes.extend(0x20..0x30u8);
    bytes.push(0x45);
    bytes.push(ACK);
    let bytes = wire(&bytes);
    let mut parser = EbusParser::new();
    parser.feed(&bytes, bytes.len());
    let telegrams = parser.parse_incoming_data();
    assert_eq!(telegrams.len(), 1);
    let request = telegrams[0].request();
    assert_eq!(request.src_hex(), "1F");
    assert_eq!(request.dest_hex(), "8");
    assert_eq!(request.pbsb_hex(), "B509");
    assert_eq!(request.len_hex(), "3");
    assert_eq!(request.data_hex(), "0DAB00");
    let response = telegrams[0].response().unwrap();
    assert_eq!(response.len_hex(), "10");
    assert_eq!(response.data_hex(), "202122232425262728292A2B2C2D2E2F");
}

#[test]
fn hex_getters_of_small_values() {
    let out_bytes = wire(&request_only());
    let mut parser = EbusParser::new();
    parser.feed(&out_bytes, out_bytes.len());
    let telegrams = parser.parse_incoming_data();
    let request = telegrams[0].request();
    assert_eq!(request.src_hex(), "3");
    assert_eq!(request.dest_hex(), "10");
    assert_eq!(request.pbsb_hex(), "700");
    assert_eq!(request.len_hex(), "0");
    assert_eq!(request.data_hex(), "");
}

#[test]
fn feed_defers_parsing_until_threshold_is_passed() {
    let mut parser = EbusParser::new();
    let bytes = wire(&request_only());
    assert!(parser.feed(&bytes, bytes.len()).is_empty());
    let idle = vec![SYN; PARSE_THRESHOLD - bytes.len()];
    assert!(parser.feed(&idle, idle.len()).is_empty());
    let telegrams = parser.feed(&[SYN], 1);
    assert_eq!(telegrams.len(), 1);
    assert_eq!(plain(&telegrams[0]), (expected_request(), None));
    assert!(parser.parse_incoming_data().is_empty());
}

#[test]
fn feed_takes_only_the_first_len_bytes() {
    let mut bytes = wire(&request_only());
    let len = bytes.len();
    bytes.extend_from_slice(&[SYN, 0x01, 0x02, 0x03]);
    let mut parser = EbusParser::new();
    parser.feed(&bytes, len);
    let telegrams = parser.parse_incoming_data();
    assert_eq!(telegrams.len(), 1);
    let rest = wire(&request_only());
    parser.feed(&rest, rest.len());
    assert_eq!(parser.parse_incoming_data().len(), 1);
}

#[test]
fn chunking_invariance() {
    let mut bytes = Vec::new();
    for _ in 0..7 {
        bytes.extend_from_slice(&request_only());
        bytes.extend_from_slice(&request_with_response());
        bytes.push(SYN);
        bytes.extend_from_slice(&BROADCAST_REQUEST);
        bytes.push(SYN);
        bytes.extend_from_slice(&[0x31, 0x08, 0x11, 0x22, 0x11]);
        bytes.push(SYN);
    }
    assert_eq!(decode_logical(&bytes).len(), 21);
    let bytes = wire(&bytes);
    let whole = decode_raw(&bytes);
    assert_eq!(whole.len(), 21);
    assert_eq!(decode_chunked(&bytes, 1), whole);
    assert_eq!(decode_chunked(&bytes, 3), whole);
    assert_eq!(decode_chunked(&bytes, bytes.len()), whole);
    assert_eq!(decode_chunked(&bytes, 65), whole);
}

#[test]
fn chunking_invariance_with_escaped_pairs() {
    let mut bytes = Vec::new();
    for _ in 0..12 {
        bytes.extend_from_slice(&[0xc6, 0xaa]);
        bytes.extend_from_slice(&REQUEST[..5]);
        bytes.extend_from_slice(&[0xc7, 0x92]);
        bytes.push(ACK);
        bytes.extend_from_slice(&[0xc0, 0x80]);
        bytes.extend_from_slice(&[0xc6, 0xaa]);
    }
    let whole = decode_raw(&bytes);
    assert_eq!(whole.len(), 12);
    assert_eq!(whole[0], (expected_request(), None));
    assert_eq!(decode_chunked(&bytes, 1), whole);
    assert_eq!(decode_chunked(&bytes, 3), whole);
    assert_eq!(decode_chunked(&bytes, bytes.len()), whole);
}

#[test]
fn corrupted_checksum_byte_drops_telegram() {
    for wrong in 0..=255u8 {
        if wrong == REQUEST[5] {
            continue;
        }
        let mut bytes = vec![SYN];
        bytes.extend_from_slice(&REQUEST[..5]);
        bytes.push(wrong);
        bytes.push(ACK);
        bytes.push(SYN);
        assert_eq!(decode(&bytes), vec![]);
    }
}

#[test]
fn corrupted_payload_byte_drops_telegram() {
    let good_response = RESPONSE;
    for position in 1..3 {
        for bit in 0..8 {
            let mut response = good_response;
            response[position] ^= 1 << bit;
            let mut bytes = vec![SYN];
            bytes.extend_from_slice(&REQUEST);
            bytes.push(ACK);
            bytes.extend_from_slice(&response);
            bytes.push(ACK);
            assert_eq!(decode(&bytes), vec![]);
        }
    }
}

#[test]
fn parser_resynchronizes_after_corruption() {
    let mut bytes = vec![SYN];
    bytes.extend_from_slice(&REQUEST[..5]);
    bytes.push(0xd3);
    bytes.push(ACK);
    bytes.extend_from_slice(&request_only());
    assert_eq!(decode(&bytes), vec![(expected_request(), None)]);
}

#[test]
fn length_overflow_aborts_and_next_telegram_decodes() {
    let mut bytes = vec![SYN, 0x03, 0x10, 0x07, 0x00, 0x11, 0x01, 0x02];
    bytes.extend_from_slice(&request_with_response());
    assert_eq!(
        decode(&bytes),
        vec![(expected_request(), Some((2, vec![0x12, 0x34], 0x87)))]
    );
}

#[test]
fn maximum_length_is_accepted() {
    let mut bytes = vec![SYN, 0x31, 0x08, 0x50, 0x22, 0x10];
    bytes.extend(0x00..0x10u8);
    bytes.push(0xc1);
    bytes.push(ACK);
    bytes.push(SYN);
    let out = decode(&bytes);
    assert_eq!(
        out,
        vec![((0x31, 0x08, 0x5022, 0x10, (0x00..0x10u8).collect(), 0xc1), None)]
    );
}

#[test]
fn response_length_overflow_aborts() {
    let mut bytes = vec![SYN];
    bytes.extend_from_slice(&REQUEST);
    bytes.push(ACK);
    bytes.push(0x11);
    bytes.extend_from_slice(&[0x00, SYN]);
    bytes.extend_from_slice(&request_only());
    assert_eq!(decode(&bytes), vec![(expected_request(), None)]);
}

#[test]
fn broadcast_telegram_needs_no_ack() {
    let mut bytes = vec![SYN];
    bytes.extend_from_slice(&BROADCAST_REQUEST);
    bytes.push(SYN);
    assert_eq!(decode(&bytes), vec![((0x03, 0xfe, 0x0700, 0, vec![], 0xf0), None)]);
}

#[test]
fn syn_after_broadcast_opens_the_next_telegram() {
    let mut bytes = vec![SYN];
    bytes.extend_from_slice(&BROADCAST_REQUEST);
    bytes.push(SYN);
    bytes.extend_from_slice(&REQUEST);
    bytes.push(ACK);
    bytes.push(SYN);
    assert_eq!(
        decode(&bytes),
        vec![((0x03, 0xfe, 0x0700, 0, vec![], 0xf0), None), (expected_request(), None)]
    );
}

#[test]
fn unacknowledged_request_to_a_single_peer_is_dropped() {
    let mut bytes = vec![SYN];
    bytes.extend_from_slice(&REQUEST);
    bytes.push(SYN);
    bytes.extend_from_slice(&REQUEST);
    bytes.push(ACK);
    bytes.push(SYN);
    assert_eq!(decode(&bytes), vec![(expected_request(), None)]);
}

#[test]
fn nack_drops_telegram() {
    let mut bytes = vec![SYN];
    bytes.extend_from_slice(&REQUEST);
    bytes.push(NACK);
    bytes.push(SYN);
    assert_eq!(decode(&bytes), vec![]);
    bytes.extend_from_slice(&REQUEST);
    bytes.push(ACK);
    bytes.push(SYN);
    assert_eq!(decode(&bytes), vec![(expected_request(), None)]);
}

#[test]
fn unexpected_byte_in_place_of_ack_drops_telegram() {
    let mut bytes = vec![SYN];
    bytes.extend_from_slice(&REQUEST);
    bytes.push(0x55);
    bytes.push(SYN);
    assert_eq!(decode(&bytes), vec![]);
}

#[test]
fn bytes_before_first_syn_are_ignored() {
    let mut bytes = vec![0x01, 0x02, 0x03];
    bytes.extend_from_slice(&request_only());
    assert_eq!(decode(&bytes), vec![(expected_request(), None)]);
}

#[test]
fn repeated_syn_keeps_waiting_for_source() {
    let mut bytes = vec![SYN, SYN, SYN];
    bytes.extend_from_slice(&request_only());
    assert_eq!(decode(&bytes), vec![(expected_request(), None)]);
}

#[test]
fn telegrams_are_delivered_in_arrival_order() {
    let mut bytes = request_with_response();
    bytes.extend_from_slice(&request_only());
    let out = decode(&bytes);
    assert_eq!(out.len(), 2);
    assert!(out[0].1.is_some());
    assert!(out[1].1.is_none());
}

#[test]
fn escaped_stream_decodes_like_plain_stream() {
    let bytes = [
        0xc6, 0xaa, 0x03, 0x10, 0x07, 0x00, 0x00, 0xc7, 0x92, 0x00, 0x02, 0x12, 0x34, 0xc6, 0x87,
        0x00,
    ];
    assert_eq!(
        decode_raw(&bytes),
        vec![(expected_request(), Some((2, vec![0x12, 0x34], 0x87)))]
    );
}

#[test]
fn lone_opening_byte_is_kept_across_feeds() {
    let mut parser = EbusParser::new();
    let mut first = vec![SYN; PARSE_THRESHOLD];
    first.push(0xc6);
    assert!(parser.feed(&first, first.len()).is_empty());
    let mut second = vec![0xaa];
    second.extend_from_slice(&wire(&REQUEST));
    second.extend_from_slice(&[ACK, SYN]);
    assert!(parser.feed(&second, second.len()).is_empty());
    let telegrams = parser.parse_incoming_data();
    assert_eq!(telegrams.len(), 1);
    assert_eq!(plain(&telegrams[0]), (expected_request(), None));
}
