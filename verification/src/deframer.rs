//! Adapter framing: the adapter escapes every byte above 0x7F into a pair that
//! also carries a command code, and reports its own status through the same
//! pairs. Deframing undoes the escaping and keeps only forwarded bus bytes.

use vstd::prelude::*;
use std::collections::VecDeque;

verus! {

/// First byte value that opens an escaped pair: both top bits set.
pub const ESCAPE_LEAD: u8 = 0xC0;

/// Smallest valid second byte of an escaped pair: top bit set.
pub const ESCAPE_TRAIL: u8 = 0x80;

/// What the adapter says with the command code of an escaped pair.
#[derive(Clone, Copy, Debug, PartialEq, Eq, Structural)]
pub enum EnhProtoResponse {
    /// The adapter was reset.
    Resetted,
    /// A byte was received from the bus; the pair carries it.
    Received,
    /// Bus arbitration has started.
    Started,
    /// Adapter information.
    Info,
    /// A requested operation failed.
    Failed,
    /// Error on the bus side.
    ErrorEbus,
    /// Error on the host side.
    ErrorHost,
    /// A code that the protocol does not define.
    Unknown,
}

impl EnhProtoResponse {
    /// The meaning of a command code. Every code has one; codes outside the
    /// protocol map to `Unknown`.
    pub open spec fn of_code(code: u8) -> EnhProtoResponse {
        if code == 0x00 {
            EnhProtoResponse::Resetted
        } else if code == 0x01 {
            EnhProtoResponse::Received
        } else if code == 0x02 {
            EnhProtoResponse::Started
        } else if code == 0x03 {
            EnhProtoResponse::Info
        } else if code == 0x0a {
            EnhProtoResponse::Failed
        } else if code == 0x0b {
            EnhProtoResponse::ErrorEbus
        } else if code == 0x0c {
            EnhProtoResponse::ErrorHost
        } else {
            EnhProtoResponse::Unknown
        }
    }

    /// Classifies a command code.
    pub fn from_code(code: u8) -> (response: EnhProtoResponse)
        ensures
            response == EnhProtoResponse::of_code(code),
    {
        match code {
            0x00 => EnhProtoResponse::Resetted,
            0x01 => EnhProtoResponse::Received,
            0x02 => EnhProtoResponse::Started,
            0x03 => EnhProtoResponse::Info,
            0x0a => EnhProtoResponse::Failed,
            0x0b => EnhProtoResponse::ErrorEbus,
            0x0c => EnhProtoResponse::ErrorHost,
            _ => EnhProtoResponse::Unknown,
        }
    }
}

/// One item of the logical byte stream.
#[derive(Clone, Copy, Debug, PartialEq, Eq, Structural)]
pub enum EbusData {
    /// A byte recovered from an escaped pair, with the pair's command code
    /// first and the byte second.
    EnhancedProtocol(u8, u8),
    /// A byte that arrived unescaped.
    PureByte(u8),
}

impl EbusData {
    /// The bus byte that the item carries.
    pub open spec fn spec_byte(self) -> u8 {
        match self {
            EbusData::EnhancedProtocol(_, data) => data,
            EbusData::PureByte(byte) => byte,
        }
    }

    /// The bus byte that the item carries.
    #[verifier::when_used_as_spec(spec_byte)]
    pub fn byte(self) -> (byte: u8)
        ensures
            byte == self.spec_byte(),
    {
        match self {
            EbusData::EnhancedProtocol(_, data) => data,
            EbusData::PureByte(byte) => byte,
        }
    }
}

/// The bus bytes of a run of items, in order.
pub open spec fn logical_bytes(items: Seq<EbusData>) -> Seq<u8> {
    items.map_values(|item: EbusData| item.spec_byte())
}

/// Command code of an escaped pair: bits 5 to 2 of its first byte.
pub open spec fn enh_command(b1: u8) -> u8
    recommends
        b1 >= ESCAPE_LEAD,
{
    ((b1 - 0xC0) / 4) as u8
}

/// Data byte of an escaped pair: the two low bits of the first byte become the
/// two high bits, and the second byte less its marker bit is added modulo 256.
/// For a second byte below 0xC0 the sum has no carry.
pub open spec fn enh_data(b1: u8, b2: u8) -> u8
    recommends
        b1 >= ESCAPE_LEAD,
        b2 >= ESCAPE_TRAIL,
{
    ((((b1 - 0xC0) % 4) * 64 + (b2 - 0x80)) % 256) as u8
}

/// Splits an escaped pair into command code and data byte.
pub fn decode_enhproto_tuple(b1: u8, b2: u8) -> (pair: (u8, u8))
    requires
        b1 >= ESCAPE_LEAD,
        b2 >= ESCAPE_TRAIL,
    ensures
        pair.0 == enh_command(b1),
        pair.1 == enh_data(b1, b2),
{
    let low: u8 = b1 - 0xc0;
    let high_bits: u8 = low << 6;
    let cmd: u8 = low >> 2;
    proof {
        assert(low << 6 == (low % 4) * 64) by (bit_vector);
        assert(low >> 2 == low / 4) by (bit_vector);
    }
    let data: u8 = high_bits.wrapping_add(b2 - 0x80);
    (cmd, data)
}

/// What deframing makes of a queue of raw bytes: the logical items that it
/// yields, and the raw bytes that stay queued.
///
/// Reading from the front: a byte below 0xC0 passes through. A byte from 0xC0
/// up opens a pair. If it is the last byte queued, it stays, and nothing after
/// it is read. If the byte after it is below 0x80, the opening byte alone is
/// discarded and reading goes on at that next byte. Otherwise both bytes are
/// consumed, and the pair yields its data byte if its command code says that
/// a byte was received, and nothing for any other code.
pub open spec fn deframed(raw: Seq<u8>) -> (Seq<EbusData>, Seq<u8>)
    decreases raw.len(),
{
    if raw.len() == 0 {
        (Seq::empty(), Seq::empty())
    } else if raw[0] < ESCAPE_LEAD {
        let rest = deframed(raw.skip(1));
        (seq![EbusData::PureByte(raw[0])] + rest.0, rest.1)
    } else if raw.len() == 1 {
        (Seq::empty(), raw)
    } else if raw[1] < ESCAPE_TRAIL {
        deframed(raw.skip(1))
    } else {
        let rest = deframed(raw.skip(2));
        if EnhProtoResponse::of_code(enh_command(raw[0])) == EnhProtoResponse::Received {
            (
                seq![EbusData::EnhancedProtocol(enh_command(raw[0]), enh_data(raw[0], raw[1]))]
                    + rest.0,
                rest.1,
            )
        } else {
            rest
        }
    }
}

/// What deframing leaves queued is nothing or a single opening byte, and
/// deframing it again changes nothing.
pub proof fn lemma_deframed_rest(raw: Seq<u8>)
    ensures
        deframed(raw).1.len() == 0 || (deframed(raw).1.len() == 1 && deframed(raw).1[0]
            >= ESCAPE_LEAD),
        deframed(deframed(raw).1) == (Seq::<EbusData>::empty(), deframed(raw).1),
    decreases raw.len(),
{
    if raw.len() == 0 {
    } else if raw[0] < ESCAPE_LEAD {
        lemma_deframed_rest(raw.skip(1));
    } else if raw.len() == 1 {
    } else if raw[1] < ESCAPE_TRAIL {
        lemma_deframed_rest(raw.skip(1));
    } else {
        lemma_deframed_rest(raw.skip(2));
    }
}

/// Deframing may stop and resume anywhere: deframing `first`, then deframing
/// what that left queued together with `second`, yields the items of
/// deframing `first + second` at once, and leaves the same bytes queued.
pub proof fn lemma_deframed_concat(first: Seq<u8>, second: Seq<u8>)
    ensures
        deframed(first + second).0 == deframed(first).0 + deframed(
            deframed(first).1 + second,
        ).0,
        deframed(first + second).1 == deframed(deframed(first).1 + second).1,
    decreases first.len(),
{
    let whole = first + second;
    let e = Seq::<EbusData>::empty();
    if first.len() == 0 {
        assert(deframed(first).1 + second =~= whole);
        assert(e + deframed(whole).0 =~= deframed(whole).0);
    } else if first[0] < ESCAPE_LEAD {
        lemma_deframed_concat(first.skip(1), second);
        assert(whole.skip(1) =~= first.skip(1) + second);
        let head = seq![EbusData::PureByte(first[0])];
        let a = deframed(first.skip(1)).0;
        let b = deframed(deframed(first.skip(1)).1 + second).0;
        assert(head + (a + b) =~= (head + a) + b);
    } else if first.len() == 1 {
        assert(deframed(first).1 + second =~= whole);
        assert(e + deframed(whole).0 =~= deframed(whole).0);
    } else if first[1] < ESCAPE_TRAIL {
        lemma_deframed_concat(first.skip(1), second);
        assert(whole.skip(1) =~= first.skip(1) + second);
    } else {
        lemma_deframed_concat(first.skip(2), second);
        assert(whole.skip(2) =~= first.skip(2) + second);
        if EnhProtoResponse::of_code(enh_command(first[0])) == EnhProtoResponse::Received {
            let head = seq![
                EbusData::EnhancedProtocol(enh_command(first[0]), enh_data(first[0], first[1])),
            ];
            let a = deframed(first.skip(2)).0;
            let b = deframed(deframed(first.skip(2)).1 + second).0;
            assert(head + (a + b) =~= (head + a) + b);
        }
    }
}

/// Deframes the queue in place: returns the logical items and leaves in the
/// queue what must wait for more input, which is nothing or one opening byte.
pub fn deframe(incoming: &mut VecDeque<u8>) -> (items: Vec<EbusData>)
    ensures
        items@ == deframed(old(incoming)@).0,
        final(incoming)@ == deframed(old(incoming)@).1,
{
    let ghost start = incoming@;
    let mut items: Vec<EbusData> = Vec::new();
    loop
        invariant
            deframed(start).0 == items@ + deframed(incoming@).0,
            deframed(start).1 == deframed(incoming@).1,
        ensures
            deframed(start).0 == items@,
            deframed(start).1 == incoming@,
        decreases incoming@.len(),
    {
        if incoming.len() == 0 {
            assert(items@ + Seq::<EbusData>::empty() =~= items@);
            assert(incoming@ =~= Seq::<u8>::empty());
            break ;
        }
        let b1: u8 = incoming[0];
        assert((b1 & 0xC0) == 0xC0 <==> b1 >= 0xC0) by (bit_vector);
        if (b1 & 0xC0) == 0xC0 {
            if incoming.len() < 2 {
                assert(items@ + Seq::<EbusData>::empty() =~= items@);
                break ;
            }
            let b2: u8 = incoming[1];
            assert((b2 & 0x80) == 0x80 <==> b2 >= 0x80) by (bit_vector);
            let ghost before = incoming@;
            incoming.pop_front();
            assert(incoming@ =~= before.skip(1));
            if (b2 & 0x80) == 0x80 {
                incoming.pop_front();
                assert(incoming@ =~= before.skip(2));
                let (cmd, data) = decode_enhproto_tuple(b1, b2);
                match EnhProtoResponse::from_code(cmd) {
                    EnhProtoResponse::Received => {
                        let ghost done = items@;
                        items.push(EbusData::EnhancedProtocol(cmd, data));
                        assert(done + (seq![EbusData::EnhancedProtocol(cmd, data)] + deframed(
                            incoming@,
                        ).0) =~= items@ + deframed(incoming@).0);
                    },
                    _ => {},
                }
            }
        } else {
            let ghost before = incoming@;
            let ghost done = items@;
            incoming.pop_front();
            assert(incoming@ =~= before.skip(1));
            items.push(EbusData::PureByte(b1));
            assert(done + (seq![EbusData::PureByte(b1)] + deframed(incoming@).0) =~= items@
                + deframed(incoming@).0);
        }
    }
    items
}

} // verus!
