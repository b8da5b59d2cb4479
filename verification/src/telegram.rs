//! The two halves of a bus transaction and their mathematical views.

use vstd::prelude::*;
use crate::crc8::{checksum, lemma_checksum_push, update_crc};
use crate::hexfmt::{encode_upper, format_upper_hex, hex_encode_upper, upper_hex};

verus! {

/// Largest payload length that a request or a response may declare.
pub const MAX_PAYLOAD_LEN: u8 = 0x10;

/// What a request is, apart from how it is stored.
pub ghost struct RequestView {
    pub src: u8,
    pub dest: u8,
    pub pbsb: u16,
    pub len: u8,
    pub data: Seq<u8>,
    pub crc: u8,
}

impl RequestView {
    /// The request before any byte of it has arrived.
    pub open spec fn empty() -> RequestView {
        RequestView { src: 0, dest: 0, pbsb: 0, len: 0, data: Seq::empty(), crc: 0 }
    }

    /// The five header bytes in wire order: source, destination, primary and
    /// secondary command, declared length.
    pub open spec fn header_bytes(self) -> Seq<u8> {
        seq![self.src, self.dest, (self.pbsb / 256) as u8, (self.pbsb % 256) as u8, self.len]
    }

    /// The bytes that the checksum covers: header, then payload.
    pub open spec fn checked_bytes(self) -> Seq<u8> {
        self.header_bytes() + self.data
    }

    /// A request is complete when its payload has the declared length, that
    /// length is within the limit, and the checksum byte is the CRC-8 of
    /// header and payload.
    pub open spec fn complete(self) -> bool {
        &&& self.len <= MAX_PAYLOAD_LEN
        &&& self.data.len() == self.len
        &&& self.crc == checksum(self.checked_bytes())
    }
}

/// What a response is, apart from how it is stored.
pub ghost struct ResponseView {
    pub len: u8,
    pub data: Seq<u8>,
    pub crc: u8,
}

impl ResponseView {
    /// The response before any byte of it has arrived.
    pub open spec fn empty() -> ResponseView {
        ResponseView { len: 0, data: Seq::empty(), crc: 0 }
    }

    /// The bytes that the checksum covers: declared length, then payload.
    pub open spec fn checked_bytes(self) -> Seq<u8> {
        seq![self.len] + self.data
    }

    /// A response is complete under the same three conditions as a request.
    pub open spec fn complete(self) -> bool {
        &&& self.len <= MAX_PAYLOAD_LEN
        &&& self.data.len() == self.len
        &&& self.crc == checksum(self.checked_bytes())
    }
}

/// One delivered transaction: a request and, where the addressed peer
/// answered, its response.
pub ghost struct TelegramView {
    pub request: RequestView,
    pub response: Option<ResponseView>,
}

impl TelegramView {
    /// Every half that is present is complete.
    pub open spec fn complete(self) -> bool {
        &&& self.request.complete()
        &&& self.response is Some ==> self.response->0.complete()
    }
}

/// The request half of a telegram.
pub struct EbusRequest {
    pub(crate) src: u8,
    pub(crate) dest: u8,
    pub(crate) pbsb: u16,
    pub(crate) len: u8,
    pub(crate) data: Vec<u8>,
    pub(crate) crc: u8,
}

/// The response half of a telegram.
pub struct EbusResponse {
    pub(crate) len: u8,
    pub(crate) data: Vec<u8>,
    pub(crate) crc: u8,
}

impl View for EbusRequest {
    type V = RequestView;

    open(crate) spec fn view(&self) -> RequestView {
        RequestView {
            src: self.src,
            dest: self.dest,
            pbsb: self.pbsb,
            len: self.len,
            data: self.data@,
            crc: self.crc,
        }
    }
}

impl View for EbusResponse {
    type V = ResponseView;

    open(crate) spec fn view(&self) -> ResponseView {
        ResponseView { len: self.len, data: self.data@, crc: self.crc }
    }
}

impl EbusRequest {
    /// A request with every field zero and no payload.
    pub(crate) fn empty() -> (request: EbusRequest)
        ensures
            request@ == RequestView::empty(),
    {
        EbusRequest { src: 0, dest: 0, pbsb: 0, len: 0, data: Vec::new(), crc: 0 }
    }

    /// Returns every field to zero and drops the payload.
    pub(crate) fn clear(&mut self)
        ensures
            final(self)@ == RequestView::empty(),
    {
        self.src = 0;
        self.dest = 0;
        self.pbsb = 0;
        self.len = 0;
        self.data.clear();
        self.crc = 0;
    }

    /// CRC-8 over header and payload as they stand, from a zero start.
    pub(crate) fn calc_crc8(&self) -> (crc: u8)
        ensures
            crc == checksum(self@.checked_bytes()),
    {
        let pb: u8 = (self.pbsb >> 8) as u8;
        let sb: u8 = (self.pbsb & 0xFF) as u8;
        proof {
            let pbsb = self.pbsb;
            assert((pbsb >> 8) as u8 == (pbsb / 256) as u8) by (bit_vector);
            assert((pbsb & 0xFF) as u8 == (pbsb % 256) as u8) by (bit_vector);
        }
        let ghost header = self@.header_bytes();
        let mut crc: u8 = 0;
        crc = update_crc(crc, self.src);
        crc = update_crc(crc, self.dest);
        crc = update_crc(crc, pb);
        crc = update_crc(crc, sb);
        crc = update_crc(crc, self.len);
        proof {
            let e = Seq::<u8>::empty();
            lemma_checksum_push(e, header[0]);
            lemma_checksum_push(e.push(header[0]), header[1]);
            lemma_checksum_push(e.push(header[0]).push(header[1]), header[2]);
            lemma_checksum_push(e.push(header[0]).push(header[1]).push(header[2]), header[3]);
            lemma_checksum_push(
                e.push(header[0]).push(header[1]).push(header[2]).push(header[3]),
                header[4],
            );
            assert(e.push(header[0]).push(header[1]).push(header[2]).push(header[3]).push(
                header[4],
            ) =~= header);
            assert(header + self.data@.take(0) =~= header);
        }
        let mut i: usize = 0;
        while i < self.data.len()
            invariant
                i <= self.data@.len(),
                header == self@.header_bytes(),
                crc == checksum(header + self.data@.take(i as int)),
            decreases self.data@.len() - i,
        {
            proof {
                lemma_checksum_push(header + self.data@.take(i as int), self.data@[i as int]);
                assert((header + self.data@.take(i as int)).push(self.data@[i as int]) =~= header
                    + self.data@.take(i + 1));
            }
            crc = update_crc(crc, self.data[i]);
            i += 1;
        }
        proof {
            assert(self.data@.take(i as int) =~= self.data@);
        }
        crc
    }

    /// Address of the sender.
    pub fn src(&self) -> (src: u8)
        ensures
            src == self@.src,
    {
        self.src
    }

    /// The sender's address as an upper-case hexadecimal numeral.
    pub fn src_hex(&self) -> (text: String)
        ensures
            text@ == upper_hex(self@.src as nat),
    {
        format_upper_hex(self.src as u16)
    }

    /// Address of the receiver.
    pub fn dest(&self) -> (dest: u8)
        ensures
            dest == self@.dest,
    {
        self.dest
    }

    /// The receiver's address as an upper-case hexadecimal numeral.
    pub fn dest_hex(&self) -> (text: String)
        ensures
            text@ == upper_hex(self@.dest as nat),
    {
        format_upper_hex(self.dest as u16)
    }

    /// Primary command in the high byte, secondary command in the low byte.
    pub fn pbsb(&self) -> (pbsb: u16)
        ensures
            pbsb == self@.pbsb,
    {
        self.pbsb
    }

    /// The command pair as one upper-case hexadecimal numeral.
    pub fn pbsb_hex(&self) -> (text: String)
        ensures
            text@ == upper_hex(self@.pbsb as nat),
    {
        format_upper_hex(self.pbsb)
    }

    /// Declared payload length.
    pub fn len(&self) -> (len: u8)
        ensures
            len == self@.len,
    {
        self.len
    }

    /// The declared payload length as an upper-case hexadecimal numeral.
    pub fn len_hex(&self) -> (text: String)
        ensures
            text@ == upper_hex(self@.len as nat),
    {
        format_upper_hex(self.len as u16)
    }

    /// The payload bytes in arrival order.
    pub fn data(&self) -> (data: &Vec<u8>)
        ensures
            data@ == self@.data,
    {
        &self.data
    }

    /// The payload as upper-case hexadecimal, two digits per byte.
    pub fn data_hex(&self) -> (text: String)
        ensures
            text@ == hex_encode_upper(self@.data),
    {
        encode_upper(self.data.as_slice())
    }

    /// The checksum byte that closed the request.
    pub fn crc(&self) -> (crc: u8)
        ensures
            crc == self@.crc,
    {
        self.crc
    }
}

impl EbusResponse {
    /// A response with every field zero and no payload.
    pub(crate) fn empty() -> (response: EbusResponse)
        ensures
            response@ == ResponseView::empty(),
    {
        EbusResponse { len: 0, data: Vec::new(), crc: 0 }
    }

    /// Returns every field to zero and drops the payload.
    pub(crate) fn clear(&mut self)
        ensures
            final(self)@ == ResponseView::empty(),
    {
        self.len = 0;
        self.data.clear();
        self.crc = 0;
    }

    /// CRC-8 over declared length and payload as they stand, from a zero start.
    pub(crate) fn calc_crc8(&self) -> (crc: u8)
        ensures
            crc == checksum(self@.checked_bytes()),
    {
        let ghost header = seq![self.len];
        let mut crc: u8 = 0;
        crc = update_crc(crc, self.len);
        proof {
            lemma_checksum_push(Seq::<u8>::empty(), self.len);
            assert(Seq::<u8>::empty().push(self.len) =~= header);
            assert(header + self.data@.take(0) =~= header);
        }
        let mut i: usize = 0;
        while i < self.data.len()
            invariant
                i <= self.data@.len(),
                header == seq![self.len],
                crc == checksum(header + self.data@.take(i as int)),
            decreases self.data@.len() - i,
        {
            proof {
                lemma_checksum_push(header + self.data@.take(i as int), self.data@[i as int]);
                assert((header + self.data@.take(i as int)).push(self.data@[i as int]) =~= header
                    + self.data@.take(i + 1));
            }
            crc = update_crc(crc, self.data[i]);
            i += 1;
        }
        proof {
            assert(self.data@.take(i as int) =~= self.data@);
        }
        crc
    }

    /// Declared payload length.
    pub fn len(&self) -> (len: u8)
        ensures
            len == self@.len,
    {
        self.len
    }

    /// The declared payload length as an upper-case hexadecimal numeral.
    pub fn len_hex(&self) -> (text: String)
        ensures
            text@ == upper_hex(self@.len as nat),
    {
        format_upper_hex(self.len as u16)
    }

    /// The payload bytes in arrival order.
    pub fn data(&self) -> (data: &Vec<u8>)
        ensures
            data@ == self@.data,
    {
        &self.data
    }

    /// The payload as upper-case hexadecimal, two digits per byte.
    pub fn data_hex(&self) -> (text: String)
        ensures
            text@ == hex_encode_upper(self@.data),
    {
        encode_upper(self.data.as_slice())
    }

    /// The checksum byte that closed the response.
    pub fn crc(&self) -> (crc: u8)
        ensures
            crc == self@.crc,
    {
        self.crc
    }
}

/// A completed telegram as the parser hands it out: the request and, where
/// one arrived, the response.
pub struct Telegram {
    pub(crate) request: EbusRequest,
    pub(crate) response: Option<EbusResponse>,
}

impl View for Telegram {
    type V = TelegramView;

    open(crate) spec fn view(&self) -> TelegramView {
        TelegramView {
            request: self.request@,
            response: match self.response {
                Some(response) => Some(response@),
                None => None,
            },
        }
    }
}

impl Telegram {
    /// The request half.
    pub fn request(&self) -> (request: &EbusRequest)
        ensures
            request@ == self@.request,
    {
        &self.request
    }

    /// The response half, if the telegram has one.
    pub fn response(&self) -> (response: Option<&EbusResponse>)
        ensures
            response is Some == self@.response is Some,
            response is Some ==> response->0@ == self@.response->0,
    {
        self.response.as_ref()
    }
}

/// The views of a sequence of telegrams, in order.
pub open spec fn telegram_views(telegrams: Seq<Telegram>) -> Seq<TelegramView> {
    telegrams.map_values(|t: Telegram| t@)
}

} // verus!
