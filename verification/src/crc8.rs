//! CRC-8 of the bus: generator polynomial x^8 + x^7 + x^4 + x^3 + x + 1,
//! most significant bit first, starting value 0, no final inversion.

use vstd::prelude::*;

verus! {

/// Low eight coefficients of the generator polynomial.
pub const CRC8_POLYNOMIAL: u8 = 0x9b;

/// Multiplies the residue `c` by x modulo the generator polynomial.
pub open spec fn crc8_shift(c: u8) -> u8 {
    if c & 0x80 != 0 {
        (c << 1) ^ CRC8_POLYNOMIAL
    } else {
        c << 1
    }
}

/// Residue of `i * x^8` modulo the generator polynomial: what the lookup table
/// holds at index `i`.
pub open spec fn crc8_table_entry(i: u8) -> u8 {
    crc8_shift(
        crc8_shift(
            crc8_shift(crc8_shift(crc8_shift(crc8_shift(crc8_shift(crc8_shift(i)))))),
        ),
    )
}

/// One checksum step: the running value is pushed through the table and the
/// incoming byte is folded in.
pub open spec fn crc8_step(running: u8, byte: u8) -> u8 {
    crc8_table_entry(running) ^ byte
}

/// Checksum of a byte sequence: `crc8_step` folded over it from the left,
/// starting at 0.
pub open spec fn checksum(bytes: Seq<u8>) -> u8
    decreases bytes.len(),
{
    if bytes.len() == 0 {
        0
    } else {
        crc8_step(checksum(bytes.drop_last()), bytes.last())
    }
}

/// The lookup table: entry `i` is the residue of `i * x^8`.
const CRC8_TABLE: [u8; 256] = [
    0x00, 0x9b, 0xad, 0x36, 0xc1, 0x5a, 0x6c, 0xf7, 0x19, 0x82, 0xb4, 0x2f, 0xd8, 0x43, 0x75, 0xee,
    0x32, 0xa9, 0x9f, 0x04, 0xf3, 0x68, 0x5e, 0xc5, 0x2b, 0xb0, 0x86, 0x1d, 0xea, 0x71, 0x47, 0xdc,
    0x64, 0xff, 0xc9, 0x52, 0xa5, 0x3e, 0x08, 0x93, 0x7d, 0xe6, 0xd0, 0x4b, 0xbc, 0x27, 0x11, 0x8a,
    0x56, 0xcd, 0xfb, 0x60, 0x97, 0x0c, 0x3a, 0xa1, 0x4f, 0xd4, 0xe2, 0x79, 0x8e, 0x15, 0x23, 0xb8,
    0xc8, 0x53, 0x65, 0xfe, 0x09, 0x92, 0xa4, 0x3f, 0xd1, 0x4a, 0x7c, 0xe7, 0x10, 0x8b, 0xbd, 0x26,
    0xfa, 0x61, 0x57, 0xcc, 0x3b, 0xa0, 0x96, 0x0d, 0xe3, 0x78, 0x4e, 0xd5, 0x22, 0xb9, 0x8f, 0x14,
    0xac, 0x37, 0x01, 0x9a, 0x6d, 0xf6, 0xc0, 0x5b, 0xb5, 0x2e, 0x18, 0x83, 0x74, 0xef, 0xd9, 0x42,
    0x9e, 0x05, 0x33, 0xa8, 0x5f, 0xc4, 0xf2, 0x69, 0x87, 0x1c, 0x2a, 0xb1, 0x46, 0xdd, 0xeb, 0x70,
    0x0b, 0x90, 0xa6, 0x3d, 0xca, 0x51, 0x67, 0xfc, 0x12, 0x89, 0xbf, 0x24, 0xd3, 0x48, 0x7e, 0xe5,
    0x39, 0xa2, 0x94, 0x0f, 0xf8, 0x63, 0x55, 0xce, 0x20, 0xbb, 0x8d, 0x16, 0xe1, 0x7a, 0x4c, 0xd7,
    0x6f, 0xf4, 0xc2, 0x59, 0xae, 0x35, 0x03, 0x98, 0x76, 0xed, 0xdb, 0x40, 0xb7, 0x2c, 0x1a, 0x81,
    0x5d, 0xc6, 0xf0, 0x6b, 0x9c, 0x07, 0x31, 0xaa, 0x44, 0xdf, 0xe9, 0x72, 0x85, 0x1e, 0x28, 0xb3,
    0xc3, 0x58, 0x6e, 0xf5, 0x02, 0x99, 0xaf, 0x34, 0xda, 0x41, 0x77, 0xec, 0x1b, 0x80, 0xb6, 0x2d,
    0xf1, 0x6a, 0x5c, 0xc7, 0x30, 0xab, 0x9d, 0x06, 0xe8, 0x73, 0x45, 0xde, 0x29, 0xb2, 0x84, 0x1f,
    0xa7, 0x3c, 0x0a, 0x91, 0x66, 0xfd, 0xcb, 0x50, 0xbe, 0x25, 0x13, 0x88, 0x7f, 0xe4, 0xd2, 0x49,
    0x95, 0x0e, 0x38, 0xa3, 0x54, 0xcf, 0xf9, 0x62, 0x8c, 0x17, 0x21, 0xba, 0x4d, 0xd6, 0xe0, 0x7b,
];

/// Every entry of the table, computed from the polynomial.
proof fn lemma_table_values()
    by (bit_vector)
    ensures
        crc8_table_entry(0x00) == 0x00 && crc8_table_entry(0x01) == 0x9b && crc8_table_entry(0x02) == 0xad && crc8_table_entry(0x03) == 0x36,
        crc8_table_entry(0x04) == 0xc1 && crc8_table_entry(0x05) == 0x5a && crc8_table_entry(0x06) == 0x6c && crc8_table_entry(0x07) == 0xf7,
        crc8_table_entry(0x08) == 0x19 && crc8_table_entry(0x09) == 0x82 && crc8_table_entry(0x0a) == 0xb4 && crc8_table_entry(0x0b) == 0x2f,
        crc8_table_entry(0x0c) == 0xd8 && crc8_table_entry(0x0d) == 0x43 && crc8_table_entry(0x0e) == 0x75 && crc8_table_entry(0x0f) == 0xee,
        crc8_table_entry(0x10) == 0x32 && crc8_table_entry(0x11) == 0xa9 && crc8_table_entry(0x12) == 0x9f && crc8_table_entry(0x13) == 0x04,
        crc8_table_entry(0x14) == 0xf3 && crc8_table_entry(0x15) == 0x68 && crc8_table_entry(0x16) == 0x5e && crc8_table_entry(0x17) == 0xc5,
        crc8_table_entry(0x18) == 0x2b && crc8_table_entry(0x19) == 0xb0 && crc8_table_entry(0x1a) == 0x86 && crc8_table_entry(0x1b) == 0x1d,
        crc8_table_entry(0x1c) == 0xea && crc8_table_entry(0x1d) == 0x71 && crc8_table_entry(0x1e) == 0x47 && crc8_table_entry(0x1f) == 0xdc,
        crc8_table_entry(0x20) == 0x64 && crc8_table_entry(0x21) == 0xff && crc8_table_entry(0x22) == 0xc9 && crc8_table_entry(0x23) == 0x52,
        crc8_table_entry(0x24) == 0xa5 && crc8_table_entry(0x25) == 0x3e && crc8_table_entry(0x26) == 0x08 && crc8_table_entry(0x27) == 0x93,
        crc8_table_entry(0x28) == 0x7d && crc8_table_entry(0x29) == 0xe6 && crc8_table_entry(0x2a) == 0xd0 && crc8_table_entry(0x2b) == 0x4b,
        crc8_table_entry(0x2c) == 0xbc && crc8_table_entry(0x2d) == 0x27 && crc8_table_entry(0x2e) == 0x11 && crc8_table_entry(0x2f) == 0x8a,
        crc8_table_entry(0x30) == 0x56 && crc8_table_entry(0x31) == 0xcd && crc8_table_entry(0x32) == 0xfb && crc8_table_entry(0x33) == 0x60,
        crc8_table_entry(0x34) == 0x97 && crc8_table_entry(0x35) == 0x0c && crc8_table_entry(0x36) == 0x3a && crc8_table_entry(0x37) == 0xa1,
        crc8_table_entry(0x38) == 0x4f && crc8_table_entry(0x39) == 0xd4 && crc8_table_entry(0x3a) == 0xe2 && crc8_table_entry(0x3b) == 0x79,
        crc8_table_entry(0x3c) == 0x8e && crc8_table_entry(0x3d) == 0x15 && crc8_table_entry(0x3e) == 0x23 && crc8_table_entry(0x3f) == 0xb8,
        crc8_table_entry(0x40) == 0xc8 && crc8_table_entry(0x41) == 0x53 && crc8_table_entry(0x42) == 0x65 && crc8_table_entry(0x43) == 0xfe,
        crc8_table_entry(0x44) == 0x09 && crc8_table_entry(0x45) == 0x92 && crc8_table_entry(0x46) == 0xa4 && crc8_table_entry(0x47) == 0x3f,
        crc8_table_entry(0x48) == 0xd1 && crc8_table_entry(0x49) == 0x4a && crc8_table_entry(0x4a) == 0x7c && crc8_table_entry(0x4b) == 0xe7,
        crc8_table_entry(0x4c) == 0x10 && crc8_table_entry(0x4d) == 0x8b && crc8_table_entry(0x4e) == 0xbd && crc8_table_entry(0x4f) == 0x26,
        crc8_table_entry(0x50) == 0xfa && crc8_table_entry(0x51) == 0x61 && crc8_table_entry(0x52) == 0x57 && crc8_table_entry(0x53) == 0xcc,
        crc8_table_entry(0x54) == 0x3b && crc8_table_entry(0x55) == 0xa0 && crc8_table_entry(0x56) == 0x96 && crc8_table_entry(0x57) == 0x0d,
        crc8_table_entry(0x58) == 0xe3 && crc8_table_entry(0x59) == 0x78 && crc8_table_entry(0x5a) == 0x4e && crc8_table_entry(0x5b) == 0xd5,
        crc8_table_entry(0x5c) == 0x22 && crc8_table_entry(0x5d) == 0xb9 && crc8_table_entry(0x5e) == 0x8f && crc8_table_entry(0x5f) == 0x14,
        crc8_table_entry(0x60) == 0xac && crc8_table_entry(0x61) == 0x37 && crc8_table_entry(0x62) == 0x01 && crc8_table_entry(0x63) == 0x9a,
        crc8_table_entry(0x64) == 0x6d && crc8_table_entry(0x65) == 0xf6 && crc8_table_entry(0x66) == 0xc0 && crc8_table_entry(0x67) == 0x5b,
        crc8_table_entry(0x68) == 0xb5 && crc8_table_entry(0x69) == 0x2e && crc8_table_entry(0x6a) == 0x18 && crc8_table_entry(0x6b) == 0x83,
        crc8_table_entry(0x6c) == 0x74 && crc8_table_entry(0x6d) == 0xef && crc8_table_entry(0x6e) == 0xd9 && crc8_table_entry(0x6f) == 0x42,
        crc8_table_entry(0x70) == 0x9e && crc8_table_entry(0x71) == 0x05 && crc8_table_entry(0x72) == 0x33 && crc8_table_entry(0x73) == 0xa8,
        crc8_table_entry(0x74) == 0x5f && crc8_table_entry(0x75) == 0xc4 && crc8_table_entry(0x76) == 0xf2 && crc8_table_entry(0x77) == 0x69,
        crc8_table_entry(0x78) == 0x87 && crc8_table_entry(0x79) == 0x1c && crc8_table_entry(0x7a) == 0x2a && crc8_table_entry(0x7b) == 0xb1,
        crc8_table_entry(0x7c) == 0x46 && crc8_table_entry(0x7d) == 0xdd && crc8_table_entry(0x7e) == 0xeb && crc8_table_entry(0x7f) == 0x70,
        crc8_table_entry(0x80) == 0x0b && crc8_table_entry(0x81) == 0x90 && crc8_table_entry(0x82) == 0xa6 && crc8_table_entry(0x83) == 0x3d,
        crc8_table_entry(0x84) == 0xca && crc8_table_entry(0x85) == 0x51 && crc8_table_entry(0x86) == 0x67 && crc8_table_entry(0x87) == 0xfc,
        crc8_table_entry(0x88) == 0x12 && crc8_table_entry(0x89) == 0x89 && crc8_table_entry(0x8a) == 0xbf && crc8_table_entry(0x8b) == 0x24,
        crc8_table_entry(0x8c) == 0xd3 && crc8_table_entry(0x8d) == 0x48 && crc8_table_entry(0x8e) == 0x7e && crc8_table_entry(0x8f) == 0xe5,
        crc8_table_entry(0x90) == 0x39 && crc8_table_entry(0x91) == 0xa2 && crc8_table_entry(0x92) == 0x94 && crc8_table_entry(0x93) == 0x0f,
        crc8_table_entry(0x94) == 0xf8 && crc8_table_entry(0x95) == 0x63 && crc8_table_entry(0x96) == 0x55 && crc8_table_entry(0x97) == 0xce,
        crc8_table_entry(0x98) == 0x20 && crc8_table_entry(0x99) == 0xbb && crc8_table_entry(0x9a) == 0x8d && crc8_table_entry(0x9b) == 0x16,
        crc8_table_entry(0x9c) == 0xe1 && crc8_table_entry(0x9d) == 0x7a && crc8_table_entry(0x9e) == 0x4c && crc8_table_entry(0x9f) == 0xd7,
        crc8_table_entry(0xa0) == 0x6f && crc8_table_entry(0xa1) == 0xf4 && crc8_table_entry(0xa2) == 0xc2 && crc8_table_entry(0xa3) == 0x59,
        crc8_table_entry(0xa4) == 0xae && crc8_table_entry(0xa5) == 0x35 && crc8_table_entry(0xa6) == 0x03 && crc8_table_entry(0xa7) == 0x98,
        crc8_table_entry(0xa8) == 0x76 && crc8_table_entry(0xa9) == 0xed && crc8_table_entry(0xaa) == 0xdb && crc8_table_entry(0xab) == 0x40,
        crc8_table_entry(0xac) == 0xb7 && crc8_table_entry(0xad) == 0x2c && crc8_table_entry(0xae) == 0x1a && crc8_table_entry(0xaf) == 0x81,
        crc8_table_entry(0xb0) == 0x5d && crc8_table_entry(0xb1) == 0xc6 && crc8_table_entry(0xb2) == 0xf0 && crc8_table_entry(0xb3) == 0x6b,
        crc8_table_entry(0xb4) == 0x9c && crc8_table_entry(0xb5) == 0x07 && crc8_table_entry(0xb6) == 0x31 && crc8_table_entry(0xb7) == 0xaa,
        crc8_table_entry(0xb8) == 0x44 && crc8_table_entry(0xb9) == 0xdf && crc8_table_entry(0xba) == 0xe9 && crc8_table_entry(0xbb) == 0x72,
        crc8_table_entry(0xbc) == 0x85 && crc8_table_entry(0xbd) == 0x1e && crc8_table_entry(0xbe) == 0x28 && crc8_table_entry(0xbf) == 0xb3,
        crc8_table_entry(0xc0) == 0xc3 && crc8_table_entry(0xc1) == 0x58 && crc8_table_entry(0xc2) == 0x6e && crc8_table_entry(0xc3) == 0xf5,
        crc8_table_entry(0xc4) == 0x02 && crc8_table_entry(0xc5) == 0x99 && crc8_table_entry(0xc6) == 0xaf && crc8_table_entry(0xc7) == 0x34,
        crc8_table_entry(0xc8) == 0xda && crc8_table_entry(0xc9) == 0x41 && crc8_table_entry(0xca) == 0x77 && crc8_table_entry(0xcb) == 0xec,
        crc8_table_entry(0xcc) == 0x1b && crc8_table_entry(0xcd) == 0x80 && crc8_table_entry(0xce) == 0xb6 && crc8_table_entry(0xcf) == 0x2d,
        crc8_table_entry(0xd0) == 0xf1 && crc8_table_entry(0xd1) == 0x6a && crc8_table_entry(0xd2) == 0x5c && crc8_table_entry(0xd3) == 0xc7,
        crc8_table_entry(0xd4) == 0x30 && crc8_table_entry(0xd5) == 0xab && crc8_table_entry(0xd6) == 0x9d && crc8_table_entry(0xd7) == 0x06,
        crc8_table_entry(0xd8) == 0xe8 && crc8_table_entry(0xd9) == 0x73 && crc8_table_entry(0xda) == 0x45 && crc8_table_entry(0xdb) == 0xde,
        crc8_table_entry(0xdc) == 0x29 && crc8_table_entry(0xdd) == 0xb2 && crc8_table_entry(0xde) == 0x84 && crc8_table_entry(0xdf) == 0x1f,
        crc8_table_entry(0xe0) == 0xa7 && crc8_table_entry(0xe1) == 0x3c && crc8_table_entry(0xe2) == 0x0a && crc8_table_entry(0xe3) == 0x91,
        crc8_table_entry(0xe4) == 0x66 && crc8_table_entry(0xe5) == 0xfd && crc8_table_entry(0xe6) == 0xcb && crc8_table_entry(0xe7) == 0x50,
        crc8_table_entry(0xe8) == 0xbe && crc8_table_entry(0xe9) == 0x25 && crc8_table_entry(0xea) == 0x13 && crc8_table_entry(0xeb) == 0x88,
        crc8_table_entry(0xec) == 0x7f && crc8_table_entry(0xed) == 0xe4 && crc8_table_entry(0xee) == 0xd2 && crc8_table_entry(0xef) == 0x49,
        crc8_table_entry(0xf0) == 0x95 && crc8_table_entry(0xf1) == 0x0e && crc8_table_entry(0xf2) == 0x38 && crc8_table_entry(0xf3) == 0xa3,
        crc8_table_entry(0xf4) == 0x54 && crc8_table_entry(0xf5) == 0xcf && crc8_table_entry(0xf6) == 0xf9 && crc8_table_entry(0xf7) == 0x62,
        crc8_table_entry(0xf8) == 0x8c && crc8_table_entry(0xf9) == 0x17 && crc8_table_entry(0xfa) == 0x21 && crc8_table_entry(0xfb) == 0xba,
        crc8_table_entry(0xfc) == 0x4d && crc8_table_entry(0xfd) == 0xd6 && crc8_table_entry(0xfe) == 0xe0 && crc8_table_entry(0xff) == 0x7b,
{
}

/// The table holds at every index the residue that the polynomial gives.
proof fn lemma_table_matches_polynomial(i: u8)
    ensures
        CRC8_TABLE[i as int] == crc8_table_entry(i),
{
    lemma_table_values();
    assert(
        i == 0x00 || i == 0x01 || i == 0x02 || i == 0x03 || i == 0x04 || i == 0x05 || i == 0x06 || i == 0x07 ||
        i == 0x08 || i == 0x09 || i == 0x0a || i == 0x0b || i == 0x0c || i == 0x0d || i == 0x0e || i == 0x0f ||
        i == 0x10 || i == 0x11 || i == 0x12 || i == 0x13 || i == 0x14 || i == 0x15 || i == 0x16 || i == 0x17 ||
        i == 0x18 || i == 0x19 || i == 0x1a || i == 0x1b || i == 0x1c || i == 0x1d || i == 0x1e || i == 0x1f ||
        i == 0x20 || i == 0x21 || i == 0x22 || i == 0x23 || i == 0x24 || i == 0x25 || i == 0x26 || i == 0x27 ||
        i == 0x28 || i == 0x29 || i == 0x2a || i == 0x2b || i == 0x2c || i == 0x2d || i == 0x2e || i == 0x2f ||
        i == 0x30 || i == 0x31 || i == 0x32 || i == 0x33 || i == 0x34 || i == 0x35 || i == 0x36 || i == 0x37 ||
        i == 0x38 || i == 0x39 || i == 0x3a || i == 0x3b || i == 0x3c || i == 0x3d || i == 0x3e || i == 0x3f ||
        i == 0x40 || i == 0x41 || i == 0x42 || i == 0x43 || i == 0x44 || i == 0x45 || i == 0x46 || i == 0x47 ||
        i == 0x48 || i == 0x49 || i == 0x4a || i == 0x4b || i == 0x4c || i == 0x4d || i == 0x4e || i == 0x4f ||
        i == 0x50 || i == 0x51 || i == 0x52 || i == 0x53 || i == 0x54 || i == 0x55 || i == 0x56 || i == 0x57 ||
        i == 0x58 || i == 0x59 || i == 0x5a || i == 0x5b || i == 0x5c || i == 0x5d || i == 0x5e || i == 0x5f ||
        i == 0x60 || i == 0x61 || i == 0x62 || i == 0x63 || i == 0x64 || i == 0x65 || i == 0x66 || i == 0x67 ||
        i == 0x68 || i == 0x69 || i == 0x6a || i == 0x6b || i == 0x6c || i == 0x6d || i == 0x6e || i == 0x6f ||
        i == 0x70 || i == 0x71 || i == 0x72 || i == 0x73 || i == 0x74 || i == 0x75 || i == 0x76 || i == 0x77 ||
        i == 0x78 || i == 0x79 || i == 0x7a || i == 0x7b || i == 0x7c || i == 0x7d || i == 0x7e || i == 0x7f ||
        i == 0x80 || i == 0x81 || i == 0x82 || i == 0x83 || i == 0x84 || i == 0x85 || i == 0x86 || i == 0x87 ||
        i == 0x88 || i == 0x89 || i == 0x8a || i == 0x8b || i == 0x8c || i == 0x8d || i == 0x8e || i == 0x8f ||
        i == 0x90 || i == 0x91 || i == 0x92 || i == 0x93 || i == 0x94 || i == 0x95 || i == 0x96 || i == 0x97 ||
        i == 0x98 || i == 0x99 || i == 0x9a || i == 0x9b || i == 0x9c || i == 0x9d || i == 0x9e || i == 0x9f ||
        i == 0xa0 || i == 0xa1 || i == 0xa2 || i == 0xa3 || i == 0xa4 || i == 0xa5 || i == 0xa6 || i == 0xa7 ||
        i == 0xa8 || i == 0xa9 || i == 0xaa || i == 0xab || i == 0xac || i == 0xad || i == 0xae || i == 0xaf ||
        i == 0xb0 || i == 0xb1 || i == 0xb2 || i == 0xb3 || i == 0xb4 || i == 0xb5 || i == 0xb6 || i == 0xb7 ||
        i == 0xb8 || i == 0xb9 || i == 0xba || i == 0xbb || i == 0xbc || i == 0xbd || i == 0xbe || i == 0xbf ||
        i == 0xc0 || i == 0xc1 || i == 0xc2 || i == 0xc3 || i == 0xc4 || i == 0xc5 || i == 0xc6 || i == 0xc7 ||
        i == 0xc8 || i == 0xc9 || i == 0xca || i == 0xcb || i == 0xcc || i == 0xcd || i == 0xce || i == 0xcf ||
        i == 0xd0 || i == 0xd1 || i == 0xd2 || i == 0xd3 || i == 0xd4 || i == 0xd5 || i == 0xd6 || i == 0xd7 ||
        i == 0xd8 || i == 0xd9 || i == 0xda || i == 0xdb || i == 0xdc || i == 0xdd || i == 0xde || i == 0xdf ||
        i == 0xe0 || i == 0xe1 || i == 0xe2 || i == 0xe3 || i == 0xe4 || i == 0xe5 || i == 0xe6 || i == 0xe7 ||
        i == 0xe8 || i == 0xe9 || i == 0xea || i == 0xeb || i == 0xec || i == 0xed || i == 0xee || i == 0xef ||
        i == 0xf0 || i == 0xf1 || i == 0xf2 || i == 0xf3 || i == 0xf4 || i == 0xf5 || i == 0xf6 || i == 0xf7 ||
        i == 0xf8 || i == 0xf9 || i == 0xfa || i == 0xfb || i == 0xfc || i == 0xfd || i == 0xfe || i == 0xff
    );
}

/// Pushing at the end of a sequence is one more checksum step.
pub proof fn lemma_checksum_push(bytes: Seq<u8>, byte: u8)
    ensures
        checksum(bytes.push(byte)) == crc8_step(checksum(bytes), byte),
{
    assert(bytes.push(byte).drop_last() =~= bytes);
}

/// The table is a permutation: distinct running values stay distinct after a
/// step with the same byte, and distinct bytes give distinct results from the
/// same running value.
pub proof fn lemma_step_injective(a: u8, x: u8, b: u8, y: u8)
    ensures
        x == y && a != b ==> crc8_step(a, x) != crc8_step(b, y),
        a == b && x != y ==> crc8_step(a, x) != crc8_step(b, y),
{
    assert(x == y && a != b ==> crc8_step(a, x) != crc8_step(b, y)) by (bit_vector);
    assert(a == b && x != y ==> crc8_step(a, x) != crc8_step(b, y)) by (bit_vector);
}

/// Error detection: two byte sequences of one length that differ at exactly
/// one position never share a checksum. A single flipped bit is the smallest
/// such difference.
pub proof fn lemma_checksum_detects_single_byte_change(a: Seq<u8>, b: Seq<u8>, at: int)
    requires
        a.len() == b.len(),
        0 <= at < a.len(),
        a[at] != b[at],
        forall|i: int| 0 <= i < a.len() && i != at ==> a[i] == b[i],
    ensures
        checksum(a) != checksum(b),
    decreases a.len(),
{
    let last = a.len() - 1;
    if at == last {
        assert(a.drop_last() =~= b.drop_last());
        lemma_step_injective(checksum(a.drop_last()), a.last(), checksum(b.drop_last()), b.last());
    } else {
        lemma_checksum_detects_single_byte_change(a.drop_last(), b.drop_last(), at);
        lemma_step_injective(checksum(a.drop_last()), a.last(), checksum(b.drop_last()), b.last());
    }
}

/// Advances a running checksum by one byte.
pub fn update_crc(running: u8, byte: u8) -> (next: u8)
    ensures
        next == crc8_step(running, byte),
{
    proof {
        lemma_table_matches_polynomial(running);
    }
    CRC8_TABLE[running as usize] ^ byte
}

/// Checksum of a whole byte slice, from a zero start.
pub fn checksum_of(bytes: &[u8]) -> (crc: u8)
    ensures
        crc == checksum(bytes@),
{
    let mut crc: u8 = 0;
    let mut i: usize = 0;
    while i < bytes.len()
        invariant
            i <= bytes@.len(),
            crc == checksum(bytes@.take(i as int)),
        decreases bytes@.len() - i,
    {
        proof {
            lemma_checksum_push(bytes@.take(i as int), bytes@[i as int]);
            assert(bytes@.take(i as int).push(bytes@[i as int]) =~= bytes@.take(i + 1));
        }
        crc = update_crc(crc, bytes[i]);
        i += 1;
    }
    proof {
        assert(bytes@.take(i as int) =~= bytes@);
    }
    crc
}

} // verus!
