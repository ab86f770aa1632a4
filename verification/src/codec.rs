//! The binary wire protocol: message tags, coordinate and RGB packing,
//! and the builders for every server-to-client message.
//!
//! All formats are big-endian. Coordinates travel packed in 3 bytes:
//! bit 20 is the skip-sender flag, bits 19..10 the x coordinate and
//! bits 9..0 the y coordinate. RGB colors travel as 3 bytes, red first.

use vstd::prelude::*;
use crate::canvas::COLOR_MASK;

verus! {

/// Wire tag of a SetPixel request (and of the matching broadcast).
pub const TAG_SET_PIXEL: u8 = 1;
/// Wire tag of a GetPixel request.
pub const TAG_GET_PIXEL: u8 = 2;
/// Wire tag of a GetAllPixels request.
pub const TAG_GET_ALL_PIXELS: u8 = 3;
/// Wire tag of a GetStats request.
pub const TAG_GET_STATS: u8 = 4;

/// Wire tag of a PixelColor response.
pub const RESPONSE_PIXEL_COLOR: u8 = 10;
/// Wire tag of an Error response.
pub const RESPONSE_ERROR: u8 = 11;
/// Wire tag of a GetAllPixels response.
pub const RESPONSE_GET_ALL_PIXELS: u8 = 12;
/// Wire tag of a Stats response.
pub const RESPONSE_STATS: u8 = 13;

/// Bit marking the skip-sender flag inside a packed coordinate word.
pub const COORD_FLAG_BIT: u32 = 0x100000;

/// The request kinds a client may send.
#[derive(Clone, Copy, Debug, PartialEq, Eq, Structural)]
pub enum MessageType {
    SetPixel,
    GetPixel,
    GetAllPixels,
    GetStats,
}

impl MessageType {
    /// The tag byte of this request kind.
    pub open spec fn spec_tag(self) -> u8 {
        match self {
            MessageType::SetPixel => TAG_SET_PIXEL,
            MessageType::GetPixel => TAG_GET_PIXEL,
            MessageType::GetAllPixels => TAG_GET_ALL_PIXELS,
            MessageType::GetStats => TAG_GET_STATS,
        }
    }

    /// Maps a tag byte to its request kind; unknown tags are rejected.
    pub fn try_from(value: u8) -> (r: Result<MessageType, ()>)
        ensures
            r is Ok <==> TAG_SET_PIXEL <= value <= TAG_GET_STATS,
            r matches Ok(m) ==> m.spec_tag() == value,
    {
        if value == TAG_SET_PIXEL {
            Ok(MessageType::SetPixel)
        } else if value == TAG_GET_PIXEL {
            Ok(MessageType::GetPixel)
        } else if value == TAG_GET_ALL_PIXELS {
            Ok(MessageType::GetAllPixels)
        } else if value == TAG_GET_STATS {
            Ok(MessageType::GetStats)
        } else {
            Err(())
        }
    }
}

/// The error codes the protocol reports to a client.
#[derive(Clone, Copy, Debug, PartialEq, Eq, Structural)]
pub enum ErrorCode {
    /// Empty payload, unknown tag, or a payload shorter than its kind needs.
    InvalidMessageType,
    /// A GetPixel whose coordinates fall outside the grid.
    OutOfBounds,
}

impl ErrorCode {
    /// The wire byte of this error code.
    pub open spec fn spec_code(self) -> u8 {
        match self {
            ErrorCode::InvalidMessageType => 1,
            ErrorCode::OutOfBounds => 2,
        }
    }

    /// Returns the wire byte of this error code.
    pub fn code(self) -> (r: u8)
        ensures
            r == self.spec_code(),
    {
        match self {
            ErrorCode::InvalidMessageType => 1,
            ErrorCode::OutOfBounds => 2,
        }
    }
}

/// The 21-bit coordinate word: flag at bit 20, x at bits 19..10, y at bits 9..0.
pub open spec fn coord_word(x: u16, y: u16, flag: bool) -> u32 {
    (if flag { COORD_FLAG_BIT } else { 0u32 }) | ((x as u32) << 10) | (y as u32)
}

/// The word carried by 3 coordinate bytes, most significant byte first.
pub open spec fn word_of_bytes(b0: u8, b1: u8, b2: u8) -> u32 {
    ((b0 as u32) << 16) | ((b1 as u32) << 8) | (b2 as u32)
}

/// The 3 bytes that carry the coordinates `(x, y)` and the skip-sender flag.
pub open spec fn spec_pack_coordinates(x: u16, y: u16, flag: bool) -> Seq<u8> {
    let w = coord_word(x, y, flag);
    seq![(w >> 16) as u8, (w >> 8) as u8, w as u8]
}

/// The x coordinate carried by 3 coordinate bytes.
pub open spec fn spec_coord_x(s: Seq<u8>) -> u16 {
    ((word_of_bytes(s[0], s[1], s[2]) >> 10) & 0x3FF) as u16
}

/// The y coordinate carried by 3 coordinate bytes.
pub open spec fn spec_coord_y(s: Seq<u8>) -> u16 {
    (word_of_bytes(s[0], s[1], s[2]) & 0x3FF) as u16
}

/// The skip-sender flag carried by 3 coordinate bytes.
pub open spec fn spec_coord_flag(s: Seq<u8>) -> bool {
    word_of_bytes(s[0], s[1], s[2]) & COORD_FLAG_BIT != 0
}

/// The 3 bytes that carry a color, red first.
pub open spec fn spec_pack_rgb(color: u32) -> Seq<u8> {
    seq![(color >> 16) as u8, (color >> 8) as u8, color as u8]
}

/// The color carried by 3 RGB bytes.
pub open spec fn spec_unpack_rgb(s: Seq<u8>) -> u32 {
    ((s[0] as u32) << 16) | ((s[1] as u32) << 8) | (s[2] as u32)
}

/// Coordinates below 1024 survive a pack/unpack round trip, flag included.
pub proof fn lemma_coordinate_round_trip(x: u16, y: u16, flag: bool)
    requires
        x < 1024,
        y < 1024,
    ensures
        spec_coord_x(spec_pack_coordinates(x, y, flag)) == x,
        spec_coord_y(spec_pack_coordinates(x, y, flag)) == y,
        spec_coord_flag(spec_pack_coordinates(x, y, flag)) == flag,
{
    let w = coord_word(x, y, flag);
    let b0 = (w >> 16) as u8;
    let b1 = (w >> 8) as u8;
    let b2 = w as u8;
    assert(spec_pack_coordinates(x, y, flag) == seq![b0, b1, b2]);
    assert({
        let r = word_of_bytes(b0, b1, b2);
        ((r >> 10) & 0x3FF) as u16 == x
        && (r & 0x3FF) as u16 == y
        && ((r & COORD_FLAG_BIT != 0) == flag)
    }) by (bit_vector)
        requires
            x < 1024,
            y < 1024,
            w == coord_word(x, y, flag),
            b0 == (w >> 16) as u8,
            b1 == (w >> 8) as u8,
            b2 == w as u8,
    ;
}

/// Any color survives a pack/unpack round trip masked to its low 24 bits;
/// a 24-bit color survives unchanged, and an unpacked color is 24-bit.
pub proof fn lemma_rgb_round_trip(color: u32)
    ensures
        spec_unpack_rgb(spec_pack_rgb(color)) == color & COLOR_MASK,
        color <= COLOR_MASK ==> spec_unpack_rgb(spec_pack_rgb(color)) == color,
        spec_unpack_rgb(spec_pack_rgb(color)) <= COLOR_MASK,
{
    let b0 = (color >> 16) as u8;
    let b1 = (color >> 8) as u8;
    let b2 = color as u8;
    assert(spec_pack_rgb(color) == seq![b0, b1, b2]);
    assert({
        let r = word_of_bytes(b0, b1, b2);
        r == (color & 0x00FFFFFF)
        && (color <= 0x00FFFFFF ==> r == color)
        && r <= 0x00FFFFFF
    }) by (bit_vector)
        requires
            b0 == (color >> 16) as u8,
            b1 == (color >> 8) as u8,
            b2 == color as u8,
    ;
}

/// An unpacked color always fits in 24 bits.
pub proof fn lemma_unpack_rgb_bound(s: Seq<u8>)
    ensures
        spec_unpack_rgb(s) <= COLOR_MASK,
{
    let b0 = s[0];
    let b1 = s[1];
    let b2 = s[2];
    assert(((b0 as u32) << 16) | ((b1 as u32) << 8) | (b2 as u32) <= 0x00FFFFFFu32)
        by (bit_vector);
}

/// Packs two 10-bit coordinates into 3 bytes with the flag bit clear,
/// as every server-built broadcast does.
pub fn pack_coordinates(x: u16, y: u16) -> (r: [u8; 3])
    ensures
        r@ == spec_pack_coordinates(x, y, false),
{
    let packed: u32 = ((x as u32) << 10) | (y as u32);
    let r = [
        #[verifier::truncate] ((packed >> 16) as u8),
        #[verifier::truncate] ((packed >> 8) as u8),
        #[verifier::truncate] (packed as u8),
    ];
    proof {
        assert((0u32 | ((x as u32) << 10) | (y as u32)) == (((x as u32) << 10) | (y as u32)))
            by (bit_vector);
        assert(coord_word(x, y, false) == packed);
        assert(r@ =~= spec_pack_coordinates(x, y, false));
    }
    r
}

/// Unpacks two 10-bit coordinates and the skip-sender flag from 3 bytes.
pub fn unpack_coordinates(bytes: &[u8]) -> (r: (u16, u16, bool))
    requires
        bytes@.len() >= 3,
    ensures
        r.0 == spec_coord_x(bytes@),
        r.1 == spec_coord_y(bytes@),
        r.2 == spec_coord_flag(bytes@),
        r.0 < 1024,
        r.1 < 1024,
{
    let packed: u32 = ((bytes[0] as u32) << 16) | ((bytes[1] as u32) << 8) | (bytes[2] as u32);
    let flag = (packed & COORD_FLAG_BIT) != 0;
    let x = #[verifier::truncate] (((packed >> 10) & 0x3FF) as u16);
    let y = #[verifier::truncate] ((packed & 0x3FF) as u16);
    proof {
        let w = packed;
        assert((((w >> 10) & 0x3FF) as u16) < 1024 && ((w & 0x3FF) as u16) < 1024) by (bit_vector);
    }
    (x, y, flag)
}

/// Packs a color into 3 bytes, red first.
pub fn pack_rgb(color: u32) -> (r: [u8; 3])
    ensures
        r@ == spec_pack_rgb(color),
{
    let r = [
        #[verifier::truncate] ((color >> 16) as u8),
        #[verifier::truncate] ((color >> 8) as u8),
        #[verifier::truncate] (color as u8),
    ];
    proof {
        assert(r@ =~= spec_pack_rgb(color));
    }
    r
}

/// Unpacks a 24-bit color from 3 bytes.
pub fn unpack_rgb(bytes: &[u8]) -> (r: u32)
    requires
        bytes@.len() >= 3,
    ensures
        r == spec_unpack_rgb(bytes@),
        r <= COLOR_MASK,
{
    let r = ((bytes[0] as u32) << 16) | ((bytes[1] as u32) << 8) | (bytes[2] as u32);
    proof {
        lemma_unpack_rgb_bound(bytes@);
    }
    r
}

/// A SetPixel broadcast frame: tag, packed coordinates (flag clear), RGB.
pub fn create_set_pixel_broadcast(x: u16, y: u16, color: u32) -> (r: Vec<u8>)
    ensures
        r@ == seq![TAG_SET_PIXEL] + spec_pack_coordinates(x, y, false) + spec_pack_rgb(color),
        r@.len() == 7,
{
    let mut message: Vec<u8> = Vec::new();
    message.push(TAG_SET_PIXEL);
    let coords = pack_coordinates(x, y);
    message.push(coords[0]);
    message.push(coords[1]);
    message.push(coords[2]);
    let rgb = pack_rgb(color);
    message.push(rgb[0]);
    message.push(rgb[1]);
    message.push(rgb[2]);
    proof {
        assert(message@ =~= seq![TAG_SET_PIXEL] + spec_pack_coordinates(x, y, false)
            + spec_pack_rgb(color));
    }
    message
}

/// A PixelColor response frame: tag, RGB.
pub fn create_pixel_response(color: u32) -> (r: Vec<u8>)
    ensures
        r@ == seq![RESPONSE_PIXEL_COLOR] + spec_pack_rgb(color),
        r@.len() == 4,
{
    let mut message: Vec<u8> = Vec::new();
    message.push(RESPONSE_PIXEL_COLOR);
    let rgb = pack_rgb(color);
    message.push(rgb[0]);
    message.push(rgb[1]);
    message.push(rgb[2]);
    proof {
        assert(message@ =~= seq![RESPONSE_PIXEL_COLOR] + spec_pack_rgb(color));
    }
    message
}

/// An Error response frame: tag, error code.
pub fn create_error_response(error: ErrorCode) -> (r: Vec<u8>)
    ensures
        r@ == seq![RESPONSE_ERROR, error.spec_code()],
{
    let mut message: Vec<u8> = Vec::new();
    message.push(RESPONSE_ERROR);
    message.push(error.code());
    proof {
        assert(message@ =~= seq![RESPONSE_ERROR, error.spec_code()]);
    }
    message
}

/// The 4 big-endian bytes of a 32-bit value.
pub open spec fn spec_be_bytes(v: u32) -> Seq<u8> {
    seq![(v >> 24) as u8, (v >> 16) as u8, (v >> 8) as u8, v as u8]
}

/// A Stats response frame: tag, client count, then the requests-per-second
/// value as the big-endian bytes of its 32-bit bit pattern. The caller
/// supplies that bit pattern; this library does not compute with it.
pub fn create_stats_response(client_count: u32, rps_bits: u32) -> (r: Vec<u8>)
    ensures
        r@ == seq![RESPONSE_STATS] + spec_be_bytes(client_count) + spec_be_bytes(rps_bits),
        r@.len() == 9,
{
    let mut message: Vec<u8> = Vec::new();
    message.push(RESPONSE_STATS);
    push_be_bytes(&mut message, client_count);
    push_be_bytes(&mut message, rps_bits);
    proof {
        assert(message@ =~= seq![RESPONSE_STATS] + spec_be_bytes(client_count)
            + spec_be_bytes(rps_bits));
    }
    message
}

/// Appends the 4 big-endian bytes of `v`.
fn push_be_bytes(out: &mut Vec<u8>, v: u32)
    ensures
        final(out)@ == old(out)@ + spec_be_bytes(v),
{
    out.push(#[verifier::truncate] ((v >> 24) as u8));
    out.push(#[verifier::truncate] ((v >> 16) as u8));
    out.push(#[verifier::truncate] ((v >> 8) as u8));
    out.push(#[verifier::truncate] (v as u8));
    proof {
        assert(out@ =~= old(out)@ + spec_be_bytes(v));
    }
}

} // verus!
