//! Snapshot serialization: the persisted file format is the raw pixel
//! sequence, 3 bytes per pixel (R, G, B), row-major, with no header. The
//! same byte stream, behind its tag, is the body of a GetAllPixels response.

use vstd::prelude::*;
use crate::canvas::{Canvas, CANVAS_HEIGHT, CANVAS_WIDTH, COLOR_MASK, STARTING_COLOR};
use crate::codec::{
    lemma_rgb_round_trip, lemma_unpack_rgb_bound, pack_rgb, spec_pack_rgb, spec_unpack_rgb,
    RESPONSE_GET_ALL_PIXELS,
};

verus! {

/// The byte stream of a pixel sequence: 3 RGB bytes per pixel, in order.
pub open spec fn spec_packed_pixels(s: Seq<u32>) -> Seq<u8>
    decreases s.len(),
{
    if s.len() == 0 {
        Seq::empty()
    } else {
        spec_packed_pixels(s.drop_last()) + spec_pack_rgb(s.last())
    }
}

/// The pixel sequence read back from a byte stream: each complete 3-byte
/// group yields a color, and the remaining entries up to `n` keep the
/// starting color.
pub open spec fn spec_decoded_pixels(b: Seq<u8>, n: nat) -> Seq<u32> {
    Seq::new(
        n,
        |i: int|
            if 3 * i + 3 <= b.len() {
                spec_unpack_rgb(b.subrange(3 * i, 3 * i + 3))
            } else {
                STARTING_COLOR
            },
    )
}

/// A packed pixel stream is 3 bytes per pixel.
pub proof fn lemma_packed_pixels_len(s: Seq<u32>)
    ensures
        spec_packed_pixels(s).len() == 3 * s.len(),
    decreases s.len(),
{
    if s.len() > 0 {
        lemma_packed_pixels_len(s.drop_last());
    }
}

/// Pixel `i`'s bytes stand at offset `3 * i` of the packed stream.
pub proof fn lemma_packed_pixels_index(s: Seq<u32>, i: int)
    requires
        0 <= i < s.len(),
    ensures
        spec_packed_pixels(s).subrange(3 * i, 3 * i + 3) == spec_pack_rgb(s[i]),
    decreases s.len(),
{
    lemma_packed_pixels_len(s);
    lemma_packed_pixels_len(s.drop_last());
    if i == s.len() - 1 {
        assert(spec_packed_pixels(s).subrange(3 * i, 3 * i + 3) =~= spec_pack_rgb(s[i]));
    } else {
        lemma_packed_pixels_index(s.drop_last(), i);
        assert(spec_packed_pixels(s).subrange(3 * i, 3 * i + 3)
            =~= spec_packed_pixels(s.drop_last()).subrange(3 * i, 3 * i + 3));
    }
}

/// Saving a pixel sequence and loading it back yields the same sequence,
/// for any sequence of 24-bit colors.
pub proof fn lemma_snapshot_round_trip(s: Seq<u32>)
    requires
        forall|i: int| 0 <= i < s.len() ==> s[i] <= COLOR_MASK,
    ensures
        spec_decoded_pixels(spec_packed_pixels(s), s.len()) == s,
{
    lemma_packed_pixels_len(s);
    let d = spec_decoded_pixels(spec_packed_pixels(s), s.len());
    assert forall|i: int| 0 <= i < s.len() implies d[i] == s[i] by {
        lemma_packed_pixels_index(s, i);
        lemma_rgb_round_trip(s[i]);
    };
    assert(d =~= s);
}

/// Serializes a pixel sequence to the snapshot byte format.
pub fn encode_snapshot(pixels: &Vec<u32>) -> (r: Vec<u8>)
    ensures
        r@ == spec_packed_pixels(pixels@),
        r@.len() == 3 * pixels@.len(),
{
    let mut out: Vec<u8> = Vec::new();
    let n = pixels.len();
    let mut k: usize = 0;
    proof {
        assert(out@ =~= spec_packed_pixels(pixels@.subrange(0, 0)));
    }
    while k < n
        invariant
            k <= n,
            n == pixels@.len(),
            out@ == spec_packed_pixels(pixels@.subrange(0, k as int)),
            out@.len() == 3 * k,
        decreases n - k,
    {
        let rgb = pack_rgb(pixels[k]);
        out.push(rgb[0]);
        out.push(rgb[1]);
        out.push(rgb[2]);
        k = k + 1;
        proof {
            let sub = pixels@.subrange(0, k as int);
            assert(sub.drop_last() =~= pixels@.subrange(0, k as int - 1));
            assert(sub.last() == pixels@[k as int - 1]);
            assert(out@ =~= spec_packed_pixels(sub));
        }
    }
    proof {
        assert(pixels@.subrange(0, pixels@.len() as int) =~= pixels@);
        lemma_packed_pixels_len(pixels@);
    }
    out
}

/// Deserializes a snapshot byte stream into `pixel_count` pixels; entries
/// beyond the stream's complete 3-byte groups keep the starting color.
pub fn decode_snapshot(data: &[u8], pixel_count: usize) -> (r: Vec<u32>)
    requires
        data@.len() <= 3 * pixel_count + 2,
    ensures
        r@ == spec_decoded_pixels(data@, pixel_count as nat),
        r@.len() == pixel_count,
        forall|i: int| 0 <= i < pixel_count ==> r@[i] <= COLOR_MASK,
{
    let len = data.len();
    let full = len / 3;
    let mut out: Vec<u32> = Vec::new();
    let mut k: usize = 0;
    proof {
        assert(3 * ((data@.len() as int) / 3) <= data@.len() as int) by (nonlinear_arith);
    }
    while k < full
        invariant
            full == data@.len() / 3,
            data@.len() <= usize::MAX,
            3 * full <= data@.len(),
            data@.len() <= 3 * pixel_count + 2,
            full <= pixel_count,
            k <= full,
            out@.len() == k,
            forall|i: int| 0 <= i < k
                ==> out@[i] == spec_unpack_rgb(data@.subrange(3 * i, 3 * i + 3)),
            forall|i: int| 0 <= i < k ==> out@[i] <= COLOR_MASK,
        decreases full - k,
    {
        let b0 = data[3 * k];
        let b1 = data[3 * k + 1];
        let b2 = data[3 * k + 2];
        let color = ((b0 as u32) << 16) | ((b1 as u32) << 8) | (b2 as u32);
        proof {
            let sub = data@.subrange(3 * k as int, 3 * k as int + 3);
            lemma_unpack_rgb_bound(sub);
            assert(sub[0] == b0 && sub[1] == b1 && sub[2] == b2);
        }
        out.push(color);
        k = k + 1;
    }
    while k < pixel_count
        invariant
            full == data@.len() / 3,
            full <= k <= pixel_count,
            out@.len() == k,
            forall|i: int| 0 <= i < full
                ==> out@[i] == spec_unpack_rgb(data@.subrange(3 * i, 3 * i + 3)),
            forall|i: int| full <= i < k ==> out@[i] == STARTING_COLOR,
            forall|i: int| 0 <= i < k ==> out@[i] <= COLOR_MASK,
        decreases pixel_count - k,
    {
        out.push(STARTING_COLOR);
        k = k + 1;
    }
    proof {
        assert forall|i: int| 0 <= i < pixel_count
            implies out@[i] == spec_decoded_pixels(data@, pixel_count as nat)[i] by {
            if i < full {
                assert(3 * i + 3 <= 3 * full);
            } else {
                assert(3 * i + 3 > data@.len());
            }
        };
        assert(out@ =~= spec_decoded_pixels(data@, pixel_count as nat));
    }
    out
}

/// A GetAllPixels response frame: tag, then every pixel's RGB bytes.
pub fn create_all_pixels_response(pixels: &Vec<u32>) -> (r: Vec<u8>)
    ensures
        r@ == seq![RESPONSE_GET_ALL_PIXELS] + spec_packed_pixels(pixels@),
        r@.len() == 1 + 3 * pixels@.len(),
{
    let mut message: Vec<u8> = Vec::new();
    message.push(RESPONSE_GET_ALL_PIXELS);
    let mut body = encode_snapshot(pixels);
    message.append(&mut body);
    proof {
        lemma_packed_pixels_len(pixels@);
    }
    message
}

/// Builds the server's canvas from a loaded snapshot byte stream; a short
/// or absent stream leaves the remaining pixels at the starting color.
pub fn load_canvas(data: &[u8]) -> (c: Canvas)
    requires
        data@.len() <= 3 * (CANVAS_WIDTH * CANVAS_HEIGHT) + 2,
    ensures
        c.wf(),
        c.width == CANVAS_WIDTH,
        c.height == CANVAS_HEIGHT,
        c.pixels@ == spec_decoded_pixels(data@, (CANVAS_WIDTH * CANVAS_HEIGHT) as nat),
{
    let pixels = decode_snapshot(data, CANVAS_WIDTH * CANVAS_HEIGHT);
    Canvas { width: CANVAS_WIDTH, height: CANVAS_HEIGHT, pixels }
}

} // verus!
