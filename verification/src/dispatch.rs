//! The per-connection dispatcher: decodes one inbound binary frame,
//! mutates the canvas and the stats tracker as the request demands, and
//! produces the broadcast instruction, direct reply, or error reply that
//! the transport layer must deliver.

use vstd::prelude::*;
use vstd::slice::slice_subrange;
use crate::canvas::{Canvas, COLOR_MASK};
use crate::codec::{
    spec_coord_flag, spec_coord_x, spec_coord_y, spec_unpack_rgb, unpack_coordinates, unpack_rgb,
    ErrorCode, MessageType, TAG_GET_ALL_PIXELS, TAG_GET_PIXEL, TAG_GET_STATS, TAG_SET_PIXEL,
};
use crate::stats::{lemma_total_nonneg, spec_pruned, spec_total, StatsTracker, STATS_WINDOW_SECS};

verus! {

/// What handling one inbound frame asks the transport layer to do.
#[derive(Debug, PartialEq)]
pub enum ResponseType {
    /// Echo the pixel write to the clients; `skip_sender` mirrors the
    /// request's flag bit.
    Broadcast { x: u16, y: u16, color: u32, skip_sender: bool },
    /// Reply to the sender with the full pixel sequence.
    GetAllPixels(Vec<u32>),
    /// Reply to the sender with one pixel's color.
    PixelColor(u32),
    /// Reply to the sender with the client count and the summed request
    /// count inside the stats window; the transport divides that sum by
    /// the window length to report a rate.
    Stats { client_count: u32, window_total: u64 },
    /// Reply to the sender with an error code.
    Error(ErrorCode),
}

/// Handles one inbound binary frame. Every inbound frame — including an
/// empty or malformed one that draws an error reply — is recorded as one
/// request-rate event before message-specific handling. A complete
/// SetPixel writes the canvas (silently dropped outside the grid) and
/// asks for a broadcast; GetPixel, GetAllPixels and GetStats read and ask
/// for a direct reply; everything else asks for an error reply.
pub fn parse_message(
    canvas: &mut Canvas,
    tracker: &mut StatsTracker,
    client_count: u32,
    now: u64,
    data: &[u8],
) -> (r: ResponseType)
    requires
        old(canvas).wf(),
        old(tracker).wf(),
        old(tracker).last_time() <= now,
        now <= u64::MAX - STATS_WINDOW_SECS,
        spec_total(old(tracker).events@) + 1 <= u64::MAX,
    ensures
        final(canvas).wf(),
        final(canvas).width == old(canvas).width,
        final(canvas).height == old(canvas).height,
        final(tracker).wf(),
        // an empty frame: an error reply, recorded like any other frame
        data@.len() == 0 ==> {
            &&& r == ResponseType::Error(ErrorCode::InvalidMessageType)
            &&& final(canvas).pixels@ == old(canvas).pixels@
        },
        // every frame, the empty one included, is recorded as one request
        data@.len() == 0 || data@[0] != TAG_GET_STATS ==> final(tracker).events@ == old(
            tracker,
        ).events@.push((now, 1)),
        // a complete SetPixel: write-through (masked, silently dropped out
        // of bounds) and a broadcast instruction carrying the frame's fields
        data@.len() >= 7 && data@[0] == TAG_SET_PIXEL ==> {
            let x = spec_coord_x(data@.subrange(1, 4));
            let y = spec_coord_y(data@.subrange(1, 4));
            let color = spec_unpack_rgb(data@.subrange(4, 7));
            &&& r == (ResponseType::Broadcast {
                x,
                y,
                color,
                skip_sender: spec_coord_flag(data@.subrange(1, 4)),
            })
            &&& old(canvas).in_bounds(x as usize, y as usize) ==> final(canvas).pixels@ == old(
                canvas,
            ).pixels@.update(old(canvas).index_of(x as usize, y as usize), color & COLOR_MASK)
            &&& !old(canvas).in_bounds(x as usize, y as usize) ==> final(canvas).pixels@ == old(
                canvas,
            ).pixels@
        },
        // a truncated SetPixel or GetPixel: an error reply, no write
        data@.len() > 0 && data@[0] == TAG_SET_PIXEL && data@.len() < 7 ==> {
            &&& r == ResponseType::Error(ErrorCode::InvalidMessageType)
            &&& final(canvas).pixels@ == old(canvas).pixels@
        },
        data@.len() > 0 && data@[0] == TAG_GET_PIXEL && data@.len() < 4 ==> {
            &&& r == ResponseType::Error(ErrorCode::InvalidMessageType)
            &&& final(canvas).pixels@ == old(canvas).pixels@
        },
        // a complete GetPixel: the stored color, or an out-of-bounds error
        data@.len() >= 4 && data@[0] == TAG_GET_PIXEL ==> {
            let x = spec_coord_x(data@.subrange(1, 4));
            let y = spec_coord_y(data@.subrange(1, 4));
            &&& final(canvas).pixels@ == old(canvas).pixels@
            &&& old(canvas).in_bounds(x as usize, y as usize) ==> r
                == ResponseType::PixelColor(
                old(canvas).pixels@[old(canvas).index_of(x as usize, y as usize)],
            )
            &&& !old(canvas).in_bounds(x as usize, y as usize) ==> r
                == ResponseType::Error(ErrorCode::OutOfBounds)
        },
        // GetAllPixels: a copy of every pixel
        data@.len() > 0 && data@[0] == TAG_GET_ALL_PIXELS ==> {
            &&& final(canvas).pixels@ == old(canvas).pixels@
            &&& r matches ResponseType::GetAllPixels(v) && v@ == old(canvas).pixels@
        },
        // GetStats: the window is pruned at `now` and its sum reported
        data@.len() > 0 && data@[0] == TAG_GET_STATS ==> {
            &&& final(canvas).pixels@ == old(canvas).pixels@
            &&& final(tracker).events@ == spec_pruned(
                old(tracker).events@.push((now, 1)),
                now,
            )
            &&& r == (ResponseType::Stats {
                client_count,
                window_total: spec_total(final(tracker).events@) as u64,
            })
        },
        // an unknown tag: an error reply, nothing else
        data@.len() > 0 && !(TAG_SET_PIXEL <= data@[0] <= TAG_GET_STATS) ==> {
            &&& r == ResponseType::Error(ErrorCode::InvalidMessageType)
            &&& final(canvas).pixels@ == old(canvas).pixels@
        },
{
    tracker.record(now, 1);

    if data.len() == 0 {
        return ResponseType::Error(ErrorCode::InvalidMessageType);
    }

    let msg_type = data[0];
    match MessageType::try_from(msg_type) {
        Ok(MessageType::SetPixel) => {
            if data.len() < 7 {
                return ResponseType::Error(ErrorCode::InvalidMessageType);
            }
            let coords = slice_subrange(data, 1, 4);
            let (x, y, skip_sender) = unpack_coordinates(coords);
            let rgb = slice_subrange(data, 4, 7);
            let color = unpack_rgb(rgb);
            canvas.set_pixel(x as usize, y as usize, color);
            ResponseType::Broadcast { x, y, color, skip_sender }
        },
        Ok(MessageType::GetPixel) => {
            if data.len() < 4 {
                return ResponseType::Error(ErrorCode::InvalidMessageType);
            }
            let coords = slice_subrange(data, 1, 4);
            let (x, y, _flag) = unpack_coordinates(coords);
            match canvas.get_pixel(x as usize, y as usize) {
                Some(color) => ResponseType::PixelColor(color),
                None => ResponseType::Error(ErrorCode::OutOfBounds),
            }
        },
        Ok(MessageType::GetAllPixels) => ResponseType::GetAllPixels(canvas.snapshot()),
        Ok(MessageType::GetStats) => {
            let window_total = tracker.windowed_total(now);
            proof {
                lemma_total_nonneg(tracker.events@);
            }
            ResponseType::Stats { client_count, window_total }
        },
        Err(_) => ResponseType::Error(ErrorCode::InvalidMessageType),
    }
}

} // verus!
