//! The long image, in terms of the frames as they were captured.

use crate::raster::Raster;
use vstd::prelude::*;

verus! {

/// Every frame loses the rows that stay the same at its top and at its bottom, and no other.
pub proof fn both_bars_are_cut_off(frames: Seq<Raster>, i: int)
    requires
        0 <= i < frames.len(),
    ensures
        ({
            let bars = crate::edges::static_edges(frames);
            &&& crate::stitch::trimmed(frames).len() == frames.len()
            &&& bars.0 + bars.1 <= frames[i].height
            &&& crate::stitch::trimmed(frames)[i].width == frames[i].width
            &&& crate::stitch::trimmed(frames)[i].height == frames[i].height - bars.0 - bars.1
            &&& crate::stitch::trimmed(frames)[i].data == frames[i].data.subrange(
                (bars.0 * (frames[i].width * 4)) as int,
                (frames[i].height - bars.1) * (frames[i].width * 4),
            )
        }),
{
    crate::edges::edges_fit_every_frame(frames);
    let frame = frames[i];
}

/// Each frame, between its fixed bars, shows the rows of the page from its top on, with at least
/// one row that the frame before it does not show, and overlaps it by the rows that both show.
pub open spec fn shows_page(
    page: Raster,
    frames: Seq<Raster>,
    bars: (nat, nat),
    overlaps: Seq<u32>,
    tops: Seq<int>,
) -> bool {
    &&& frames.len() == overlaps.len() + 1
    &&& frames.len() == tops.len()
    &&& forall|i: int|
        0 <= i < frames.len() ==> {
            let shown = (#[trigger] frames[i]).height - bars.0 - bars.1;
            &&& 0 <= shown
            &&& 0 <= tops[i]
            &&& tops[i] + shown <= page.height
            &&& frames[i].width == page.width
            &&& frames[i].data.subrange(
                (bars.0 * (page.width * 4)) as int,
                (frames[i].height - bars.1) * (page.width * 4),
            ) == page.data.subrange(
                tops[i] * (page.width * 4),
                (tops[i] + shown) * (page.width * 4),
            )
        }
    &&& forall|i: int|
        0 <= i < overlaps.len() ==> {
            &&& #[trigger] overlaps[i] == tops[i] + (frames[i].height - bars.0 - bars.1) - tops[i
                + 1]
            &&& overlaps[i] < frames[i + 1].height - bars.0 - bars.1
        }
}

/// Frames of one page, captured with fixed bars above and below it, are stitched into the page:
/// each of its rows from the first frame to the last stands there once, and no row of a bar.
pub proof fn captured_pages_are_rebuilt(
    page: Raster,
    frames: Seq<Raster>,
    overlaps: Seq<u32>,
    tops: Seq<int>,
)
    requires
        page.is_rgba(),
        frames.len() > 0,
        shows_page(page, frames, crate::edges::static_edges(frames), overlaps, tops),
    ensures
        crate::stitch::go_together(crate::stitch::trimmed(frames), overlaps),
        ({
            let bars = crate::edges::static_edges(frames);
            let rows = tops.last() + frames.last().height - bars.0 - bars.1 - tops[0];
            let image = crate::stitch::stitched(frames, overlaps);
            &&& 0 <= rows
            &&& image.width == page.width
            &&& image.height == rows
            &&& image.data == page.data.subrange(
                tops[0] * (page.width * 4),
                (tops[0] + rows) * (page.width * 4),
            )
        }),
{
    let bars = crate::edges::static_edges(frames);
    let cut = crate::stitch::trimmed(frames);
    assert forall|i: int| 0 <= i < frames.len() implies {
        &&& (#[trigger] cut[i]).width == page.width
        &&& cut[i].height == frames[i].height - bars.0 - bars.1
        &&& cut[i] == page.rgba_rows(tops[i], cut[i].height as int)
    } by {
        both_bars_are_cut_off(frames, i);
        let frame = frames[i];
    }
    assert forall|i: int| 1 <= i < cut.len() implies (#[trigger] cut[i]).width == cut[0].width
        && overlaps[i - 1] < cut[i].height by {
        let before = cut[0];
        assert(overlaps[i - 1] < frames[(i - 1) + 1].height - bars.0 - bars.1);
    }
    assert(crate::stitch::are_windows(page, cut, overlaps, tops)) by {
        assert forall|i: int| 0 <= i < cut.len() implies {
            &&& 0 <= #[trigger] tops[i]
            &&& tops[i] + cut[i].height <= page.height
            &&& cut[i] == page.rgba_rows(tops[i], cut[i].height as int)
        } by {
            let frame = frames[i];
            let window = cut[i];
        }
        assert forall|i: int| 1 <= i < cut.len() implies #[trigger] overlaps[i - 1] == tops[i - 1]
            + cut[i - 1].height - tops[i] by {
            let window = cut[i - 1];
        }
    }
    crate::stitch::stitching_rebuilds_the_page(page, frames, overlaps, tops);
    lemma_last_is_below_first(page, frames, bars, overlaps, tops, (frames.len() - 1) as nat);
    let last = cut[cut.len() - 1];
}

/// A later frame ends no higher than the first begins.
proof fn lemma_last_is_below_first(
    page: Raster,
    frames: Seq<Raster>,
    bars: (nat, nat),
    overlaps: Seq<u32>,
    tops: Seq<int>,
    i: nat,
)
    requires
        shows_page(page, frames, bars, overlaps, tops),
        i < frames.len(),
    ensures
        tops[i as int] + frames[i as int].height - bars.0 - bars.1 >= tops[0],
    decreases i,
{
    let frame = frames[i as int];
    if i > 0 {
        lemma_last_is_below_first(page, frames, bars, overlaps, tops, (i - 1) as nat);
        assert(overlaps[i - 1] < frames[(i - 1) + 1].height - bars.0 - bars.1);
    }
}

/// Frames of one page with a fixed bar above it, below it, both or neither are stitched into
/// the page, without any bar.
pub proof fn pages_between_bars_are_rebuilt(
    page: Raster,
    frames: Seq<Raster>,
    top_bar: nat,
    bottom_bar: nat,
    overlaps: Seq<u32>,
    tops: Seq<int>,
)
    requires
        page.is_rgba(),
        0 < page.width,
        frames.len() >= 2,
        crate::laws::edges::has_bar(frames, false, top_bar),
        crate::laws::edges::has_bar(frames, true, bottom_bar),
        shows_page(page, frames, (top_bar, bottom_bar), overlaps, tops),
    ensures
        crate::stitch::go_together(crate::stitch::trimmed(frames), overlaps),
        ({
            let rows = tops.last() + frames.last().height - top_bar - bottom_bar - tops[0];
            let image = crate::stitch::stitched(frames, overlaps);
            &&& image.width == page.width
            &&& image.height == rows
            &&& image.data == page.data.subrange(
                tops[0] * (page.width * 4),
                (tops[0] + rows) * (page.width * 4),
            )
        }),
{
    assert forall|i: int| 0 <= i < frames.len() implies (#[trigger] frames[i]).width
        == frames[0].width by {
        let first = frames[0];
    }
    assert(frames[0].width == page.width);
    crate::laws::edges::bars_are_told_from_content(frames, false, top_bar);
    crate::laws::edges::bars_are_told_from_content(frames, true, bottom_bar);
    assert(crate::edges::static_edges(frames) == (top_bar, bottom_bar));
    captured_pages_are_rebuilt(page, frames, overlaps, tops);
}

/// The rows of a frame below its overlap follow what was joined before it, byte for byte, and the
/// rows of its overlap are those of the frames before it.
pub proof fn each_frame_adds_the_rows_below_its_overlap(
    frames: Seq<Raster>,
    overlaps: Seq<u32>,
    n: nat,
)
    requires
        1 <= n < frames.len(),
    ensures
        crate::stitch::joined(frames, overlaps, 1) == frames[0],
        ({
            let above = crate::stitch::joined(frames, overlaps, n);
            let frame = frames[n as int];
            let whole = crate::stitch::joined(frames, overlaps, n + 1);
            &&& whole.data == above.data + frame.data.subrange(
                overlaps[n - 1] * (frame.width * 4),
                (frame.height * (frame.width * 4)) as int,
            )
            &&& whole.width == above.width
            &&& overlaps[n - 1] <= frame.height ==> whole.height == above.height + frame.height
                - overlaps[n - 1]
        }),
{
    let frame = frames[n as int];
    let overlap = overlaps[n - 1] as int;
    assert(overlap + (frame.height - overlap) == frame.height);
}

/// Frames that go together have one overlap between any two of them in a row and one width, and
/// each of them but the first has a row below its overlap.
pub proof fn what_does_not_fit_does_not_go_together(
    frames: Seq<Raster>,
    overlaps: Seq<u32>,
    i: int,
)
    ensures
        frames.len() != overlaps.len() + 1 ==> !crate::stitch::go_together(frames, overlaps),
        1 <= i < frames.len() && frames[i].width != frames[0].width ==> !crate::stitch::go_together(
            frames,
            overlaps,
        ),
        1 <= i < frames.len() && overlaps[i - 1] >= frames[i].height
            ==> !crate::stitch::go_together(frames, overlaps),
{
    if 1 <= i < frames.len() {
        let frame = frames[i];
    }
}

/// Frames of one width go together with any overlaps that leave a row of each.
pub proof fn frames_of_one_width_go_together(
    frames: Seq<Raster>,
    overlaps: Seq<u32>,
    width: nat,
)
    requires
        frames.len() > 0,
        overlaps.len() == frames.len() - 1,
        forall|i: int| 0 <= i < frames.len() ==> (#[trigger] frames[i]).width == width,
        forall|i: int|
            0 <= i < overlaps.len() ==> #[trigger] overlaps[i] < frames[i + 1].height,
    ensures
        crate::stitch::go_together(frames, overlaps),
{
    assert forall|i: int| 1 <= i < frames.len() implies (#[trigger] frames[i]).width
        == frames[0].width && overlaps[i - 1] < frames[i].height by {
        assert(overlaps[i - 1] < frames[(i - 1) + 1].height);
    }
}

} // verus!
