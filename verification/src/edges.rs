//! Rows at the top and the bottom that stay the same while the page scrolls, such as a fixed
//! header.

use crate::difference::{count_product, sampled_row_difference, SAMPLE_STEP};
use crate::math::{count_samples, product_le, Ratio};
use crate::raster::{Frame, Raster};
use vstd::prelude::*;

verus! {

/// Fewer unchanged rows than these are a coincidence, no fixed edge.
pub const STATIC_EDGE_MIN_ROWS: u32 = 16;

/// How many rows at the top and at the bottom stay the same.
#[derive(Clone, Copy, Debug, PartialEq, Eq, Structural)]
pub struct StaticEdges {
    pub top: u32,
    pub bottom: u32,
}

impl Default for StaticEdges {
    /// No row stays the same.
    fn default() -> (edges: StaticEdges)
        ensures
            edges.top == 0,
            edges.bottom == 0,
    {
        StaticEdges { top: 0, bottom: 0 }
    }
}

/// What the frames hold.
pub open spec fn rasters(frames: Seq<&Frame>) -> Seq<Raster> {
    Seq::new(frames.len(), |i: int| frames[i]@)
}

/// The row that lies `offset` rows from the top, or from the bottom.
pub open spec fn edge_row(height: nat, offset: int, from_bottom: bool) -> int {
    if from_bottom {
        height - 1 - offset
    } else {
        offset
    }
}

/// Two rows differ by at most one on average over the sampled channels.
pub open spec fn rows_agree(a: Raster, b: Raster, ya: int, yb: int) -> bool {
    let n = crate::math::sample_count(a.width as int, 2) as nat;
    a.width == b.width && n > 0 && crate::difference::line_delta(a, b, ya, yb, 0, 2, n) <= 3 * n
}

/// The row at this offset agrees with that of the first frame in every other frame.
pub open spec fn row_is_static(frames: Seq<Raster>, offset: int, from_bottom: bool) -> bool {
    forall|i: int|
        1 <= i < frames.len() ==> rows_agree(
            frames[0],
            #[trigger] frames[i],
            edge_row(frames[0].height, offset, from_bottom),
            edge_row(frames[i].height, offset, from_bottom),
        )
}

/// How many rows from this offset on are static before the first that is not, or the limit.
pub open spec fn static_run(
    frames: Seq<Raster>,
    offset: int,
    limit: int,
    from_bottom: bool,
) -> nat
    decreases limit - offset,
{
    if offset >= limit || !row_is_static(frames, offset, from_bottom) {
        0
    } else {
        1 + static_run(frames, offset + 1, limit, from_bottom)
    }
}

/// Red, green and blue of a pixel, added up.
pub open spec fn light(image: Raster, x: int, y: int) -> nat {
    (image.rgba(x, y, 0) + image.rgba(x, y, 1) + image.rgba(x, y, 2)) as nat
}

/// Sums over sampled pixels.
pub struct LightSums {
    /// The light of the pixels.
    pub light: nat,
    /// The squares of the light of the pixels.
    pub squares: nat,
    /// The pixels with a mean channel below 245.
    pub dark: nat,
}

/// The sums along the first `n` sampled pixels of a row.
pub open spec fn light_line(image: Raster, y: int, n: nat) -> LightSums
    decreases n,
{
    if n == 0 {
        LightSums { light: 0, squares: 0, dark: 0 }
    } else {
        let before = light_line(image, y, (n - 1) as nat);
        let here = light(image, (n - 1) * 2, y);
        LightSums {
            light: before.light + here,
            squares: before.squares + here * here,
            dark: before.dark + if here < 735 {
                1nat
            } else {
                0
            },
        }
    }
}

/// The sums over the first `m` sampled rows from the top or the bottom.
pub open spec fn light_block(image: Raster, from_bottom: bool, n: nat, m: nat) -> LightSums
    decreases m,
{
    if m == 0 {
        LightSums { light: 0, squares: 0, dark: 0 }
    } else {
        let before = light_block(image, from_bottom, n, (m - 1) as nat);
        let line = light_line(image, edge_row(image.height, (m - 1) * 2, from_bottom), n);
        LightSums {
            light: before.light + line.light,
            squares: before.squares + line.squares,
            dark: before.dark + line.dark,
        }
    }
}

/// The variance of the light is at least that of a standard deviation of six for each channel.
pub open spec fn has_contrast(count: nat, light: nat, squares: nat) -> bool {
    count * squares - light * light >= 324 * (count * count)
}

/// The outermost rows hold more than a blank margin: they vary, or a hundredth of them is dark.
pub open spec fn edge_has_content(image: Raster, rows: nat, from_bottom: bool) -> bool {
    let n = crate::math::sample_count(image.width as int, 2) as nat;
    let m = crate::math::sample_count(rows as int, 2) as nat;
    let sums = light_block(image, from_bottom, n, m);
    let count = n * m;
    count > 0 && (has_contrast(count, sums.light, sums.squares) || 100 * sums.dark >= count)
}

/// The height of the lowest frame.
pub open spec fn lowest(frames: Seq<Raster>) -> nat
    decreases frames.len(),
{
    if frames.len() == 0 {
        0
    } else if frames.len() == 1 {
        frames[0].height
    } else {
        let before = lowest(frames.drop_last());
        if frames.last().height < before {
            frames.last().height
        } else {
            before
        }
    }
}

/// How many rows may count as an edge: twelve hundredths of the height, sixteen at least, half of
/// the height at most.
pub open spec fn edge_limit(height: nat) -> nat {
    let share = height * 12 / 100;
    let wanted = if share < 16 {
        16
    } else {
        share
    };
    if height / 2 < wanted {
        height / 2
    } else {
        wanted
    }
}

/// How many rows of one edge stay the same: none where they are too few or blank.
pub open spec fn static_edge(frames: Seq<Raster>, from_bottom: bool) -> nat {
    let run = static_run(frames, 0, edge_limit(lowest(frames)) as int, from_bottom);
    if run >= 16 && edge_has_content(frames[0], run, from_bottom) {
        run
    } else {
        0
    }
}

/// How many rows at the top and at the bottom stay the same.
pub open spec fn static_edges(frames: Seq<Raster>) -> (nat, nat) {
    if frames.len() < 2 {
        (0, 0)
    } else {
        (static_edge(frames, false), static_edge(frames, true))
    }
}

/// The frame without its static edges.
pub open spec fn without_edges(image: Raster, edges: (nat, nat)) -> Raster {
    image.rgba_rows(edges.0 as int, image.height - edges.0 - edges.1)
}

/// The lowest frame is no higher than any.
pub proof fn lemma_lowest(frames: Seq<Raster>)
    ensures
        forall|i: int| 0 <= i < frames.len() ==> lowest(frames) <= (#[trigger] frames[i]).height,
    decreases frames.len(),
{
    if frames.len() > 1 {
        lemma_lowest(frames.drop_last());
        assert forall|i: int| 0 <= i < frames.len() implies lowest(frames) <= (
        #[trigger] frames[i]).height by {
            if i < frames.len() - 1 {
                assert(frames.drop_last()[i] == frames[i]);
            }
        }
    }
}

/// A run does not pass the limit.
pub proof fn lemma_run_limit(frames: Seq<Raster>, offset: int, limit: int, from_bottom: bool)
    requires
        offset <= limit,
    ensures
        static_run(frames, offset, limit, from_bottom) <= limit - offset,
    decreases limit - offset,
{
    if offset < limit {
        lemma_run_limit(frames, offset + 1, limit, from_bottom);
    }
}

/// Both edges together fit into every frame.
pub proof fn edges_fit_every_frame(frames: Seq<Raster>)
    ensures
        forall|i: int|
            0 <= i < frames.len() ==> static_edges(frames).0 + static_edges(frames).1 <= (
            #[trigger] frames[i]).height,
{
    let limit = edge_limit(lowest(frames)) as int;
    lemma_lowest(frames);
    lemma_run_limit(frames, 0, limit, false);
    lemma_run_limit(frames, 0, limit, true);
}

/// The lowest height among the frames.
fn lowest_height(frames: &[&Frame]) -> (height: u32)
    ensures
        height == lowest(rasters(frames@)),
{
    if frames.len() == 0 {
        return 0;
    }
    let mut height: u32 = frames[0].height;
    let mut i: usize = 1;
    let ghost all = rasters(frames@);
    assert(all.take(1).len() == 1);
    while i < frames.len()
        invariant
            all == rasters(frames@),
            1 <= i <= frames.len(),
            height == lowest(all.take(i as int)),
        decreases frames.len() - i,
    {
        assert(all.take(i + 1).drop_last() =~= all.take(i as int));
        assert(all.take(i + 1).last() == frames@[i as int]@);
        if frames[i].height < height {
            height = frames[i].height;
        }
        i += 1;
    }
    assert(all.take(i as int) =~= all);
    height
}

/// Decides whether the row at an offset is static.
fn is_static_row(frames: &[&Frame], offset: u32, from_bottom: bool) -> (is_static: bool)
    requires
        frames.len() > 0,
        forall|i: int| 0 <= i < frames.len() ==> (#[trigger] frames[i]).wf(),
        forall|i: int| 0 <= i < frames.len() ==> offset < (#[trigger] frames[i]).height,
    ensures
        is_static == row_is_static(rasters(frames@), offset as int, from_bottom),
{
    let ghost all = rasters(frames@);
    let reference: &Frame = frames[0];
    let reference_y: u32 = if from_bottom {
        reference.height - 1 - offset
    } else {
        offset
    };
    let mut i: usize = 1;
    while i < frames.len()
        invariant
            all == rasters(frames@),
            reference == frames[0],
            1 <= i <= frames.len(),
            forall|j: int| 0 <= j < frames.len() ==> (#[trigger] frames[j]).wf(),
            forall|j: int| 0 <= j < frames.len() ==> offset < (#[trigger] frames[j]).height,
            reference_y == edge_row(reference@.height, offset as int, from_bottom),
            forall|j: int|
                1 <= j < i ==> rows_agree(
                    all[0],
                    #[trigger] all[j],
                    edge_row(all[0].height, offset as int, from_bottom),
                    edge_row(all[j].height, offset as int, from_bottom),
                ),
        decreases frames.len() - i,
    {
        let frame: &Frame = frames[i];
        let y: u32 = if from_bottom {
            frame.height - 1 - offset
        } else {
            offset
        };
        let mean: Ratio = sampled_row_difference(reference, frame, reference_y, y);
        assert(all[i as int] == frame@);
        assert(all[0] == reference@);
        proof {
            crate::math::lemma_samples(reference.width as int, 2);
        }
        if mean.exceeds(3, 1) {
            assert(!rows_agree(
                all[0],
                all[i as int],
                edge_row(all[0].height, offset as int, from_bottom),
                edge_row(all[i as int].height, offset as int, from_bottom),
            ));
            return false;
        }
        i += 1;
    }
    true
}

/// Counts the static rows from one edge on, up to a limit.
pub fn count_static_edge_rows(frames: &[&Frame], max_rows: u32, from_bottom: bool) -> (count: u32)
    requires
        frames.len() > 0,
        forall|i: int| 0 <= i < frames.len() ==> (#[trigger] frames[i]).wf(),
        forall|i: int| 0 <= i < frames.len() ==> max_rows <= (#[trigger] frames[i]).height,
    ensures
        count == static_run(rasters(frames@), 0, max_rows as int, from_bottom),
        count <= max_rows,
{
    let mut count: u32 = 0;
    while count < max_rows
        invariant_except_break
            static_run(rasters(frames@), 0, max_rows as int, from_bottom) == count + static_run(
                rasters(frames@),
                count as int,
                max_rows as int,
                from_bottom,
            ),
        invariant
            frames.len() > 0,
            forall|i: int| 0 <= i < frames.len() ==> (#[trigger] frames[i]).wf(),
            forall|i: int| 0 <= i < frames.len() ==> max_rows <= (#[trigger] frames[i]).height,
            count <= max_rows,
        ensures
            count == static_run(rasters(frames@), 0, max_rows as int, from_bottom),
        decreases max_rows - count,
    {
        if !is_static_row(frames, count, from_bottom) {
            break;
        }
        count += 1;
    }
    count
}

/// Decides whether sums show contrast.
fn contrast_reached(count: u64, light: u128, squares: u128) -> (reached: bool)
    requires
        0 < count,
        light <= 765 * count,
        squares <= 585225 * count,
    ensures
        reached == has_contrast(count as nat, light as nat, squares as nat),
{
    let total: u128 = count as u128;
    let mean: u128 = light / total;
    let rest: u128 = light % total;
    proof {
        vstd::arithmetic::div_mod::lemma_fundamental_div_mod(light as int, total as int);
        assert(mean <= 765) by (nonlinear_arith)
            requires
                light == total * mean + rest,
                light <= 765 * total,
                rest >= 0,
                total > 0,
        ;
        assert(mean * mean <= 765 * 765 && mean * light <= 765 * light) by (nonlinear_arith)
            requires
                0 <= mean <= 765,
                0 <= light,
        ;
        assert((mean * mean) * total <= 585225 * total) by (nonlinear_arith)
            requires
                mean * mean <= 585225,
                0 <= total,
        ;
        assert((2 * mean) * light == 2 * (mean * light)) by (nonlinear_arith);
    }
    let spread: i128 = (squares + mean * mean * total) as i128 - (2 * mean * light) as i128;
    let excess: i128 = spread - 324 * count as i128;
    proof {
        let c = count as int;
        let s = squares as int;
        let q = mean as int;
        let l = light as int;
        let r = rest as int;
        assert(spread == s + (q * q) * c - 2 * (q * l));
        assert(c * (s + (q * q) * c - 2 * (q * l)) - r * r == c * s - l * l) by (nonlinear_arith)
            requires
                l == c * q + r,
        ;
        assert(c * (spread - 324 * c) == c * spread - 324 * (c * c)) by (nonlinear_arith);
        assert(has_contrast(count as nat, light as nat, squares as nat) == (c * excess >= r * r));
        assert(0 <= r * r) by (nonlinear_arith);
        if excess < 0 {
            assert(c * excess < 0) by (nonlinear_arith)
                requires
                    c > 0,
                    excess < 0,
            ;
        }
        assert(excess * c == c * excess) by (nonlinear_arith);
    }
    excess >= 0 && product_le(rest, rest as u64, excess as u128, count)
}

/// Decides whether the outermost rows of the first frame hold more than a blank margin.
pub fn static_edge_has_content(reference: &Frame, height: u32, from_bottom: bool) -> (content: bool)
    requires
        reference.wf(),
        height <= reference.height,
    ensures
        content == edge_has_content(reference@, height as nat, from_bottom),
{
    let n: u32 = count_samples(reference.width, SAMPLE_STEP);
    let m: u32 = count_samples(height, SAMPLE_STEP);
    let count: u64 = count_product(n, m);
    if count == 0 {
        return false;
    }
    let mut light: u128 = 0;
    let mut squares: u128 = 0;
    let mut dark: u128 = 0;
    let mut k: u32 = 0;
    assert(0 * n == 0);
    while k < m
        invariant
            reference.wf(),
            height <= reference.height,
            n == crate::math::sample_count(reference.width as int, 2),
            m == crate::math::sample_count(height as int, 2),
            k <= m,
            light <= 765 * (k * n),
            squares <= 585225 * (k * n),
            dark <= k * n,
            light_block(reference@, from_bottom, n as nat, k as nat) == (LightSums {
                light: light as nat,
                squares: squares as nat,
                dark: dark as nat,
            }),
        decreases m - k,
    {
        proof {
            crate::math::lemma_samples(height as int, 2);
            assert((k as int) * 2 < height);
            assert((k + 1) * n == k * n + n) by (nonlinear_arith);
            assert((k + 1) * n <= 0xffff_ffff * 0xffff_ffff) by (nonlinear_arith)
                requires
                    0 <= k < 0xffff_ffff,
                    0 <= n <= 0xffff_ffff,
            ;
        }
        let offset: u32 = k * 2;
        let y: u32 = if from_bottom {
            reference.height - 1 - offset
        } else {
            offset
        };
        let mut j: u32 = 0;
        let ghost before = (light, squares, dark);
        while j < n
            invariant
                reference.wf(),
                y < reference.height,
                n == crate::math::sample_count(reference.width as int, 2),
                j <= n,
                k < 0xffff_ffff,
                before.0 + 765 * n <= u128::MAX,
                before.1 + 585225 * n <= u128::MAX,
                before.2 + n <= u128::MAX,
                light <= before.0 + 765 * j,
                squares <= before.1 + 585225 * j,
                dark <= before.2 + j,
                light == before.0 + light_line(reference@, y as int, j as nat).light,
                squares == before.1 + light_line(reference@, y as int, j as nat).squares,
                dark == before.2 + light_line(reference@, y as int, j as nat).dark,
            decreases n - j,
        {
            proof {
                crate::math::lemma_samples(reference.width as int, 2);
                assert((j as int) * 2 < reference.width);
            }
            let x: u32 = j * 2;
            let red: u8 = reference.channel(x, y, 0);
            let green: u8 = reference.channel(x, y, 1);
            let blue: u8 = reference.channel(x, y, 2);
            let here: u128 = red as u128 + green as u128 + blue as u128;
            assert(here * here <= 585225) by (nonlinear_arith)
                requires
                    0 <= here <= 765,
            ;
            light = light + here;
            squares = squares + here * here;
            if here < 735 {
                dark = dark + 1;
            }
            j += 1;
        }
        k += 1;
    }
    proof {
        assert(m * n == n * m) by (nonlinear_arith);
    }
    contrast_reached(count, light, squares) || 100 * dark >= count as u128
}

/// Finds the rows at the top and the bottom that stay the same in all frames.
pub fn detect_static_edges(frames: &[&Frame]) -> (edges: StaticEdges)
    requires
        forall|i: int| 0 <= i < frames.len() ==> (#[trigger] frames[i]).wf(),
    ensures
        (edges.top as nat, edges.bottom as nat) == static_edges(rasters(frames@)),
{
    if frames.len() < 2 {
        return StaticEdges::default();
    }
    let ghost all = rasters(frames@);
    let min_height: u32 = lowest_height(frames);
    let share: u32 = (min_height as u64 * 12 / 100) as u32;
    let wanted: u32 = if share < STATIC_EDGE_MIN_ROWS {
        STATIC_EDGE_MIN_ROWS
    } else {
        share
    };
    let max_rows: u32 = if min_height / 2 < wanted {
        min_height / 2
    } else {
        wanted
    };
    proof {
        lemma_lowest(all);
        assert forall|i: int| 0 <= i < frames.len() implies max_rows <= (
        #[trigger] frames[i]).height by {
            assert(all[i] == frames[i]@);
        }
        assert(all[0] == frames[0]@);
    }
    let top: u32 = count_static_edge_rows(frames, max_rows, false);
    let bottom: u32 = count_static_edge_rows(frames, max_rows, true);
    let keep_top: bool = top >= STATIC_EDGE_MIN_ROWS && static_edge_has_content(
        frames[0],
        top,
        false,
    );
    let keep_bottom: bool = bottom >= STATIC_EDGE_MIN_ROWS && static_edge_has_content(
        frames[0],
        bottom,
        true,
    );
    StaticEdges {
        top: if keep_top {
            top
        } else {
            0
        },
        bottom: if keep_bottom {
            bottom
        } else {
            0
        },
    }
}

/// Cuts the static edges off a frame.
pub fn crop_static_edges(image: &Frame, edges: StaticEdges) -> (cut: Frame)
    requires
        image.wf(),
        edges.top + edges.bottom <= image.height,
    ensures
        cut.wf(),
        cut@ == without_edges(image@, (edges.top as nat, edges.bottom as nat)),
{
    image.crop_rows(edges.top, image.height - edges.top - edges.bottom)
}

/// Counts the rows at the top and at the bottom that stay the same in two frames of one height.
pub fn detect_pair_edges(previous: &Frame, current: &Frame) -> (edges: StaticEdges)
    requires
        previous.wf(),
        current.wf(),
        previous.height == current.height,
    ensures
        (edges.top as nat, edges.bottom as nat) == static_edges(seq![previous@, current@]),
        edges.top + edges.bottom <= previous.height,
{
    let pair: [&Frame; 2] = [previous, current];
    proof {
        edges_fit_every_frame(seq![previous@, current@]);
        assert(rasters(pair@) =~= seq![previous@, current@]);
        assert(seq![previous@, current@][0] == previous@);
    }
    detect_static_edges(&pair)
}

} // verus!
