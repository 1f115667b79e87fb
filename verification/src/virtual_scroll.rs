//! Virtual-scroll engine: maps a scroll offset to the window of row indices
//! that must actually be rendered, given per-row pixel heights. Rows whose
//! height has not been measured yet count with a sample height: the first
//! measured positive height, else the caller's default. All pixel values
//! are whole pixels.

use vstd::prelude::*;

verus! {

/// Largest row count the engine accepts; keeps every pixel sum below 2^64.
pub const MAX_CONTENT_LENGTH: usize = 0xFFFF_FFFF;

/// The sample height taken from position `k` on: the first measured
/// positive height, else `default`.
pub open spec fn spec_sample_from(heights: Seq<Option<u32>>, k: int, default: u32) -> u32
    decreases heights.len() - k,
{
    if k < 0 || k >= heights.len() {
        default
    } else {
        match heights[k] {
            Some(h) => if h > 0 {
                h
            } else {
                spec_sample_from(heights, k + 1, default)
            },
            None => spec_sample_from(heights, k + 1, default),
        }
    }
}

/// Height that row `i` counts with: its measured height, else the sample.
pub open spec fn spec_height_at(heights: Seq<Option<u32>>, sample: u32, i: int) -> u32 {
    if 0 <= i < heights.len() {
        match heights[i] {
            Some(h) => h,
            None => sample,
        }
    } else {
        sample
    }
}

/// Sum of the heights of rows `0 .. c`.
pub open spec fn spec_prefix_px(heights: Seq<Option<u32>>, sample: u32, c: int) -> int
    decreases c,
{
    if c <= 0 {
        0
    } else {
        spec_prefix_px(heights, sample, c - 1) + spec_height_at(heights, sample, c - 1)
    }
}

/// Number of rows from `start` that fit before the accumulated height
/// reaches `target`, starting the count at `d`: the least `d` at which the
/// rows run out or the accumulated height reaches `target`.
pub open spec fn spec_walk(
    heights: Seq<Option<u32>>,
    sample: u32,
    len: int,
    start: int,
    target: int,
    d: int,
) -> int
    decreases len - start - d,
{
    if start + d >= len {
        d
    } else if spec_prefix_px(heights, sample, start + d) - spec_prefix_px(heights, sample, start)
        >= target {
        d
    } else {
        spec_walk(heights, sample, len, start, target, d + 1)
    }
}

/// Prefix sums are monotone and bounded by `c` rows of the largest height.
pub proof fn lemma_prefix_px_bounds(heights: Seq<Option<u32>>, sample: u32, c: int)
    requires
        c >= 0,
    ensures
        0 <= spec_prefix_px(heights, sample, c),
        spec_prefix_px(heights, sample, c) <= c * 0xFFFF_FFFFu32 as int,
        forall|b: int|
            0 <= b <= c ==> spec_prefix_px(heights, sample, b) <= spec_prefix_px(
                heights,
                sample,
                c,
            ),
    decreases c,
{
    if c > 0 {
        lemma_prefix_px_bounds(heights, sample, c - 1);
        assert((c - 1) * 0xFFFF_FFFFu32 as int + 0xFFFF_FFFFu32 as int == c * 0xFFFF_FFFFu32
            as int) by (nonlinear_arith);
    }
}

/// Inputs of the virtual-scroll derivation.
pub struct UseVirtualScrollParams {
    /// Height that an unmeasured row counts with while no row has been
    /// measured, in pixels.
    pub default_content_height_px: u32,
    /// Total number of rows.
    pub content_length: usize,
    /// Extra rows rendered beyond each edge of the visible window; 5 when
    /// absent.
    pub over_scan: Option<usize>,
    /// Height of the viewport, in pixels; ten sample heights when absent.
    pub view_height_px: Option<u64>,
}

/// Mutable virtual-scroll state: the measured heights and the current
/// scroll offset.
pub struct VirtualScrollState {
    /// Measured height of each row, by render index; `None` where no
    /// measurement has arrived.
    pub heights: Vec<Option<u32>>,
    /// Current scroll offset, in pixels.
    pub scrolled_px: u64,
}

impl VirtualScrollState {
    pub fn new(content_length: usize) -> (r: VirtualScrollState)
        ensures
            r.heights@.len() == content_length,
            forall|i: int| 0 <= i < content_length ==> #[trigger] r.heights@[i] is None,
            r.scrolled_px == 0,
    {
        let mut heights: Vec<Option<u32>> = Vec::new();
        let mut i: usize = 0;
        while i < content_length
            invariant
                0 <= i <= content_length,
                heights@.len() == i,
                forall|j: int| 0 <= j < i ==> #[trigger] heights@[j] is None,
            decreases content_length - i,
        {
            heights.push(None);
            i = i + 1;
        }
        VirtualScrollState { heights, scrolled_px: 0 }
    }

    /// Records the scroll offset reported by the host.
    pub fn set_offset_on_scroll(&mut self, scroll_top_px: u64)
        ensures
            final (self).scrolled_px == scroll_top_px,
            final (self).heights == old(self).heights,
    {
        self.scrolled_px = scroll_top_px;
    }

    /// Records a measured height for one row.
    pub fn set_height(&mut self, index: usize, height_px: u32)
        requires
            index < old(self).heights@.len(),
        ensures
            final (self).heights@ == old(self).heights@.update(index as int, Some(height_px)),
            final (self).scrolled_px == old(self).scrolled_px,
    {
        self.heights[index] = Some(height_px);
    }
}

/// Fixed pixel heights around the rendered window: what lies above it, and
/// the height of the whole content. They keep the host's scrollbar
/// proportions right while only a short list is rendered.
pub struct VirtualScrollProps {
    /// Sum of the heights of the rows above the rendered window.
    pub before_height_px: u64,
    /// Sum of the heights of all rows.
    pub max_height_px: u64,
}

/// Derived virtual-scroll window for one render.
pub struct UseVirtualScrollResult {
    pub props: VirtualScrollProps,
    /// First row of the visible window.
    pub view_offset: usize,
    /// Number of rows in the visible window.
    pub view_limit: usize,
    /// First row actually rendered: `view_offset` less the over-scan.
    pub render_offset: usize,
    /// Number of rows actually rendered: `view_limit` plus the over-scan.
    pub render_limit: usize,
    /// Total number of rows, bounding every slice the result is used on.
    pub content_length: usize,
}

/// Height row `i` counts with, reading the measured heights; a row with no
/// entry counts with the sample.
fn height_at(heights: &Vec<Option<u32>>, sample: u32, i: usize) -> (r: u32)
    ensures
        r == spec_height_at(heights@, sample, i as int),
{
    if i < heights.len() {
        match heights[i] {
            Some(h) => h,
            None => sample,
        }
    } else {
        sample
    }
}

/// The sample height: the first measured positive height, else the default.
fn sample_height(heights: &Vec<Option<u32>>, default: u32) -> (r: u32)
    ensures
        r == spec_sample_from(heights@, 0, default),
{
    let mut k: usize = 0;
    while k < heights.len()
        invariant
            0 <= k <= heights@.len(),
            spec_sample_from(heights@, 0, default) == spec_sample_from(heights@, k as int, default),
        decreases heights@.len() - k,
    {
        match heights[k] {
            Some(h) => {
                if h > 0 {
                    return h;
                }
            },
            None => {},
        }
        k = k + 1;
    }
    default
}

/// Counts rows from `start` until the accumulated height reaches `target`
/// or the rows run out.
fn walk(heights: &Vec<Option<u32>>, sample: u32, content_length: usize, start: usize, target: u64) -> (r: usize)
    requires
        content_length <= MAX_CONTENT_LENGTH,
        start <= content_length,
    ensures
        r as int == spec_walk(heights@, sample, content_length as int, start as int, target as int, 0),
        start + r <= content_length,
{
    let ghost len = content_length as int;
    let len_exec = content_length;
    let mut d: usize = 0;
    let mut acc: u64 = 0;
    while start + d < len_exec && acc < target
        invariant
            0 <= d,
            start + d <= content_length,
            content_length <= MAX_CONTENT_LENGTH,
            len == content_length as int,
            len_exec == content_length,
            acc as int == spec_prefix_px(heights@, sample, start + d) - spec_prefix_px(
                heights@,
                sample,
                start as int,
            ),
            spec_walk(heights@, sample, len, start as int, target as int, 0) == spec_walk(
                heights@,
                sample,
                len,
                start as int,
                target as int,
                d as int,
            ),
        decreases len_exec - start - d,
    {
        let h = height_at(heights, sample, start + d);
        proof {
            lemma_prefix_px_bounds(heights@, sample, start + d + 1);
            lemma_prefix_px_bounds(heights@, sample, start as int);
            assert(spec_prefix_px(heights@, sample, start + d + 1) <= (start + d + 1)
                * 0xFFFF_FFFFu32 as int);
            assert((start + d + 1) * 0xFFFF_FFFFu32 as int <= (MAX_CONTENT_LENGTH as int)
                * 0xFFFF_FFFFu32 as int) by (nonlinear_arith)
                requires
                    start + d + 1 <= MAX_CONTENT_LENGTH as int,
            ;
        }
        acc = acc + h as u64;
        d = d + 1;
    }
    proof {
        assert(spec_walk(heights@, sample, len, start as int, target as int, d as int) == d as int);
    }
    d
}

/// Sum of the heights of rows `0 .. c`.
fn prefix_px(heights: &Vec<Option<u32>>, sample: u32, c: usize) -> (r: u64)
    requires
        c <= MAX_CONTENT_LENGTH,
    ensures
        r as int == spec_prefix_px(heights@, sample, c as int),
{
    let mut i: usize = 0;
    let mut acc: u64 = 0;
    while i < c
        invariant
            0 <= i <= c <= MAX_CONTENT_LENGTH,
            acc as int == spec_prefix_px(heights@, sample, i as int),
        decreases c - i,
    {
        let h = height_at(heights, sample, i);
        proof {
            lemma_prefix_px_bounds(heights@, sample, i + 1);
            assert(spec_prefix_px(heights@, sample, i + 1) <= (i + 1) * 0xFFFF_FFFFu32 as int);
            assert((i + 1) * 0xFFFF_FFFFu32 as int <= (MAX_CONTENT_LENGTH as int) * 0xFFFF_FFFFu32
                as int) by (nonlinear_arith)
                requires
                    i + 1 <= MAX_CONTENT_LENGTH as int,
            ;
        }
        acc = acc + h as u64;
        i = i + 1;
    }
    acc
}

/// Derives the rendered window from the measured heights and the scroll
/// offset. The visible window starts at the row where the accumulated
/// height reaches the scroll offset and holds the rows that fit in the
/// viewport; the rendered window widens it by the over-scan on each side.
pub fn use_virtual_scroll(params: &UseVirtualScrollParams, state: &VirtualScrollState) -> (r:
    UseVirtualScrollResult)
    requires
        params.content_length <= MAX_CONTENT_LENGTH,
        params.content_length + (match params.over_scan {
            Some(o) => o,
            None => 5,
        }) <= MAX_CONTENT_LENGTH,
    ensures
        ({
            let heights = state.heights@;
            let len = params.content_length as int;
            let sample = spec_sample_from(heights, 0, params.default_content_height_px);
            let over_scan = (match params.over_scan {
                Some(o) => o as int,
                None => 5,
            });
            let view_height = (match params.view_height_px {
                Some(v) => v as int,
                None => sample as int * 10,
            });
            let view_offset = spec_walk(heights, sample, len, 0, state.scrolled_px as int, 0);
            let render_offset = if view_offset >= over_scan {
                view_offset - over_scan
            } else {
                0
            };
            let view_limit = spec_walk(heights, sample, len, view_offset, view_height, 0);
            &&& r.view_offset as int == view_offset
            &&& r.view_limit as int == view_limit
            &&& r.render_offset as int == render_offset
            &&& r.render_limit as int == view_limit + over_scan
            &&& r.content_length == params.content_length
            &&& r.props.before_height_px as int == spec_prefix_px(heights, sample, render_offset)
            &&& r.props.max_height_px as int == spec_prefix_px(heights, sample, len)
        }),
{
    let over_scan: usize = match params.over_scan {
        Some(o) => o,
        None => 5,
    };
    let sample = sample_height(&state.heights, params.default_content_height_px);
    let view_height: u64 = match params.view_height_px {
        Some(v) => v,
        None => sample as u64 * 10,
    };
    let view_offset = walk(&state.heights, sample, params.content_length, 0, state.scrolled_px);
    let render_offset = if view_offset >= over_scan {
        view_offset - over_scan
    } else {
        0
    };
    let view_limit = walk(&state.heights, sample, params.content_length, view_offset, view_height);
    let render_limit = view_limit + over_scan;
    let before_height_px = prefix_px(&state.heights, sample, render_offset);
    let max_height_px = prefix_px(&state.heights, sample, params.content_length);
    UseVirtualScrollResult {
        props: VirtualScrollProps { before_height_px, max_height_px },
        view_offset,
        view_limit,
        render_offset,
        render_limit,
        content_length: params.content_length,
    }
}

/// Scroll offset, in pixels, of the top of the row at `index`: the summed
/// heights of the rows above it.
pub fn get_offset_px_by_index(
    state: &VirtualScrollState,
    default_content_height_px: u32,
    index: usize,
) -> (r: u64)
    requires
        index <= MAX_CONTENT_LENGTH,
    ensures
        r as int == spec_prefix_px(
            state.heights@,
            spec_sample_from(state.heights@, 0, default_content_height_px),
            index as int,
        ),
{
    let sample = sample_height(&state.heights, default_content_height_px);
    prefix_px(&state.heights, sample, index)
}

/// First row of the rendered slice of `data`: `render_offset`, capped at
/// the end of the slice.
pub open spec fn spec_render_start(r: UseVirtualScrollResult, data_len: int) -> int {
    let end = spec_render_end(r, data_len);
    if r.render_offset as int <= end {
        r.render_offset as int
    } else {
        end
    }
}

/// End of the rendered slice of `data`: `render_offset + render_limit`,
/// capped at the data length and the content length.
pub open spec fn spec_render_end(r: UseVirtualScrollResult, data_len: int) -> int {
    let cap = if data_len <= r.content_length as int {
        data_len
    } else {
        r.content_length as int
    };
    if r.render_offset as int + r.render_limit as int <= cap {
        r.render_offset as int + r.render_limit as int
    } else {
        cap
    }
}

/// The rows of `data` inside the rendered window, in order. With no
/// content — `content_length` 0 — the result is empty whatever `data`
/// holds.
pub fn get_virtualized<T: Clone>(r: &UseVirtualScrollResult, data: &Vec<T>) -> (out: Vec<T>)
    ensures
        out@.len() == spec_render_end(*r, data@.len() as int) - spec_render_start(
            *r,
            data@.len() as int,
        ),
        forall|i: int|
            0 <= i < out@.len() ==> vstd::pervasive::cloned::<T>(
                data@[spec_render_start(*r, data@.len() as int) + i],
                #[trigger] out@[i],
            ),
        r.content_length == 0 ==> out@.len() == 0,
{
    let cap = if data.len() <= r.content_length {
        data.len()
    } else {
        r.content_length
    };
    let end = if r.render_limit <= cap && r.render_offset <= cap - r.render_limit {
        r.render_offset + r.render_limit
    } else {
        cap
    };
    let start = if r.render_offset <= end {
        r.render_offset
    } else {
        end
    };
    let mut out: Vec<T> = Vec::new();
    let mut i: usize = start;
    while i < end
        invariant
            start <= i <= end,
            end <= data@.len(),
            out@.len() == i - start,
            start as int == spec_render_start(*r, data@.len() as int),
            end as int == spec_render_end(*r, data@.len() as int),
            forall|w: int|
                0 <= w < out@.len() ==> vstd::pervasive::cloned::<T>(
                    data@[start + w],
                    #[trigger] out@[w],
                ),
        decreases end - i,
    {
        out.push(data[i].clone());
        i = i + 1;
    }
    out
}

/// A row of the rendered window together with its index in the full list.
pub struct VirtualizedDataWithIndex<T> {
    /// The row itself.
    pub get: T,
    /// Its index in the list the window was cut from.
    pub data_index: usize,
}

/// Like `get_virtualized`, each row paired with its index in `data`.
pub fn get_virtualized_with_index<T: Clone>(r: &UseVirtualScrollResult, data: &Vec<T>) -> (out: Vec<
    VirtualizedDataWithIndex<T>,
>)
    ensures
        out@.len() == spec_render_end(*r, data@.len() as int) - spec_render_start(
            *r,
            data@.len() as int,
        ),
        forall|i: int|
            0 <= i < out@.len() ==> vstd::pervasive::cloned::<T>(
                data@[spec_render_start(*r, data@.len() as int) + i],
                #[trigger] out@[i].get,
            ),
        forall|i: int|
            0 <= i < out@.len() ==> #[trigger] out@[i].data_index as int == spec_render_start(
                *r,
                data@.len() as int,
            ) + i,
        r.content_length == 0 ==> out@.len() == 0,
{
    let cap = if data.len() <= r.content_length {
        data.len()
    } else {
        r.content_length
    };
    let end = if r.render_limit <= cap && r.render_offset <= cap - r.render_limit {
        r.render_offset + r.render_limit
    } else {
        cap
    };
    let start = if r.render_offset <= end {
        r.render_offset
    } else {
        end
    };
    let mut out: Vec<VirtualizedDataWithIndex<T>> = Vec::new();
    let mut i: usize = start;
    while i < end
        invariant
            start <= i <= end,
            end <= data@.len(),
            out@.len() == i - start,
            start as int == spec_render_start(*r, data@.len() as int),
            end as int == spec_render_end(*r, data@.len() as int),
            forall|w: int|
                0 <= w < out@.len() ==> vstd::pervasive::cloned::<T>(
                    data@[start + w],
                    #[trigger] out@[w].get,
                ),
            forall|w: int| 0 <= w < out@.len() ==> #[trigger] out@[w].data_index as int == start + w,
        decreases end - i,
    {
        out.push(VirtualizedDataWithIndex { get: data[i].clone(), data_index: i });
        i = i + 1;
    }
    out
}

} // verus!
