//! A timed sequence of glyph grids that share one geometry, with lookup by
//! index and by elapsed time.

use vstd::prelude::*;
use crate::grid::GlyphGrid;
use crate::layout::{CellAspect, LayoutPolicy, TargetGeometry};

verus! {

/// One grid and the time for which it is shown, in nanoseconds.
#[derive(Clone, Debug)]
pub struct GlyphGridFrame {
    pub grid: GlyphGrid,
    pub duration: u64,
}

/// The sum of the first `count` durations.
pub open spec fn span(durations: Seq<u64>, count: int) -> int
    decreases count,
{
    if count <= 0 {
        0
    } else {
        span(durations, count - 1) + durations[count - 1]
    }
}

/// The animation never leaves its first frame: there is at most one frame,
/// or no frame takes any time.
pub open spec fn is_still(durations: Seq<u64>) -> bool {
    durations.len() <= 1 || span(durations, durations.len() as int) == 0
}

/// The elapsed time reduced to one loop of the animation: zero where the
/// animation is still, else the remainder of the elapsed time by the sum of
/// all durations.
pub open spec fn normalized(durations: Seq<u64>, elapsed: int) -> int {
    if is_still(durations) {
        0
    } else {
        elapsed % span(durations, durations.len() as int)
    }
}

/// `time` falls inside the span of frame `index`: at or after the end of
/// the frames before it and before its own end. A frame of no duration has an
/// empty span.
pub open spec fn is_frame_at(durations: Seq<u64>, time: int, index: int) -> bool {
    &&& 0 <= index < durations.len()
    &&& span(durations, index) <= time < span(durations, index + 1)
}

/// The index of the frame shown after `elapsed` nanoseconds, looping: none
/// where there is no frame, the first frame where the animation is still,
/// else the frame whose span holds the time within the loop.
pub open spec fn frame_index_spec(durations: Seq<u64>, elapsed: int) -> Option<int> {
    if durations.len() == 0 {
        None
    } else if is_still(durations) {
        Some(0)
    } else {
        Some(choose|index: int| is_frame_at(durations, normalized(durations, elapsed), index))
    }
}

/// Whether the grids of all frames have the given size.
pub open spec fn all_sized(frames: Seq<GlyphGridFrame>, columns: u16, rows: u16) -> bool {
    forall|i: int|
        0 <= i < frames.len() ==> (#[trigger] frames[i]).grid.width == columns
            && frames[i].grid.height == rows
}

/// The durations of a sequence of frames.
pub open spec fn durations_of(frames: Seq<GlyphGridFrame>) -> Seq<u64> {
    Seq::new(frames.len(), |i: int| frames[i].duration)
}

/// The geometry that a series without one takes from its first grid: the
/// grid's size, with the ratio of rows to columns as the cell aspect, or the
/// ratio one where the grid has no columns.
pub open spec fn geometry_of_grid(grid: GlyphGrid) -> TargetGeometry {
    TargetGeometry {
        columns: grid.width,
        rows: grid.height,
        cell_aspect: if grid.width == 0 {
            CellAspect { numerator: 1, denominator: 1 }
        } else {
            CellAspect { numerator: grid.height as u32, denominator: grid.width as u32 }
        },
    }
}

/// Whether two geometries have the same size and stand for the same cell
/// aspect.
pub open spec fn same_geometry(left: TargetGeometry, right: TargetGeometry) -> bool {
    left.columns == right.columns && left.rows == right.rows && left.cell_aspect.same_ratio(
        &right.cell_aspect,
    )
}

/// An animation: frames of one geometry, each with its duration.
#[derive(Clone, Debug)]
pub struct GlyphGridSeries {
    frames: Vec<GlyphGridFrame>,
    total_duration: u128,
    geometry: Option<TargetGeometry>,
}

impl View for GlyphGridSeries {
    type V = Seq<GlyphGridFrame>;

    closed spec fn view(&self) -> Seq<GlyphGridFrame> {
        self.frames@
    }
}

impl Default for GlyphGridSeries {
    fn default() -> (out: Self)
        ensures
            out@.len() == 0,
            out.declared() is None,
            out.wf(),
    {
        GlyphGridSeries { frames: Vec::new(), total_duration: 0, geometry: None }
    }
}

impl GlyphGridSeries {
    /// The geometry that the series declares, if any.
    pub closed spec fn declared(&self) -> Option<TargetGeometry> {
        self.geometry
    }

    /// The sum of the durations that the series keeps.
    pub closed spec fn total(&self) -> int {
        self.total_duration as int
    }

    /// The durations of the frames, in order.
    pub open spec fn durations(&self) -> Seq<u64> {
        durations_of(self@)
    }

    /// Every grid is well formed and has the size of the declared geometry, a
    /// series with frames declares a geometry, and the kept sum is the sum of
    /// the durations.
    pub open spec fn wf(&self) -> bool {
        &&& forall|i: int| 0 <= i < self@.len() ==> (#[trigger] self@[i]).grid.wf()
        &&& self@.len() > 0 ==> self.declared() is Some
        &&& self.declared() is Some ==> all_sized(
            self@,
            self.declared()->0.columns,
            self.declared()->0.rows,
        )
        &&& self.total() == span(self.durations(), self@.len() as int)
    }

    /// The empty series, without a geometry.
    pub fn new() -> (out: Self)
        ensures
            out@.len() == 0,
            out.declared() is None,
            out.wf(),
    {
        GlyphGridSeries { frames: Vec::new(), total_duration: 0, geometry: None }
    }

    pub fn is_empty(&self) -> (out: bool)
        ensures
            out == (self@.len() == 0),
    {
        self.frames.len() == 0
    }

    pub fn len(&self) -> (out: usize)
        ensures
            out == self@.len(),
    {
        self.frames.len()
    }

    pub fn geometry(&self) -> (out: Option<TargetGeometry>)
        ensures
            out == self.declared(),
    {
        self.geometry
    }

    /// Declares `geometry`. Frames of another size are discarded: a series is
    /// rebuilt when its geometry changes.
    pub fn set_geometry(&mut self, geometry: TargetGeometry)
        requires
            old(self).wf(),
        ensures
            final(self).wf(),
            final(self).declared() == Some(geometry),
            final(self)@ == if all_sized(old(self)@, geometry.columns, geometry.rows) {
                old(self)@
            } else {
                Seq::empty()
            },
    {
        let keep = match self.geometry {
            Some(current) => current.columns == geometry.columns && current.rows == geometry.rows,
            None => true,
        };
        if !keep {
            proof {
                if self@.len() > 0 {
                    assert(self@[0].grid.width == self.declared()->0.columns);
                }
            }
            if self.frames.len() > 0 {
                self.clear();
            }
        }
        self.geometry = Some(geometry);
    }

    /// Discards the frames and keeps the geometry.
    pub fn clear(&mut self)
        ensures
            final(self)@.len() == 0,
            final(self).declared() == old(self).declared(),
            final(self).total() == 0,
            final(self).wf(),
    {
        self.frames.clear();
        self.total_duration = 0;
    }

    /// Appends a frame. A series without a geometry takes it from the grid.
    pub fn push_frame(&mut self, frame: GlyphGridFrame)
        requires
            old(self).wf(),
            frame.grid.wf(),
            old(self).declared() is Some ==> old(self).declared()->0.columns == frame.grid.width
                && old(self).declared()->0.rows == frame.grid.height,
        ensures
            final(self).wf(),
            final(self)@ == old(self)@.push(frame),
            final(self).declared() == if old(self).declared() is Some {
                old(self).declared()
            } else {
                Some(geometry_of_grid(frame.grid))
            },
            final(self).total() == old(self).total() + frame.duration,
    {
        if self.geometry.is_none() {
            let columns = frame.grid.width;
            let rows = frame.grid.height;
            let cell_aspect = if columns == 0 {
                CellAspect::square()
            } else {
                CellAspect::new(rows as u32, columns as u32)
            };
            self.geometry = Some(TargetGeometry { columns, rows, cell_aspect });
        }
        proof {
            lemma_span_bound(self.durations(), self@.len() as int);
            lemma_span_push(self@, frame);
        }
        let count = self.frames.len();
        assert(count * 0xffff_ffff_ffff_ffff <= usize::MAX * 0xffff_ffff_ffff_ffff) by (nonlinear_arith)
            requires
                count <= usize::MAX,
        ;
        self.total_duration = self.total_duration + frame.duration as u128;
        self.frames.push(frame);
    }

    /// Replaces the frames by `frame_count` grids that `builder` makes for the
    /// declared geometry, each shown for `frame_duration`. Without a geometry,
    /// or with one that has no cells, the series is left empty.
    pub fn rebuild_from<F>(&mut self, frame_count: usize, frame_duration: u64, builder: F) where
        F: Fn(usize, TargetGeometry) -> GlyphGrid,

        requires
            old(self).wf(),
            forall|index: usize, geometry: TargetGeometry|
                index < frame_count && old(self).declared() == Some(geometry)
                    ==> #[trigger] builder.requires((index, geometry)),
            forall|index: usize, geometry: TargetGeometry, grid: GlyphGrid|
                #[trigger] builder.ensures((index, geometry), grid) ==> grid.wf() && grid.width
                    == geometry.columns && grid.height == geometry.rows,
        ensures
            final(self).wf(),
            final(self).declared() == old(self).declared(),
            final(self)@.len() == if old(self).declared() is Some && old(
                self,
            ).declared()->0.columns > 0 && old(self).declared()->0.rows > 0 {
                frame_count as int
            } else {
                0
            },
            forall|i: int|
                0 <= i < final(self)@.len() ==> (#[trigger] final(self)@[i]).duration
                    == frame_duration && builder.ensures(
                    (i as usize, old(self).declared()->0),
                    final(self)@[i].grid,
                ),
            final(self).total() == final(self)@.len() * frame_duration,
    {
        self.clear();
        if frame_count == 0 {
            return;
        }
        let geometry = match self.geometry {
            Some(geometry) => geometry,
            None => {
                return;
            },
        };
        if geometry.columns == 0 || geometry.rows == 0 {
            return;
        }
        let mut index: usize = 0;
        while index < frame_count
            invariant
                self.wf(),
                self.declared() == Some(geometry),
                index <= frame_count,
                self@.len() == index,
                self.total() == index * frame_duration,
                forall|i: usize, g: TargetGeometry|
                    i < frame_count && self.declared() == Some(g) ==> #[trigger] builder.requires(
                        (i, g),
                    ),
                forall|i: usize, g: TargetGeometry, grid: GlyphGrid|
                    #[trigger] builder.ensures((i, g), grid) ==> grid.wf() && grid.width
                        == g.columns && grid.height == g.rows,
                forall|i: int|
                    0 <= i < index ==> (#[trigger] self@[i]).duration == frame_duration
                        && builder.ensures((i as usize, geometry), self@[i].grid),
            decreases frame_count - index,
        {
            let grid = builder(index, geometry);
            let frame = GlyphGridFrame { grid, duration: frame_duration };
            let ghost before = self@;
            self.push_frame(frame);
            assert((index + 1) * frame_duration == index * frame_duration + frame_duration)
                by (nonlinear_arith);
            assert forall|i: int| 0 <= i < index + 1 implies (#[trigger] self@[i]).duration
                == frame_duration && builder.ensures((i as usize, geometry), self@[i].grid) by {
                if i < index {
                    assert(self@[i] == before[i]);
                }
            }
            index += 1;
        }
    }

    /// The sum of the durations of all frames.
    pub fn total_duration(&self) -> (out: u128)
        requires
            self.wf(),
        ensures
            out == span(self.durations(), self@.len() as int),
    {
        if self.frames.len() == 0 {
            0
        } else {
            self.total_duration
        }
    }

    /// The elapsed time reduced to one loop of the animation.
    pub fn normalize_elapsed(&self, elapsed: u128) -> (out: u128)
        requires
            self.wf(),
        ensures
            out == normalized(self.durations(), elapsed as int),
    {
        if self.frames.len() <= 1 {
            return 0;
        }
        let total = self.total_duration();
        if total == 0 {
            return 0;
        }
        elapsed % total
    }

    /// The index of the frame shown after `elapsed` nanoseconds, looping:
    /// none where there is no frame, the first frame where there is only one
    /// or no frame takes any time, else the frame whose span holds the time.
    pub fn frame_index_at(&self, elapsed: u128) -> (out: Option<usize>)
        requires
            self.wf(),
        ensures
            out is Some <==> self@.len() > 0,
            out is Some ==> frame_index_spec(self.durations(), elapsed as int) == Some(
                out->0 as int,
            ),
            out is None ==> frame_index_spec(self.durations(), elapsed as int) is None,
            out is Some && is_still(self.durations()) ==> out->0 == 0,
            out is Some && !is_still(self.durations()) ==> is_frame_at(
                self.durations(),
                normalized(self.durations(), elapsed as int),
                out->0 as int,
            ),
    {
        let count = self.frames.len();
        if count == 0 {
            return None;
        }
        if count == 1 {
            return Some(0);
        }
        let total = self.total_duration();
        if total == 0 {
            return Some(0);
        }
        let ghost durations = self.durations();
        let ghost time = normalized(durations, elapsed as int);
        let mut remaining: u128 = elapsed % total;
        let mut index: usize = 0;
        while index < count
            invariant
                self.wf(),
                count == self@.len(),
                durations == self.durations(),
                !is_still(durations),
                time == normalized(durations, elapsed as int),
                time < span(durations, count as int),
                index <= count,
                remaining == time - span(durations, index as int),
            decreases count - index,
        {
            let duration = self.frames[index].duration;
            assert(durations[index as int] == duration);
            assert(span(durations, index + 1) == span(durations, index as int) + duration);
            if remaining < duration as u128 {
                proof {
                    lemma_frame_at_unique(durations, elapsed as int, index as int);
                }
                return Some(index);
            }
            remaining = remaining - duration as u128;
            index += 1;
        }
        // The time lies before the end of the last frame, so the walk has
        // returned by now.
        assert(false);
        Some(count - 1)
    }

    /// The grid shown after `elapsed` nanoseconds, looping.
    pub fn frame_at(&self, elapsed: u128) -> (out: Option<&GlyphGrid>)
        requires
            self.wf(),
        ensures
            out is Some <==> self@.len() > 0,
            out is Some ==> frame_index_spec(self.durations(), elapsed as int) is Some && *out->0
                == self@[frame_index_spec(self.durations(), elapsed as int)->0].grid,
            out is Some ==> out->0.wf(),
    {
        match self.frame_index_at(elapsed) {
            Some(index) => Some(&self.frames[index].grid),
            None => None,
        }
    }

    /// The grid of frame `index`, or nothing where there is no such frame.
    pub fn frame(&self, index: usize) -> (out: Option<&GlyphGrid>)
        requires
            self.wf(),
        ensures
            out is Some <==> index < self@.len(),
            out is Some ==> *out->0 == self@[index as int].grid && out->0.wf(),
    {
        if index < self.frames.len() {
            Some(&self.frames[index].grid)
        } else {
            None
        }
    }

    /// Derives the geometry for a source of the given size and declares it
    /// unless the series already declares the same. Returns the declared
    /// geometry, or nothing, with the series unchanged, where none can be
    /// derived.
    pub fn update_geometry_from_layout(
        &mut self,
        layout: LayoutPolicy,
        source_width: u32,
        source_height: u32,
        default_aspect: CellAspect,
    ) -> (out: Option<TargetGeometry>)
        requires
            old(self).wf(),
            layout.wf(),
            default_aspect.is_positive(),
        ensures
            final(self).wf(),
            match layout.derive_spec(source_width, source_height, default_aspect) {
                None => out is None && final(self)@ == old(self)@ && final(self).declared() == old(
                    self,
                ).declared(),
                Some(derived) => {
                    &&& out == final(self).declared()
                    &&& out == if old(self).declared() is Some && same_geometry(
                        old(self).declared()->0,
                        derived,
                    ) {
                        old(self).declared()
                    } else {
                        Some(derived)
                    }
                    &&& final(self)@ == if all_sized(old(self)@, derived.columns, derived.rows) {
                        old(self)@
                    } else {
                        Seq::empty()
                    }
                },
            },
    {
        let geometry = match layout.derive(source_width, source_height, default_aspect) {
            Some(geometry) => geometry,
            None => {
                return None;
            },
        };
        let changed = match self.geometry {
            Some(current) => !(current.columns == geometry.columns && current.rows == geometry.rows
                && current.cell_aspect.equals(&geometry.cell_aspect)),
            None => true,
        };
        if changed {
            self.set_geometry(geometry);
        }
        self.geometry
    }
}

/// The sum of durations is never negative and grows with the count by less
/// than two to the sixty-fourth each.
pub proof fn lemma_span_bound(durations: Seq<u64>, count: int)
    requires
        0 <= count <= durations.len(),
    ensures
        0 <= span(durations, count) <= count * 0xffff_ffff_ffff_ffff,
    decreases count,
{
    if count > 0 {
        lemma_span_bound(durations, count - 1);
        assert(count * 0xffff_ffff_ffff_ffff == (count - 1) * 0xffff_ffff_ffff_ffff
            + 0xffff_ffff_ffff_ffff) by (nonlinear_arith);
    }
}

/// The sums of two sequences that agree on their first `count` items agree.
pub proof fn lemma_span_prefix(left: Seq<u64>, right: Seq<u64>, count: int)
    requires
        0 <= count <= left.len(),
        count <= right.len(),
        forall|i: int| 0 <= i < count ==> left[i] == right[i],
    ensures
        span(left, count) == span(right, count),
    decreases count,
{
    if count > 0 {
        lemma_span_prefix(left, right, count - 1);
    }
}

/// Appending a frame adds its duration to the sum.
proof fn lemma_span_push(frames: Seq<GlyphGridFrame>, frame: GlyphGridFrame)
    ensures
        span(durations_of(frames.push(frame)), frames.len() as int + 1) == span(
            durations_of(frames),
            frames.len() as int,
        ) + frame.duration,
{
    let longer = durations_of(frames.push(frame));
    lemma_span_prefix(longer, durations_of(frames), frames.len() as int);
    assert(longer[frames.len() as int] == frame.duration);
}

/// The sum of durations grows with the count.
pub proof fn lemma_span_monotonic(durations: Seq<u64>, low: int, high: int)
    requires
        0 <= low <= high <= durations.len(),
    ensures
        span(durations, low) <= span(durations, high),
    decreases high - low,
{
    if low < high {
        lemma_span_monotonic(durations, low, high - 1);
    }
}

/// At most one frame's span holds a given time, so the frame that satisfies
/// [`is_frame_at`] is the one that [`frame_index_spec`] names.
pub proof fn lemma_frame_at_unique(durations: Seq<u64>, elapsed: int, index: int)
    requires
        !is_still(durations),
        is_frame_at(durations, normalized(durations, elapsed), index),
    ensures
        forall|other: int|
            is_frame_at(durations, normalized(durations, elapsed), other) ==> other == index,
        frame_index_spec(durations, elapsed) == Some(index),
{
    let time = normalized(durations, elapsed);
    assert forall|other: int| is_frame_at(durations, time, other) implies other == index by {
        if other < index {
            lemma_span_monotonic(durations, other + 1, index);
        } else if index < other {
            lemma_span_monotonic(durations, index + 1, other);
        }
    }
}

/// Within one loop some frame's span holds the time: zero-duration frames
/// are passed over, and the time lies before the end of the last frame.
pub proof fn lemma_frame_at_exists(durations: Seq<u64>, time: int, upto: int)
    requires
        0 <= upto <= durations.len(),
        0 <= time < span(durations, upto),
    ensures
        exists|index: int| 0 <= index < upto && is_frame_at(durations, time, index),
    decreases upto,
{
    if time >= span(durations, upto - 1) {
        assert(is_frame_at(durations, time, upto - 1));
    } else {
        lemma_frame_at_exists(durations, time, upto - 1);
    }
}

/// A series of one frame shows that frame at every time.
pub proof fn lemma_single_frame_index(durations: Seq<u64>, elapsed: int)
    requires
        durations.len() == 1,
    ensures
        frame_index_spec(durations, elapsed) == Some(0int),
{
}

/// Lookup by time never stops at a frame of no duration while another frame
/// takes time.
pub proof fn lemma_zero_duration_frames_are_skipped(durations: Seq<u64>, elapsed: int)
    requires
        !is_still(durations),
    ensures
        frame_index_spec(durations, elapsed) is Some,
        0 <= frame_index_spec(durations, elapsed)->0 < durations.len(),
        durations[frame_index_spec(durations, elapsed)->0] > 0,
{
    let total = span(durations, durations.len() as int);
    lemma_span_bound(durations, durations.len() as int);
    let time = normalized(durations, elapsed);
    vstd::arithmetic::div_mod::lemma_mod_bound(elapsed, total);
    lemma_frame_at_exists(durations, time, durations.len() as int);
    let index = choose|index: int| is_frame_at(durations, time, index);
    assert(span(durations, index + 1) == span(durations, index) + durations[index]);
}

/// The sum of `count` equal durations.
pub proof fn lemma_span_of_equal(durations: Seq<u64>, duration: u64, count: int)
    requires
        0 <= count <= durations.len(),
        forall|i: int| 0 <= i < durations.len() ==> durations[i] == duration,
    ensures
        span(durations, count) == count * duration,
    decreases count,
{
    if count > 0 {
        lemma_span_of_equal(durations, duration, count - 1);
        assert(count * duration == (count - 1) * duration + duration) by (nonlinear_arith);
    } else {
        assert(count * duration == 0) by (nonlinear_arith)
            requires
                count == 0,
        ;
    }
}

/// With frames of one nonzero duration, the frame shown is the quotient of
/// the time within the loop by that duration.
pub proof fn lemma_equal_durations_index(durations: Seq<u64>, duration: u64, elapsed: int)
    requires
        durations.len() > 0,
        duration > 0,
        elapsed >= 0,
        forall|i: int| 0 <= i < durations.len() ==> durations[i] == duration,
    ensures
        frame_index_spec(durations, elapsed) == Some(
            (elapsed % (durations.len() * duration)) / (duration as int),
        ),
{
    let count = durations.len() as int;
    let d = duration as int;
    let period = count * d;
    lemma_span_of_equal(durations, duration, count);
    assert(period >= d) by (nonlinear_arith)
        requires
            count >= 1,
            d > 0,
            period == count * d,
    ;
    let time = elapsed % period;
    vstd::arithmetic::div_mod::lemma_mod_bound(elapsed, period);
    let index = time / d;
    vstd::arithmetic::div_mod::lemma_fundamental_div_mod(time, d);
    vstd::arithmetic::div_mod::lemma_mod_bound(time, d);
    assert(0 <= index < count) by (nonlinear_arith)
        requires
            0 <= time < count * d,
            d > 0,
            time == d * index + time % d,
            0 <= time % d < d,
    ;
    if count == 1 {
        lemma_single_frame_index(durations, elapsed);
        assert(index == 0);
    } else {
        assert(period > 0);
        assert(!is_still(durations));
        assert(normalized(durations, elapsed) == time);
        lemma_span_of_equal(durations, duration, index);
        lemma_span_of_equal(durations, duration, index + 1);
        assert(index * d <= time < (index + 1) * d) by (nonlinear_arith)
            requires
                time == d * index + time % d,
                0 <= time % d < d,
        ;
        assert(is_frame_at(durations, time, index));
        lemma_frame_at_unique(durations, elapsed, index);
    }
}

/// With `N` frames of one nonzero duration `D`, lookup by time loops with the
/// period `N` times `D`.
pub proof fn lemma_frame_index_is_periodic(durations: Seq<u64>, duration: u64, elapsed: int)
    requires
        durations.len() > 0,
        duration > 0,
        elapsed >= 0,
        forall|i: int| 0 <= i < durations.len() ==> durations[i] == duration,
    ensures
        frame_index_spec(durations, elapsed) == frame_index_spec(
            durations,
            elapsed + durations.len() * duration,
        ),
{
    let period = durations.len() * duration;
    assert(period > 0) by (nonlinear_arith)
        requires
            durations.len() >= 1,
            duration > 0,
            period == durations.len() * duration,
    ;
    lemma_equal_durations_index(durations, duration, elapsed);
    lemma_equal_durations_index(durations, duration, elapsed + period);
    vstd::arithmetic::div_mod::lemma_mod_add_multiples_vanish(elapsed, period);
}

} // verus!
