//! Integer bookkeeping of the waterfall display.
//!
//! The waterfall keeps its spectrum lines in a texture used as a ring of
//! [`TEXTURE_HEIGHT`] lines: each new spectrum overwrites the line after the
//! previous one, and each render uploads to the GPU the lines written since
//! the previous render. The frequency scale is drawn with element arrays:
//! each frequency label as a quad of four vertices (two triangles), and each
//! frequency tick as a line between two vertices, indexed with `u16`.

use vstd::prelude::*;

verus! {

/// Vertex of the label quad used by the `k`-th index of the label's two
/// triangles (`0, 1, 2` and `1, 2, 3`).
pub open spec fn label_corner(k: int) -> int {
    if k == 0 {
        0
    } else if k == 1 || k == 3 {
        1
    } else if k == 2 || k == 4 {
        2
    } else {
        3
    }
}

/// Element indices of `num_labels` frequency labels: for the label `j`, the
/// triangles `4j, 4j + 1, 4j + 2` and `4j + 1, 4j + 2, 4j + 3`.
///
/// All the vertices must be indexable by a `u16`.
pub fn frequency_label_indices(num_labels: usize) -> (r: Vec<u16>)
    requires
        4 * num_labels <= 0x10000,
    ensures
        r.len() == 6 * num_labels,
        forall|i: int| 0 <= i < r.len() ==> #[trigger] r@[i] == 4 * (i / 6) + label_corner(i % 6),
{
    let mut out: Vec<u16> = Vec::new();
    let mut j: usize = 0;
    while j < num_labels
        invariant
            4 * num_labels <= 0x10000,
            j <= num_labels,
            out.len() == 6 * j,
            forall|i: int| 0 <= i < out.len() ==> #[trigger] out@[i] == 4 * (i / 6) + label_corner(i % 6),
        decreases num_labels - j,
    {
        let a: u16 = (4 * j) as u16;
        assert(a == 4 * j);
        let ghost before = out@;
        out.push(a);
        out.push(a + 1);
        out.push(a + 2);
        out.push(a + 1);
        out.push(a + 2);
        out.push(a + 3);
        assert forall|i: int| 0 <= i < out.len() implies #[trigger] out@[i] == 4 * (i / 6) + label_corner(i % 6) by {
            if i < 6 * j {
                assert(out@[i] == before[i]);
            } else {
                let k = i - 6 * j;
                assert(0 <= k < 6);
                assert(i / 6 == j && i % 6 == k) by {
                    vstd::arithmetic::div_mod::lemma_fundamental_div_mod_converse(i, 6, j as int, k);
                }
            }
        }
        j = j + 1;
    }
    out
}

/// Element indices of the frequency ticks: the indices `0, 1, ...` up to
/// `num_indices`, each cut to a `u16`.
pub fn frequency_tick_indices(num_indices: usize) -> (r: Vec<u16>)
    ensures
        r.len() == num_indices,
        forall|i: int| 0 <= i < r.len() ==> #[trigger] r@[i] == i as u16,
{
    let mut out: Vec<u16> = Vec::new();
    let mut i: usize = 0;
    while i < num_indices
        invariant
            i <= num_indices,
            out.len() == i,
            forall|k: int| 0 <= k < out.len() ==> #[trigger] out@[k] == k as u16,
        decreases num_indices - i,
    {
        out.push(i as u16);
        i = i + 1;
    }
    out
}

/// Number of spectrum lines held in the waterfall texture.
pub const TEXTURE_HEIGHT: usize = 512;

/// Number of frequency bins of each spectrum line of the waterfall texture.
pub const TEXTURE_WIDTH: usize = 4096;

/// A run of consecutive lines of the waterfall texture.
#[derive(Debug, Copy, Clone, PartialEq, Eq, Hash, Structural)]
pub struct LineRange {
    /// First line.
    pub start: usize,
    /// Number of lines.
    pub lines: usize,
}

/// Lines of the waterfall texture to upload at a render: first the lines at
/// the end of the texture that the drawing passed before wrapping around,
/// then the lines up to the last one written.
#[derive(Debug, Copy, Clone, PartialEq, Eq, Hash, Structural)]
pub struct LineUploads {
    /// Lines after the last uploaded one, up to the end of the texture, when
    /// the drawing wrapped around and there are any.
    pub tail: Option<LineRange>,
    /// Lines from the first one not uploaded (or the first line of the
    /// texture, after wrapping around) to the last one written, if any.
    pub head: Option<LineRange>,
}

/// The lines of a range, in order.
pub open spec fn range_lines(r: Option<LineRange>) -> Seq<int> {
    match r {
        Some(r) => Seq::new(r.lines as nat, |i: int| r.start + i),
        None => Seq::empty(),
    }
}

/// The lines that a render uploads, in order.
pub open spec fn uploaded_lines(u: LineUploads) -> Seq<int> {
    range_lines(u.tail) + range_lines(u.head)
}

/// The lines that come after line `last` up to line `current` around the ring
/// of texture lines, in order.
pub open spec fn lines_between(last: int, current: int) -> Seq<int> {
    Seq::new(((current - last) % (TEXTURE_HEIGHT as int)) as nat, |i: int| (last + 1 + i) % (TEXTURE_HEIGHT as int))
}

/// Where the waterfall draws spectrum lines, and which lines the GPU has.
#[derive(Debug)]
pub struct WaterfallLines {
    current_draw_line: usize,
    last_draw_line: usize,
    waterfall_wraps: usize,
}

impl WaterfallLines {
    /// Line that holds the last spectrum written.
    pub closed spec fn current(&self) -> int {
        self.current_draw_line as int
    }

    /// Last line uploaded to the GPU.
    pub closed spec fn last(&self) -> int {
        self.last_draw_line as int
    }

    /// Number of renders at which the drawing had wrapped around the texture.
    pub closed spec fn wraps(&self) -> int {
        self.waterfall_wraps as int
    }

    /// Both lines are lines of the texture.
    pub open spec fn wf(&self) -> bool {
        &&& 0 <= self.current() < TEXTURE_HEIGHT
        &&& 0 <= self.last() < TEXTURE_HEIGHT
    }

    /// A waterfall whose whole texture was just loaded: the next spectrum goes
    /// to the first line.
    pub fn new() -> (r: WaterfallLines)
        ensures
            r.wf(),
            r.current() == TEXTURE_HEIGHT - 1,
            r.last() == 0,
            r.wraps() == 0,
    {
        WaterfallLines { current_draw_line: TEXTURE_HEIGHT - 1, last_draw_line: 0, waterfall_wraps: 0 }
    }

    /// Moves to the line where a new spectrum is written, the one after the
    /// current line around the ring, and returns it.
    pub fn put_line(&mut self) -> (r: usize)
        requires
            old(self).wf(),
        ensures
            final(self).wf(),
            r == final(self).current(),
            final(self).current() == (old(self).current() + 1) % (TEXTURE_HEIGHT as int),
            final(self).last() == old(self).last(),
            final(self).wraps() == old(self).wraps(),
    {
        self.current_draw_line = (self.current_draw_line + 1) % TEXTURE_HEIGHT;
        self.current_draw_line
    }

    /// Gives the lines to upload at a render, and records that the GPU has
    /// every line up to the current one.
    pub fn render_uploads(&mut self) -> (r: LineUploads)
        requires
            old(self).wf(),
            old(self).wraps() < usize::MAX,
        ensures
            final(self).wf(),
            final(self).current() == old(self).current(),
            final(self).last() == old(self).current(),
            final(self).wraps() == old(self).wraps() + (if old(self).current() < old(self).last() { 1int } else { 0 }),
            uploaded_lines(r) == lines_between(old(self).last(), old(self).current()),
            r.tail matches Some(t) ==> t.lines > 0 && t.start + t.lines == TEXTURE_HEIGHT,
            r.head matches Some(h) ==> h.lines > 0 && h.start + h.lines <= TEXTURE_HEIGHT,
    {
        let end_draw = self.current_draw_line;
        let last = self.last_draw_line;
        let ghost h = TEXTURE_HEIGHT as int;
        let mut tail: Option<LineRange> = None;
        let start_draw = if end_draw < last {
            let start_wrap = last + 1;
            if start_wrap != TEXTURE_HEIGHT {
                tail = Some(LineRange { start: start_wrap, lines: TEXTURE_HEIGHT - start_wrap });
            }
            self.waterfall_wraps = self.waterfall_wraps + 1;
            0
        } else {
            last + 1
        };
        let head = if start_draw != end_draw + 1 {
            Some(LineRange { start: start_draw, lines: end_draw - start_draw + 1 })
        } else {
            None
        };
        self.last_draw_line = end_draw;
        let r = LineUploads { tail, head };
        proof {
            let expected = lines_between(last as int, end_draw as int);
            let got = uploaded_lines(r);
            if end_draw < last {
                assert((end_draw - last) % h == end_draw - last + h) by {
                    vstd::arithmetic::div_mod::lemma_fundamental_div_mod_converse(end_draw - last, h, -1, end_draw - last + h);
                }
                assert(got.len() == expected.len());
                assert forall|i: int| 0 <= i < got.len() implies got[i] == expected[i] by {
                    if i < h - last - 1 {
                        vstd::arithmetic::div_mod::lemma_small_mod((last + 1 + i) as nat, h as nat);
                    } else {
                        vstd::arithmetic::div_mod::lemma_fundamental_div_mod_converse(last + 1 + i, h, 1, last + 1 + i - h);
                    }
                }
            } else {
                assert((end_draw - last) % h == end_draw - last) by {
                    vstd::arithmetic::div_mod::lemma_small_mod((end_draw - last) as nat, h as nat);
                }
                assert(got.len() == expected.len());
                assert forall|i: int| 0 <= i < got.len() implies got[i] == expected[i] by {
                    vstd::arithmetic::div_mod::lemma_small_mod((last + 1 + i) as nat, h as nat);
                }
            }
            assert(got =~= expected);
        }
        r
    }
}

/// The line that the `i`-th spectrum (counting from 0) goes to, when the last
/// spectrum before it went to line `start`.
pub open spec fn nth_put_line(start: int, i: nat) -> int
    decreases i,
{
    if i == 0 {
        (start + 1) % (TEXTURE_HEIGHT as int)
    } else {
        (nth_put_line(start, (i - 1) as nat) + 1) % (TEXTURE_HEIGHT as int)
    }
}

proof fn lemma_nth_put_line(start: int, i: nat)
    requires
        0 <= start < TEXTURE_HEIGHT,
    ensures
        nth_put_line(start, i) == (start + 1 + i) % (TEXTURE_HEIGHT as int),
    decreases i,
{
    if i > 0 {
        lemma_nth_put_line(start, (i - 1) as nat);
        vstd::arithmetic::div_mod::lemma_add_mod_noop(start + i, 1, TEXTURE_HEIGHT as int);
        vstd::arithmetic::div_mod::lemma_small_mod(1, TEXTURE_HEIGHT as nat);
    }
}

/// After a render, writing `k` spectrum lines (fewer than the texture holds)
/// and rendering again uploads exactly the lines written, in the order in
/// which they were written.
pub proof fn lemma_render_uploads_lines_written(start: int, k: nat)
    requires
        0 <= start < TEXTURE_HEIGHT,
        1 <= k < TEXTURE_HEIGHT,
    ensures
        lines_between(start, nth_put_line(start, (k - 1) as nat)) == Seq::new(k, |i: int| nth_put_line(start, i as nat)),
{
    let h = TEXTURE_HEIGHT as int;
    let c = nth_put_line(start, (k - 1) as nat);
    lemma_nth_put_line(start, (k - 1) as nat);
    assert(c == (start + k) % h);
    assert((c - start) % h == k) by {
        if start + k < h {
            vstd::arithmetic::div_mod::lemma_small_mod((start + k) as nat, h as nat);
            vstd::arithmetic::div_mod::lemma_small_mod(k, h as nat);
        } else {
            vstd::arithmetic::div_mod::lemma_fundamental_div_mod_converse(start + k, h, 1, start + k - h);
            vstd::arithmetic::div_mod::lemma_fundamental_div_mod_converse(c - start, h, -1, k as int);
        }
    }
    assert forall|i: int| 0 <= i < k implies #[trigger] lines_between(start, c)[i] == nth_put_line(start, i as nat) by {
        lemma_nth_put_line(start, i as nat);
    }
    assert(lines_between(start, c) =~= Seq::new(k, |i: int| nth_put_line(start, i as nat)));
}

/// Number of levels of frequency ticks, each finer than the previous one.
pub const MAX_DEPTH: usize = 6;

/// Number of levels of frequency ticks that have labels.
pub const MAX_DEPTH_LABELS: usize = 4;

/// Whether level `d` of the frequency scale divides the tick step by five
/// (otherwise by two): the levels alternate, starting with `first_radix5`.
pub open spec fn radix5_at(first_radix5: bool, d: nat) -> bool {
    if d % 2 == 0 {
        first_radix5
    } else {
        !first_radix5
    }
}

/// Number of frequencies of the scale down to level `d`: each level that
/// divides the step by five adds four frequencies around each one, and each
/// level that divides it by two adds one after each, and one before the first
/// (when there is a first).
pub open spec fn freq_count(n0: nat, first_radix5: bool, d: nat) -> nat
    decreases d,
{
    if d == 0 {
        n0
    } else {
        let p = freq_count(n0, first_radix5, (d - 1) as nat);
        if radix5_at(first_radix5, (d - 1) as nat) {
            5 * p
        } else if p == 0 {
            0
        } else {
            2 * p + 1
        }
    }
}

proof fn lemma_freq_count_grows(n0: nat, first_radix5: bool, d: nat, e: nat)
    requires
        d <= e,
    ensures
        freq_count(n0, first_radix5, d) <= freq_count(n0, first_radix5, e),
    decreases e - d,
{
    if d < e {
        lemma_freq_count_grows(n0, first_radix5, d, (e - 1) as nat);
    }
}

/// Number of frequencies at each level of the frequency scale (from the `n0`
/// frequencies of the coarsest level, down to level [`MAX_DEPTH`]), and the
/// radix (5 or 2) by which each level divides the tick step.
pub fn frequency_counts(n0: usize, first_radix5: bool) -> (r: (Vec<usize>, Vec<u8>))
    requires
        freq_count(n0 as nat, first_radix5, MAX_DEPTH as nat) <= usize::MAX,
    ensures
        r.0.len() == MAX_DEPTH + 1,
        forall|d: int| 0 <= d <= MAX_DEPTH ==> #[trigger] r.0@[d] == freq_count(n0 as nat, first_radix5, d as nat),
        r.1.len() == MAX_DEPTH,
        forall|d: int| 0 <= d < MAX_DEPTH ==> #[trigger] r.1@[d] == if radix5_at(first_radix5, d as nat) {
            5u8
        } else {
            2u8
        },
{
    let mut counts: Vec<usize> = Vec::new();
    let mut radixes: Vec<u8> = Vec::new();
    let mut n = n0;
    let mut radix5 = first_radix5;
    counts.push(n);
    let mut depth: usize = 0;
    while depth < MAX_DEPTH
        invariant
            freq_count(n0 as nat, first_radix5, MAX_DEPTH as nat) <= usize::MAX,
            depth <= MAX_DEPTH,
            n == freq_count(n0 as nat, first_radix5, depth as nat),
            radix5 == radix5_at(first_radix5, depth as nat),
            counts.len() == depth + 1,
            radixes.len() == depth,
            forall|d: int| 0 <= d <= depth ==> #[trigger] counts@[d] == freq_count(n0 as nat, first_radix5, d as nat),
            forall|d: int| 0 <= d < depth ==> #[trigger] radixes@[d] == if radix5_at(first_radix5, d as nat) {
                5u8
            } else {
                2u8
            },
        decreases MAX_DEPTH - depth,
    {
        proof {
            lemma_freq_count_grows(n0 as nat, first_radix5, (depth + 1) as nat, MAX_DEPTH as nat);
        }
        if radix5 {
            n = 5 * n;
            radixes.push(5);
        } else {
            if n > 0 {
                n = 2 * n + 1;
            }
            radixes.push(2);
        }
        counts.push(n);
        radix5 = !radix5;
        depth = depth + 1;
    }
    (counts, radixes)
}

/// What is drawn at a zoom level: the number of label indices and of tick
/// indices, and where the major ticks end.
#[derive(Debug, Copy, Clone, PartialEq, Eq, Hash, Structural)]
pub struct ZoomCounts {
    /// Number of element indices of the labels drawn.
    pub label_indices: u32,
    /// Number of element indices of the ticks drawn.
    pub tick_indices: u32,
    /// Number of tick vertices that belong to major ticks.
    pub major_ticks_end: i32,
}

/// Level of the frequency scale whose ticks are drawn as major ticks at zoom
/// level `k`: the next one when level `k` divides the step by two.
pub open spec fn major_level(freq_radixes: Seq<u8>, k: int) -> int {
    if freq_radixes[k] == 2 {
        k + 1
    } else {
        k
    }
}

/// Counts of what is drawn at zoom level `k` (the finest level whose zoom is
/// reached): the labels of levels up to `k`, the ticks one level past the
/// major ticks, and the major ticks.
pub fn zoom_counts(k: usize, num_freqs: &[usize], freq_radixes: &[u8]) -> (r: ZoomCounts)
    requires
        k < freq_radixes.len(),
        k < num_freqs.len(),
        major_level(freq_radixes@, k as int) + 1 < num_freqs.len(),
        6 * num_freqs@[k as int] <= usize::MAX,
        2 * num_freqs@[major_level(freq_radixes@, k as int) + 1] <= usize::MAX,
        2 * num_freqs@[major_level(freq_radixes@, k as int)] <= usize::MAX,
    ensures
        r.label_indices == (6 * num_freqs@[k as int]) as u32,
        r.tick_indices == (2 * num_freqs@[major_level(freq_radixes@, k as int) + 1]) as u32,
        r.major_ticks_end == (2 * num_freqs@[major_level(freq_radixes@, k as int)]) as i32,
        freq_radixes@[k as int] == 2 ==> r.tick_indices == (2 * num_freqs@[k + 2]) as u32
            && r.major_ticks_end == (2 * num_freqs@[k + 1]) as i32,
        freq_radixes@[k as int] != 2 ==> r.tick_indices == (2 * num_freqs@[k + 1]) as u32
            && r.major_ticks_end == (2 * num_freqs@[k as int]) as i32,
{
    let label_indices = (6 * num_freqs[k]) as u32;
    let next = if freq_radixes[k] == 2 {
        k + 1
    } else {
        k
    };
    let tick_indices = (2 * num_freqs[next + 1]) as u32;
    let major_ticks_end = (2 * num_freqs[next]) as i32;
    ZoomCounts { label_indices, tick_indices, major_ticks_end }
}

/// The major ticks at zoom level `k` are those of the next level when level
/// `k` divides the step by two, and those of level `k` itself otherwise,
/// whichever radix the scale starts with.
pub proof fn lemma_major_level(freq_radixes: Seq<u8>, k: int)
    requires
        0 <= k < freq_radixes.len(),
    ensures
        freq_radixes[k] == 2 ==> major_level(freq_radixes, k) == k + 1,
        freq_radixes[k] != 2 ==> major_level(freq_radixes, k) == k,
{
}

/// On the scales that [`frequency_counts`] builds, the major ticks at zoom
/// level `k` are those of level `k + 1` exactly when level `k` divides the
/// step by two: when `k` is even and the scale starts with radix 2, or `k`
/// is odd and it starts with radix 5.
pub proof fn lemma_major_level_on_scale(first_radix5: bool, freq_radixes: Seq<u8>, k: int)
    requires
        0 <= k < MAX_DEPTH,
        freq_radixes.len() == MAX_DEPTH,
        forall|d: int| 0 <= d < MAX_DEPTH ==> #[trigger] freq_radixes[d] == if radix5_at(first_radix5, d as nat) {
            5u8
        } else {
            2u8
        },
    ensures
        major_level(freq_radixes, k) == if (k % 2 == 0) == first_radix5 { k } else { k + 1 },
{
    assert(freq_radixes[k] == if radix5_at(first_radix5, k as nat) { 5u8 } else { 2u8 });
}

/// The levels of the frequency scale alternate between dividing the tick step
/// by five and by two, starting with the radix chosen for the first level;
/// a level that divides by five has five times the frequencies of the level
/// before, and one that divides by two has twice them plus one (none when
/// there were none).
pub proof fn lemma_frequency_levels(n0: nat, first_radix5: bool, d: nat)
    ensures
        radix5_at(first_radix5, 0) == first_radix5,
        radix5_at(first_radix5, d + 1) == !radix5_at(first_radix5, d),
        freq_count(n0, first_radix5, 0) == n0,
        radix5_at(first_radix5, d) ==> freq_count(n0, first_radix5, d + 1) == 5 * freq_count(n0, first_radix5, d),
        !radix5_at(first_radix5, d) && freq_count(n0, first_radix5, d) > 0 ==> freq_count(n0, first_radix5, d + 1)
            == 2 * freq_count(n0, first_radix5, d) + 1,
{
    assert((d + 1) % 2 == 0 <==> d % 2 != 0);
}

/// The six indices of label `j` are the triangles `4j, 4j + 1, 4j + 2` and
/// `4j + 1, 4j + 2, 4j + 3`, which together cover the label's quad.
pub proof fn lemma_label_triangles()
    ensures
        label_corner(0) == 0,
        label_corner(1) == 1,
        label_corner(2) == 2,
        label_corner(3) == 1,
        label_corner(4) == 2,
        label_corner(5) == 3,
{
}

} // verus!
