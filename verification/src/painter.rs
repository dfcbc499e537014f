//! Accumulation of DVS events into grayscale frames.

use vstd::prelude::*;

use array2d::Array2D;

use crate::events;

use crate::events::DvsEvent;
use crate::events::DVS_EVENT_SIZE;

verus! {

// ---------------------------------------------------------------------------
// The grid
// ---------------------------------------------------------------------------
/// A fixed-size two-dimensional array.
#[verifier::external_type_specification]
#[verifier::external_body]
#[verifier::reject_recursive_types(T)]
pub struct ExArray2D<T>(array2d::Array2D<T>);

/// The elements of an `Array2D`, row by row.
pub uninterp spec fn grid_cells(g: Array2D<u8>) -> Seq<u8>;

/// The number of rows of an `Array2D`.
pub uninterp spec fn grid_rows(g: Array2D<u8>) -> nat;

/// The number of columns of an `Array2D`.
pub uninterp spec fn grid_columns(g: Array2D<u8>) -> nat;

/// Calls `Array2D::filled_with`. It is trusted to give an array of the given size with every
/// element equal to the given one. The number of elements must not exceed what a vector can hold.
#[verifier::external_body]
fn filled_grid(element: u8, rows: usize, columns: usize) -> (g: Array2D<u8>)
    requires
        rows * columns <= isize::MAX,
    ensures
        grid_rows(g) == rows,
        grid_columns(g) == columns,
        grid_cells(g) == Seq::new((rows * columns) as nat, |i: int| element),
{
    Array2D::filled_with(element, rows, columns)
}

/// Assigns through `Array2D`'s `index_mut`. It is trusted to change the element at the given row
/// and column and nothing else; it panics out of bounds.
#[verifier::external_body]
fn set_cell(g: &mut Array2D<u8>, row: usize, column: usize, element: u8)
    requires
        row < grid_rows(*old(g)),
        column < grid_columns(*old(g)),
    ensures
        grid_rows(*final(g)) == grid_rows(*old(g)),
        grid_columns(*final(g)) == grid_columns(*old(g)),
        grid_cells(*final(g)) == grid_cells(*old(g)).update(
            row * grid_columns(*old(g)) + column,
            element,
        ),
{
    g[(row, column)] = element;
}

/// Calls `Array2D::as_row_major`. It is trusted to give the elements row by row.
#[verifier::external_body]
fn row_major(g: &Array2D<u8>) -> (v: Vec<u8>)
    ensures
        v@ == grid_cells(*g),
{
    g.as_row_major()
}

// ---------------------------------------------------------------------------
// Painting
// ---------------------------------------------------------------------------
/// Microseconds of sensor time per frame.
pub const FRAME_US: u64 = 33333;

/// Gray, the value of a pixel without an event.
pub const GRAY: u8 = 127;

/// What painting works on: the frame being painted, the finished frame, and the sensor time at
/// which the frame being painted is finished.
pub struct Canvas {
    pub grid: Seq<u8>,
    pub pixels: Seq<u8>,
    pub next_frame_time: u64,
}

/// The value of a pixel after an event: white for ON, black for OFF.
pub open spec fn shade(on: u8) -> u8 {
    if on != 0 {
        255
    } else {
        0
    }
}

/// A frame of gray pixels.
pub open spec fn blank(width: u32, height: u32) -> Seq<u8> {
    Seq::new((height * width) as nat, |i: int| 127u8)
}

/// The grid with an event painted into it. Events off the sensor are left out.
pub open spec fn dotted(grid: Seq<u8>, width: u32, height: u32, e: DvsEvent) -> Seq<u8> {
    if e.x < width && e.y < height {
        grid.update(e.y * width + e.x, shade(e.on))
    } else {
        grid
    }
}

/// The canvas after one event. An event at or after the frame time is the last of its frame: the
/// frame is finished with it, and the next one starts gray.
pub open spec fn painted(c: Canvas, width: u32, height: u32, e: DvsEvent) -> Canvas {
    let grid = dotted(c.grid, width, height, e);
    if e.t >= c.next_frame_time {
        Canvas {
            grid: blank(width, height),
            pixels: grid,
            next_frame_time: c.next_frame_time.wrapping_add(33333),
        }
    } else {
        Canvas { grid, ..c }
    }
}

/// The canvas after a run of events.
pub open spec fn painted_all(c: Canvas, width: u32, height: u32, es: Seq<DvsEvent>) -> Canvas
    decreases es.len(),
{
    if es.len() == 0 {
        c
    } else {
        painted(painted_all(c, width, height, es.drop_last()), width, height, es.last())
    }
}

/// The cell of a pixel on the sensor is a cell of the grid.
proof fn cell_in_bounds(x: int, y: int, width: int, height: int)
    by (nonlinear_arith)
    requires
        0 <= x < width,
        0 <= y < height,
    ensures
        0 <= y * width + x < height * width,
{
}

/// The painter of a live view.
pub struct Painter {
    grid: Array2D<u8>,
    width: u32,
    height: u32,
    next_frame_time: u64,
}

impl Painter {
    /// The sensor's width.
    pub closed spec fn width(self) -> u32 {
        self.width
    }

    /// The sensor's height.
    pub closed spec fn height(self) -> u32 {
        self.height
    }

    /// The canvas that this painter and a finished frame make up.
    pub closed spec fn canvas(self, pixels: Seq<u8>) -> Canvas {
        Canvas { grid: grid_cells(self.grid), pixels, next_frame_time: self.next_frame_time }
    }

    /// Whether the grid has the size of the sensor.
    pub closed spec fn wf(self) -> bool {
        &&& self.height * self.width <= isize::MAX
        &&& grid_rows(self.grid) == self.height
        &&& grid_columns(self.grid) == self.width
        &&& grid_cells(self.grid).len() == self.height * self.width
    }

    /// A painter whose first frame starts black and is finished by the first event.
    pub fn new(width: u32, height: u32) -> (p: Self)
        requires
            height * width <= isize::MAX,
        ensures
            p.wf(),
            p.width() == width,
            p.height() == height,
            forall|pixels: Seq<u8>| #[trigger]
                p.canvas(pixels) == (Canvas {
                    grid: Seq::new((height * width) as nat, |i: int| 0u8),
                    pixels,
                    next_frame_time: 0,
                }),
    {
        Painter {
            grid: filled_grid(0, height as usize, width as usize),
            width,
            height,
            next_frame_time: 0,
        }
    }

    /// Paints one event.
    fn paint_event(&mut self, e: &DvsEvent, pixels: &mut Vec<u8>) -> (finished: bool)
        requires
            old(self).wf(),
        ensures
            final(self).wf(),
            final(self).width() == old(self).width(),
            final(self).height() == old(self).height(),
            final(self).canvas(final(pixels)@) == painted(
                old(self).canvas(old(pixels)@),
                old(self).width(),
                old(self).height(),
                *e,
            ),
            finished == (e.t >= old(self).canvas(old(pixels)@).next_frame_time),
    {
        if (e.x as u32) < self.width && (e.y as u32) < self.height {
            let shade: u8 = if e.on != 0 {
                255
            } else {
                0
            };
            proof {
                cell_in_bounds(e.x as int, e.y as int, self.width as int, self.height as int);
            }
            set_cell(&mut self.grid, e.y as usize, e.x as usize, shade);
        }
        if e.t >= self.next_frame_time {
            *pixels = row_major(&self.grid);
            self.grid = filled_grid(GRAY, self.height as usize, self.width as usize);
            self.next_frame_time = self.next_frame_time.wrapping_add(FRAME_US);
            true
        } else {
            false
        }
    }

    /// Paints the events of a payload and gives the number of frames that they finished.
    pub fn paint(&mut self, payload: &[u8], pixels: &mut Vec<u8>) -> (frames: usize)
        requires
            old(self).wf(),
        ensures
            final(self).wf(),
            final(self).width() == old(self).width(),
            final(self).height() == old(self).height(),
            final(self).canvas(final(pixels)@) == painted_all(
                old(self).canvas(old(pixels)@),
                old(self).width(),
                old(self).height(),
                events::dvs_events(payload@),
            ),
            frames == finished_frames(
                old(self).canvas(old(pixels)@),
                old(self).width(),
                old(self).height(),
                events::dvs_events(payload@),
            ),
    {
        let ghost before = self.canvas(pixels@);
        let ghost es = events::dvs_events(payload@);
        let ghost w = self.width;
        let ghost h = self.height;
        let n: usize = payload.len() / DVS_EVENT_SIZE;
        let mut frames: usize = 0;
        let mut i: usize = 0;
        while i < n
            invariant
                i <= n,
                n == payload@.len() / 13,
                payload@.len() <= usize::MAX,
                es == events::dvs_events(payload@),
                self.wf(),
                self.width() == w,
                self.height() == h,
                self.canvas(pixels@) == painted_all(before, w, h, es.take(i as int)),
                frames == finished_frames(before, w, h, es.take(i as int)),
                frames <= i,
            decreases n - i,
        {
            assert(13 * i + 13 <= payload@.len()) by (nonlinear_arith)
                requires
                    i < n,
                    n == payload@.len() / 13,
            ;
            let e = events::read_dvs(payload, i * DVS_EVENT_SIZE);
            assert(es.take(i + 1).drop_last() =~= es.take(i as int));
            assert(es.take(i + 1).last() == e);
            let finished = self.paint_event(&e, pixels);
            if finished {
                frames += 1;
            }
            i += 1;
        }
        assert(es.take(i as int) =~= es);
        frames
    }
}

/// The number of frames that a run of events finishes.
pub open spec fn finished_frames(c: Canvas, width: u32, height: u32, es: Seq<DvsEvent>) -> nat
    decreases es.len(),
{
    if es.len() == 0 {
        0
    } else {
        let init = painted_all(c, width, height, es.drop_last());
        finished_frames(c, width, height, es.drop_last()) + (if es.last().t >= init.next_frame_time {
            1nat
        } else {
            0nat
        })
    }
}

/// The frame that a live view shows before the first one is finished: all gray.
pub fn blank_frame(width: u32, height: u32) -> (v: Vec<u8>)
    requires
        height * width <= isize::MAX,
    ensures
        v@ == blank(width, height),
{
    assert(height as usize * width as usize == height * width);
    let v: Vec<u8> = vec![GRAY; height as usize * width as usize];
    assert(v@ =~= blank(width, height));
    v
}

// ---------------------------------------------------------------------------
// Laws
// ---------------------------------------------------------------------------
/// The grid and the finished frame keep the size of the sensor.
pub proof fn frames_keep_their_size(c: Canvas, width: u32, height: u32, es: Seq<DvsEvent>)
    requires
        c.grid.len() == height * width,
        c.pixels.len() == height * width,
    ensures
        painted_all(c, width, height, es).grid.len() == height * width,
        painted_all(c, width, height, es).pixels.len() == height * width,
    decreases es.len(),
{
    if es.len() > 0 {
        frames_keep_their_size(c, width, height, es.drop_last());
        let e = es.last();
        if e.x < width && e.y < height {
            cell_in_bounds(e.x as int, e.y as int, width as int, height as int);
        }
    }
}

/// It does not matter how events are spread over payloads.
pub proof fn payloads_do_not_matter(
    c: Canvas,
    width: u32,
    height: u32,
    a: Seq<DvsEvent>,
    b: Seq<DvsEvent>,
)
    ensures
        painted_all(c, width, height, a + b) == painted_all(
            painted_all(c, width, height, a),
            width,
            height,
            b,
        ),
    decreases b.len(),
{
    if b.len() == 0 {
        assert(a + b =~= a);
    } else {
        payloads_do_not_matter(c, width, height, a, b.drop_last());
        assert((a + b).drop_last() =~= a + b.drop_last());
    }
}

/// The polarity of the last event at a pixel.
pub open spec fn last_at(es: Seq<DvsEvent>, x: int, y: int) -> Option<u8>
    decreases es.len(),
{
    if es.len() == 0 {
        None
    } else if es.last().x == x && es.last().y == y {
        Some(es.last().on)
    } else {
        last_at(es.drop_last(), x, y)
    }
}

/// The value of a pixel after a run of events over a background.
pub open spec fn pixel_after(es: Seq<DvsEvent>, x: int, y: int, background: u8) -> u8 {
    match last_at(es, x, y) {
        Some(on) => shade(on),
        None => background,
    }
}

/// Two pixels on the sensor have different cells.
proof fn cells_differ(x1: int, y1: int, x2: int, y2: int, width: int)
    by (nonlinear_arith)
    requires
        0 <= x1 < width,
        0 <= x2 < width,
        y1 * width + x1 == y2 * width + x2,
    ensures
        x1 == x2,
        y1 == y2,
{
}

/// While a frame is being painted, each pixel shows the last event at it, or the background.
pub proof fn grid_shows_last_events(
    c: Canvas,
    width: u32,
    height: u32,
    es: Seq<DvsEvent>,
    x: int,
    y: int,
)
    requires
        c.grid.len() == height * width,
        0 <= x < width,
        0 <= y < height,
        forall|i: int| 0 <= i < es.len() ==> (#[trigger] es[i]).t < c.next_frame_time,
    ensures
        ({
            let r = painted_all(c, width, height, es);
            &&& r.grid.len() == height * width
            &&& r.grid[y * width + x] == pixel_after(es, x, y, c.grid[y * width + x])
            &&& r.pixels == c.pixels
            &&& r.next_frame_time == c.next_frame_time
        }),
    decreases es.len(),
{
    if es.len() > 0 {
        let init = es.drop_last();
        let e = es.last();
        assert forall|i: int| 0 <= i < init.len() implies (#[trigger] init[i]).t
            < c.next_frame_time by {
            assert(init[i] == es[i]);
        }
        grid_shows_last_events(c, width, height, init, x, y);
        cell_in_bounds(x, y, width as int, height as int);
        assert(es[es.len() - 1].t < c.next_frame_time);
        if e.x < width && e.y < height {
            cell_in_bounds(e.x as int, e.y as int, width as int, height as int);
            if e.y * width + e.x == y * width + x {
                cells_differ(e.x as int, e.y as int, x, y, width as int);
            }
        }
    }
}

/// The event that finishes a frame is part of it: each pixel of the finished frame shows the last
/// event at it, or the background. The next frame starts gray, one frame time later.
pub proof fn finished_frame_shows_last_events(
    c: Canvas,
    width: u32,
    height: u32,
    es: Seq<DvsEvent>,
    x: int,
    y: int,
)
    requires
        c.grid.len() == height * width,
        0 <= x < width,
        0 <= y < height,
        es.len() > 0,
        forall|i: int| 0 <= i < es.len() - 1 ==> (#[trigger] es[i]).t < c.next_frame_time,
        es.last().t >= c.next_frame_time,
    ensures
        ({
            let r = painted_all(c, width, height, es);
            &&& r.pixels.len() == height * width
            &&& r.pixels[y * width + x] == pixel_after(es, x, y, c.grid[y * width + x])
            &&& r.grid == blank(width, height)
            &&& r.next_frame_time == c.next_frame_time.wrapping_add(33333)
        }),
{
    let init = es.drop_last();
    let e = es.last();
    assert forall|i: int| 0 <= i < init.len() implies (#[trigger] init[i]).t
        < c.next_frame_time by {
        assert(init[i] == es[i]);
    }
    grid_shows_last_events(c, width, height, init, x, y);
    cell_in_bounds(x, y, width as int, height as int);
    if e.x < width && e.y < height {
        cell_in_bounds(e.x as int, e.y as int, width as int, height as int);
        if e.y * width + e.x == y * width + x {
            cells_differ(e.x as int, e.y as int, x, y, width as int);
        }
    }
}

/// An event paints its pixel white where its polarity is anything but 0, else black, and no other
/// pixel; a frame that has just begun is gray, of the value 127, in each of its pixels.
pub proof fn event_paints_its_pixel(
    c: Canvas,
    width: u32,
    height: u32,
    e: DvsEvent,
    x: int,
    y: int,
)
    requires
        c.grid.len() == height * width,
        0 <= x < width,
        0 <= y < height,
    ensures
        ({
            let r = painted(c, width, height, e);
            let frame = if e.t >= c.next_frame_time {
                r.pixels
            } else {
                r.grid
            };
            let at = y * width + x;
            &&& 0 <= at < height * width
            &&& frame.len() == height * width
            &&& e.x == x && e.y == y && e.on == 0 ==> frame[at] == 0
            &&& e.x == x && e.y == y && e.on > 0 ==> frame[at] == 255
            &&& e.x != x || e.y != y ==> frame[at] == c.grid[at]
            &&& e.t >= c.next_frame_time ==> r.grid.len() == height * width && r.grid[at] == 127
            &&& e.t < c.next_frame_time ==> r.pixels == c.pixels
        }),
{
    cell_in_bounds(x, y, width as int, height as int);
    if e.x < width && e.y < height {
        cell_in_bounds(e.x as int, e.y as int, width as int, height as int);
        if e.y * width + e.x == y * width + x {
            cells_differ(e.x as int, e.y as int, x, y, width as int);
        }
    }
}

/// The frame that is shown before the first one is finished is gray in each of its pixels.
pub proof fn blank_is_gray(width: u32, height: u32)
    ensures
        blank(width, height).len() == height * width,
        forall|i: int| 0 <= i < height * width ==> #[trigger] blank(width, height)[i] == 127,
{
    assert(height * width >= 0) by (nonlinear_arith)
        requires
            height >= 0,
            width >= 0,
    ;
}

/// Every finished frame takes the frame time 33333 microseconds further, and nothing else does.
pub proof fn frames_advance_the_frame_time(c: Canvas, width: u32, height: u32, es: Seq<DvsEvent>)
    requires
        c.next_frame_time + 33333 * es.len() <= u64::MAX,
    ensures
        painted_all(c, width, height, es).next_frame_time == c.next_frame_time + 33333
            * finished_frames(c, width, height, es),
        finished_frames(c, width, height, es) <= es.len(),
    decreases es.len(),
{
    if es.len() > 0 {
        frames_advance_the_frame_time(c, width, height, es.drop_last());
    }
}

/// An event finishes at most one frame, and does so exactly where it is at or after the frame time.
pub proof fn event_finishes_its_frame(
    c: Canvas,
    width: u32,
    height: u32,
    es: Seq<DvsEvent>,
    e: DvsEvent,
)
    ensures
        ({
            let due = painted_all(c, width, height, es).next_frame_time;
            let before = finished_frames(c, width, height, es);
            let after = finished_frames(c, width, height, es.push(e));
            &&& e.t >= due ==> after == before + 1
            &&& e.t < due ==> after == before
            &&& painted_all(c, width, height, es.push(e)) == painted(
                painted_all(c, width, height, es),
                width,
                height,
                e,
            )
        }),
{
    assert(es.push(e).drop_last() =~= es);
}

} // verus!
