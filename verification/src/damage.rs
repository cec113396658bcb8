//! Damage tracking: which cells were written since the texture was last
//! brought up to date.
//!
//! A tracker starts empty. It lists the written cells one by one until
//! the list would grow past its capacity; from then on it keeps only the
//! bounding box of the written cells and a count of the writes.

use vstd::prelude::*;
use crate::geometry::{Position, Size};
use crate::raster::{column, lemma_offset_in_grid, offset, row};

verus! {

/// How many cells a tracker lists one by one unless it is told otherwise.
pub const DEFAULT_CAPACITY: usize = 64;

/// A rectangle of cells: it starts at `(x, y)` and is `width` cells wide
/// and `height` cells high.
pub struct Bounds {
    pub x: int,
    pub y: int,
    pub width: int,
    pub height: int,
}

/// The start of the shortest interval that holds both the interval of
/// `len` cells from `lo` and the cell `p`.
pub open spec fn stretch_start(lo: int, len: int, p: int) -> int {
    if len <= 0 || p < lo {
        p
    } else {
        lo
    }
}

/// The length of the shortest interval that holds both the interval of
/// `len` cells from `lo` and the cell `p`.
pub open spec fn stretch_len(lo: int, len: int, p: int) -> int {
    if len <= 0 {
        1
    } else {
        let low = if p < lo { p } else { lo };
        let high = if p + 1 > lo + len { p + 1 } else { lo + len };
        high - low
    }
}

impl Bounds {
    /// The rectangle without cells.
    pub open spec fn empty() -> Bounds {
        Bounds { x: 0, y: 0, width: 0, height: 0 }
    }

    /// The rectangle of `size` that starts at the origin.
    pub open spec fn whole(size: Size) -> Bounds {
        Bounds { x: 0, y: 0, width: size.width as int, height: size.height as int }
    }

    pub open spec fn covers(self, p: Position) -> bool {
        self.x <= p.x < self.x + self.width && self.y <= p.y < self.y + self.height
    }

    /// The rectangle fits the coordinates a canvas can have.
    pub open spec fn representable(self) -> bool {
        &&& 0 <= self.x
        &&& 0 <= self.y
        &&& 0 <= self.width
        &&& 0 <= self.height
        &&& self.x + self.width <= usize::MAX
        &&& self.y + self.height <= usize::MAX
    }

    /// The rectangle's top left cell.
    pub open spec fn corner(self) -> Position {
        Position { x: self.x as usize, y: self.y as usize }
    }

    /// The rectangle's width and height.
    pub open spec fn extent(self) -> Size {
        Size { width: self.width as usize, height: self.height as usize }
    }

    /// This rectangle, made wider and higher by as little as it takes to
    /// cover `p`.
    pub open spec fn extend_to(self, p: Position) -> Bounds {
        Bounds {
            x: stretch_start(self.x, self.width, p.x as int),
            y: stretch_start(self.y, self.height, p.y as int),
            width: stretch_len(self.x, self.width, p.x as int),
            height: stretch_len(self.y, self.height, p.y as int),
        }
    }

    /// The bounding box of `cells`.
    pub open spec fn of(cells: Seq<Position>) -> Bounds
        decreases cells.len(),
    {
        if cells.len() == 0 {
            Bounds::empty()
        } else {
            Bounds::of(cells.drop_last()).extend_to(cells.last())
        }
    }
}

/// What a tracker has recorded.
pub enum Damage {
    /// Nothing was written.
    Empty,
    /// The cells that were written, each once, in the order of their
    /// first write.
    Sparse(Seq<Position>),
    /// A rectangle that covers every written cell, and the number of
    /// writes counted.
    Region { bounds: Bounds, area: nat },
}

impl Damage {
    /// The cells that are listed one by one.
    pub open spec fn listed(self) -> Seq<Position> {
        match self {
            Damage::Sparse(cells) => cells,
            _ => Seq::empty(),
        }
    }

    /// What holds of the damage in a tracker of `capacity`.
    pub open spec fn valid(self, capacity: nat) -> bool {
        match self {
            Damage::Empty => true,
            Damage::Sparse(cells) => {
                &&& 0 < cells.len() <= capacity
                &&& cells.no_duplicates()
                &&& forall|i: int| 0 <= i < cells.len() ==> (#[trigger] cells[i]).addressable()
            },
            Damage::Region { bounds, area } => bounds.representable(),
        }
    }

    /// Whether the damage accounts for cell `p`.
    pub open spec fn marks(self, p: Position) -> bool {
        match self {
            Damage::Empty => false,
            Damage::Sparse(cells) => cells.contains(p),
            Damage::Region { bounds, area } => bounds.covers(p),
        }
    }

    /// The number of listed cells, or the number of writes counted.
    pub open spec fn load(self) -> nat {
        match self {
            Damage::Empty => 0,
            Damage::Sparse(cells) => cells.len(),
            Damage::Region { bounds, area } => area,
        }
    }

    /// The damage after one more write, to cell `p`.
    pub open spec fn record(self, capacity: nat, p: Position) -> Damage {
        match self {
            Damage::Region { bounds, area } => Damage::Region {
                bounds: bounds.extend_to(p),
                area: area + 1,
            },
            _ => {
                let cells = self.listed();
                if cells.contains(p) {
                    self
                } else if cells.len() < capacity {
                    Damage::Sparse(cells.push(p))
                } else {
                    Damage::Region {
                        bounds: Bounds::of(cells.push(p)),
                        area: cells.len() + 1,
                    }
                }
            },
        }
    }

    /// The damage after the writes `writes`, in their order.
    pub open spec fn replay(self, capacity: nat, writes: Seq<Position>) -> Damage
        decreases writes.len(),
    {
        if writes.len() == 0 {
            self
        } else {
            self.replay(capacity, writes.drop_last()).record(capacity, writes.last())
        }
    }

    /// Draining: all of the damage is handed out (`summary`), and none
    /// is left behind (`after`).
    pub open spec fn drains(self, summary: Damage, after: Damage) -> bool {
        summary == self && after == Damage::Empty
    }

    /// The damage after a whole canvas of `size` was declared dirty.
    pub open spec fn all(size: Size) -> Damage {
        Damage::Region { bounds: Bounds::whole(size), area: size.cells() }
    }
}

/// The cells of the rectangle of `size` that starts at `min`, row by row.
pub open spec fn rect_cells(min: Position, size: Size) -> Seq<Position> {
    Seq::new(
        size.cells(),
        |i: int|
            Position {
                x: (min.x + column(size.width as int, i)) as usize,
                y: (min.y + row(size.width as int, i)) as usize,
            },
    )
}

/// The bounding box of addressable cells fits the coordinates a canvas
/// can have.
pub proof fn lemma_bounds_representable(cells: Seq<Position>)
    requires
        forall|i: int| 0 <= i < cells.len() ==> (#[trigger] cells[i]).addressable(),
    ensures
        Bounds::of(cells).representable(),
    decreases cells.len(),
{
    if cells.len() > 0 {
        lemma_bounds_representable(cells.drop_last());
    }
}

/// What a tracker hands out when it is drained.
#[derive(Debug)]
pub enum DamageSummary {
    /// Nothing was written.
    Empty,
    /// The written cells, each once, in the order of their first write.
    Sparse(Vec<Position>),
    /// The rectangle of `size` that starts at `min` covers every written
    /// cell; `area` is the number of writes counted.
    Region { min: Position, size: Size, area: usize },
}

impl View for DamageSummary {
    type V = Damage;

    open spec fn view(&self) -> Damage {
        match *self {
            DamageSummary::Empty => Damage::Empty,
            DamageSummary::Sparse(cells) => Damage::Sparse(cells@),
            DamageSummary::Region { min, size, area } => Damage::Region {
                bounds: Bounds {
                    x: min.x as int,
                    y: min.y as int,
                    width: size.width as int,
                    height: size.height as int,
                },
                area: area as nat,
            },
        }
    }
}

/// The interval of `len` cells from `lo`, stretched to hold `p`.
fn stretch(lo: usize, len: usize, p: usize) -> (r: (usize, usize))
    requires
        lo + len <= usize::MAX,
        p < usize::MAX,
    ensures
        r.0 == stretch_start(lo as int, len as int, p as int),
        r.1 == stretch_len(lo as int, len as int, p as int),
        r.0 + r.1 <= usize::MAX,
{
    if len == 0 {
        (p, 1)
    } else {
        let low: usize = if p < lo { p } else { lo };
        let high: usize = if p + 1 > lo + len { p + 1 } else { lo + len };
        (low, high - low)
    }
}

/// Records which cells were written since it was last drained.
pub struct DamageTracker {
    capacity: usize,
    cells: Vec<Position>,
    region: bool,
    min: Position,
    size: Size,
    area: usize,
}

impl View for DamageTracker {
    type V = Damage;

    closed spec fn view(&self) -> Damage {
        if self.region {
            Damage::Region { bounds: self.bounds(), area: self.area as nat }
        } else if self.cells@.len() == 0 {
            Damage::Empty
        } else {
            Damage::Sparse(self.cells@)
        }
    }
}

impl DamageTracker {
    spec fn bounds(&self) -> Bounds {
        Bounds {
            x: self.min.x as int,
            y: self.min.y as int,
            width: self.size.width as int,
            height: self.size.height as int,
        }
    }

    /// The largest number of cells that the tracker lists one by one.
    pub closed spec fn capacity(&self) -> nat {
        self.capacity as nat
    }

    /// The tracker's damage is valid for its capacity.
    pub open spec fn wf(&self) -> bool {
        self@.valid(self.capacity()) && self.capacity() < usize::MAX
    }

    /// An empty tracker that lists up to `DEFAULT_CAPACITY` cells.
    pub fn new() -> (tracker: DamageTracker)
        ensures
            tracker.wf(),
            tracker@ == Damage::Empty,
            tracker.capacity() == DEFAULT_CAPACITY,
    {
        DamageTracker::with_capacity(DEFAULT_CAPACITY)
    }

    /// An empty tracker that lists up to `capacity` cells.
    pub fn with_capacity(capacity: usize) -> (tracker: DamageTracker)
        requires
            capacity < usize::MAX,
        ensures
            tracker.wf(),
            tracker@ == Damage::Empty,
            tracker.capacity() == capacity,
    {
        DamageTracker {
            capacity,
            cells: Vec::new(),
            region: false,
            min: Position { x: 0, y: 0 },
            size: Size { width: 0, height: 0 },
            area: 0,
        }
    }

    /// The largest number of cells that the tracker lists one by one.
    pub fn sparse_capacity(&self) -> (k: usize)
        ensures
            k == self.capacity(),
    {
        self.capacity
    }

    /// Whether nothing was written since the last drain.
    pub fn is_empty(&self) -> (r: bool)
        ensures
            r == (self@ is Empty),
    {
        !self.region && self.cells.len() == 0
    }

    /// The number of listed cells, or the number of writes counted.
    pub fn load(&self) -> (n: usize)
        ensures
            n == self@.load(),
    {
        if self.region {
            self.area
        } else {
            self.cells.len()
        }
    }

    /// Whether `p` is among the listed cells.
    fn lists(&self, p: Position) -> (r: bool)
        ensures
            r == self.cells@.contains(p),
    {
        let mut i: usize = 0;
        while i < self.cells.len()
            invariant
                i <= self.cells.len(),
                forall|j: int| 0 <= j < i ==> self.cells@[j] != p,
            decreases self.cells.len() - i,
        {
            let c = self.cells[i];
            if c.x == p.x && c.y == p.y {
                return true;
            }
            i += 1;
        }
        false
    }

    /// Gives up the list for the bounding box of the listed cells and
    /// `p`.
    fn collapse(&mut self, p: Position)
        requires
            !old(self).region,
            old(self).wf(),
            p.addressable(),
        ensures
            final(self).region,
            final(self).capacity == old(self).capacity,
            final(self).bounds() == Bounds::of(old(self).cells@.push(p)),
            final(self).bounds().representable(),
            final(self).area == old(self).cells@.len() + 1,
    {
        let mut min = Position { x: 0, y: 0 };
        let mut size = Size { width: 0, height: 0 };
        let mut i: usize = 0;
        while i < self.cells.len()
            invariant
                i <= self.cells.len(),
                *self == *old(self),
                self.wf(),
                !self.region,
                ({
                    Bounds {
                        x: min.x as int,
                        y: min.y as int,
                        width: size.width as int,
                        height: size.height as int,
                    }
                }) == Bounds::of(self.cells@.take(i as int)),
                min.x + size.width <= usize::MAX,
                min.y + size.height <= usize::MAX,
            decreases self.cells.len() - i,
        {
            let c = self.cells[i];
            proof {
                assert(self.cells@.take(i + 1).drop_last() == self.cells@.take(i as int));
                assert(self.cells@[i as int].addressable());
            }
            let (x, width) = stretch(min.x, size.width, c.x);
            let (y, height) = stretch(min.y, size.height, c.y);
            min = Position { x, y };
            size = Size { width, height };
            i += 1;
        }
        proof {
            assert(self.cells@.take(i as int) == self.cells@);
            assert(self.cells@.push(p).drop_last() == self.cells@);
        }
        let (x, width) = stretch(min.x, size.width, p.x);
        let (y, height) = stretch(min.y, size.height, p.y);
        self.min = Position { x, y };
        self.size = Size { width, height };
        self.area = self.cells.len() + 1;
        self.region = true;
        self.cells = Vec::new();
    }

    /// Records a write to the cell `p`.
    pub fn mark_pixel(&mut self, p: Position)
        requires
            old(self).wf(),
            p.addressable(),
            old(self)@.load() < usize::MAX,
        ensures
            final(self).wf(),
            final(self).capacity() == old(self).capacity(),
            final(self)@ == old(self)@.record(old(self).capacity(), p),
    {
        if self.region {
            let (x, width) = stretch(self.min.x, self.size.width, p.x);
            let (y, height) = stretch(self.min.y, self.size.height, p.y);
            self.min = Position { x, y };
            self.size = Size { width, height };
            self.area = self.area + 1;
        } else if !self.lists(p) {
            proof {
                assert(old(self)@.listed() =~= self.cells@);
            }
            if self.cells.len() < self.capacity {
                self.cells.push(p);
                proof {
                    let before = old(self).cells@;
                    assert forall|i: int, j: int|
                        0 <= i < self.cells@.len() && 0 <= j < self.cells@.len() && i
                            != j implies self.cells@[i] != self.cells@[j] by {
                        if i < before.len() {
                            assert(before[i] == self.cells@[i]);
                        }
                        if j < before.len() {
                            assert(before[j] == self.cells@[j]);
                        }
                    }
                    assert forall|i: int| 0 <= i < self.cells@.len() implies (
                    #[trigger] self.cells@[i]).addressable() by {
                        if i < before.len() {
                            assert(before[i] == self.cells@[i]);
                        }
                    }
                }
            } else {
                self.collapse(p);
            }
        }
    }

    /// Records a write to each cell of the rectangle of `size` that
    /// starts at `min`, row by row.
    pub fn mark_rect(&mut self, min: Position, size: Size)
        requires
            old(self).wf(),
            min.x + size.width <= usize::MAX,
            min.y + size.height <= usize::MAX,
            old(self)@.load() + size.width * size.height <= usize::MAX,
        ensures
            final(self).wf(),
            final(self).capacity() == old(self).capacity(),
            final(self)@ == old(self)@.replay(old(self).capacity(), rect_cells(min, size)),
    {
        let ghost cells = rect_cells(min, size);
        let ghost start = self@;
        let ghost k = self.capacity();
        let ghost w = size.width as int;
        let ghost h = size.height as int;
        let mut dy: usize = 0;
        while dy < size.height
            invariant
                self.wf(),
                self.capacity() == k,
                cells == rect_cells(min, size),
                w == size.width,
                h == size.height,
                min.x + size.width <= usize::MAX,
                min.y + size.height <= usize::MAX,
                start.load() + w * h <= usize::MAX,
                dy <= size.height,
                0 <= dy * w <= w * h,
                self@ == start.replay(k, cells.take(dy * w)),
                self@.load() <= start.load() + dy * w,
            decreases size.height - dy,
        {
            let mut dx: usize = 0;
            while dx < size.width
                invariant
                    self.wf(),
                    self.capacity() == k,
                    cells == rect_cells(min, size),
                    w == size.width,
                    h == size.height,
                    min.x + size.width <= usize::MAX,
                    min.y + size.height <= usize::MAX,
                    start.load() + w * h <= usize::MAX,
                    dy < size.height,
                    dx <= size.width,
                    0 <= dy * w + dx <= w * h,
                    self@ == start.replay(k, cells.take(dy * w + dx)),
                    self@.load() <= start.load() + dy * w + dx,
                decreases size.width - dx,
            {
                let p = Position { x: min.x + dx, y: min.y + dy };
                let ghost n = dy * w + dx;
                let ghost before = self@;
                proof {
                    lemma_offset_in_grid(w, h, dx as int, dy as int);
                    assert(offset(w, dx as int, dy as int) == n);
                    assert(cells[n] == p);
                    assert(cells.take(n + 1).drop_last() == cells.take(n));
                    assert(cells.take(n + 1).last() == p);
                }
                self.mark_pixel(p);
                proof {
                    lemma_record_load(before, k, p);
                }
                dx += 1;
            }
            proof {
                assert((dy + 1) * w == dy * w + w) by (nonlinear_arith);
            }
            dy += 1;
        }
        proof {
            assert(h * w == w * h) by (nonlinear_arith);
            assert(cells.take(w * h) == cells);
        }
    }

    /// Declares every cell of a canvas of `size` dirty.
    pub fn mark_all(&mut self, size: Size)
        requires
            old(self).wf(),
            size.width * size.height <= usize::MAX,
        ensures
            final(self).wf(),
            final(self).capacity() == old(self).capacity(),
            final(self)@ == Damage::all(size),
    {
        self.cells = Vec::new();
        self.region = true;
        self.min = Position { x: 0, y: 0 };
        self.size = size;
        self.area = size.width * size.height;
    }

    /// Hands out what was recorded and starts over with nothing
    /// recorded.
    pub fn drain(&mut self) -> (summary: DamageSummary)
        requires
            old(self).wf(),
        ensures
            final(self).wf(),
            final(self).capacity() == old(self).capacity(),
            old(self)@.drains(summary@, final(self)@),
    {
        if self.region {
            self.region = false;
            self.cells = Vec::new();
            DamageSummary::Region { min: self.min, size: self.size, area: self.area }
        } else if self.cells.len() == 0 {
            DamageSummary::Empty
        } else {
            let mut cells: Vec<Position> = Vec::new();
            std::mem::swap(&mut self.cells, &mut cells);
            DamageSummary::Sparse(cells)
        }
    }
}

/// One write adds at most one to the load.
pub proof fn lemma_record_load(damage: Damage, capacity: nat, p: Position)
    ensures
        damage.load() <= damage.record(capacity, p).load() <= damage.load() + 1,
{
}

} // verus!
