use vstd::prelude::*;
use crate::geometry::Point;
use crate::pieces::Side;

verus! {

/// World coordinate of the centre of file 0 and of rank 0 (-350 world units).
pub const START_POS: i32 = -3500;
/// Side of a board square (100 world units).
pub const SQUARE_SIZE: i32 = 1000;
/// Horizontal position of the first slot of each capture-zone row.
pub const CAPTURE_START: i32 = -6000;
/// Distance between neighbouring capture-zone slots, across and down.
pub const MOVEOVER: i32 = 400;
/// A cursor that moves past this horizontal position starts a new row.
pub const RESET_LIMIT: i32 = -4500;
/// Vertical position of the first row of White's capture zone.
pub const WHITE_CAPTURE_POS: i32 = 3500;
/// Vertical position of the first row of Black's capture zone.
pub const BLACK_CAPTURE_POS: i32 = -2500;
/// Pieces on each side, and so slots that a capture zone can hand out.
pub const PIECES_PER_SIDE: u32 = 16;

/// Centre of the square on `file` (x) and `rank` (y), both in 0..8.
pub open spec fn square_pos(file: int, rank: int) -> Point {
    Point { x: (START_POS + file * SQUARE_SIZE) as i32, y: (START_POS + rank * SQUARE_SIZE) as i32 }
}

/// Board layout: the centre of the square on `file` and `rank`.
pub fn place(file: usize, rank: usize) -> (r: Point)
    requires
        file < 8,
        rank < 8,
    ensures
        r == square_pos(file as int, rank as int),
{
    Point {
        x: START_POS + (file as i32) * SQUARE_SIZE,
        y: START_POS + (rank as i32) * SQUARE_SIZE,
    }
}

/// The table of square centres, ranks in order, files in order within a rank.
pub struct Placement {
    pub positions: Vec<Point>,
}

impl Placement {
    pub open spec fn wf(&self) -> bool {
        &&& self.positions@.len() == 64
        &&& forall|f: int, r: int|
            0 <= f < 8 && 0 <= r < 8 ==> self.positions@[r * 8 + f] == #[trigger] square_pos(f, r)
    }

    /// The centre of the square on `file` and `rank`.
    pub fn at(&self, file: usize, rank: usize) -> (r: Point)
        requires
            self.wf(),
            file < 8,
            rank < 8,
        ensures
            r == square_pos(file as int, rank as int),
    {
        assert(self.positions@[rank * 8 + file] == square_pos(file as int, rank as int));
        self.positions[rank * 8 + file]
    }
}

/// Builds the placement table for all 64 squares.
pub fn setup_placement() -> (r: Placement)
    ensures
        r.wf(),
{
    let mut positions: Vec<Point> = Vec::new();
    let mut rank: usize = 0;
    while rank < 8
        invariant
            rank <= 8,
            positions@.len() == rank * 8,
            forall|f: int, r: int|
                0 <= f < 8 && 0 <= r < rank ==> positions@[r * 8 + f] == #[trigger] square_pos(f, r),
        decreases 8 - rank,
    {
        let mut file: usize = 0;
        while file < 8
            invariant
                rank < 8,
                file <= 8,
                positions@.len() == rank * 8 + file,
                forall|f: int, r: int|
                    0 <= f < 8 && 0 <= r < rank ==> positions@[r * 8 + f] == #[trigger] square_pos(f, r),
                forall|f: int| 0 <= f < file ==> positions@[rank * 8 + f] == #[trigger] square_pos(f, rank as int),
            decreases 8 - file,
        {
            positions.push(place(file, rank));
            file += 1;
        }
        rank += 1;
    }
    Placement { positions }
}

pub open spec fn zone_origin_y(side: Side) -> int {
    match side {
        Side::White => WHITE_CAPTURE_POS as int,
        Side::Black => BLACK_CAPTURE_POS as int,
    }
}

/// The `n`-th slot of a side's capture zone: rows of four, each row one
/// step below the previous.
pub open spec fn slot_at(side: Side, n: int) -> Point {
    Point {
        x: (CAPTURE_START + (n % 4) * MOVEOVER) as i32,
        y: (zone_origin_y(side) - (n / 4) * MOVEOVER) as i32,
    }
}

/// One side's holding area for captured pieces: a cursor on the next free
/// slot, and the number of slots handed out.
#[derive(Clone, Copy, Debug, PartialEq, Eq, Structural)]
pub struct CaptureZone {
    pub side: Side,
    pub next: Point,
    pub taken: u32,
}

impl CaptureZone {
    pub open spec fn wf(&self) -> bool {
        &&& self.taken <= PIECES_PER_SIDE
        &&& self.next == slot_at(self.side, self.taken as int)
    }

    /// The zone after one more slot has been handed out.
    pub open spec fn advanced(&self) -> CaptureZone {
        CaptureZone {
            side: self.side,
            next: slot_at(self.side, self.taken + 1),
            taken: (self.taken + 1) as u32,
        }
    }

    /// An empty zone, its cursor at its first slot.
    pub fn new(side: Side) -> (r: CaptureZone)
        ensures
            r.wf(),
            r.side == side,
            r.taken == 0,
    {
        let y = match side {
            Side::White => WHITE_CAPTURE_POS,
            Side::Black => BLACK_CAPTURE_POS,
        };
        CaptureZone { side, next: Point { x: CAPTURE_START, y }, taken: 0 }
    }

    /// Hands out the slot under the cursor, then moves the cursor one step
    /// across, or to the start of the next row once the row is full.
    pub fn next_slot(&mut self) -> (r: Point)
        requires
            old(self).wf(),
            old(self).taken < PIECES_PER_SIDE,
        ensures
            r == old(self).next,
            *final(self) == old(self).advanced(),
            final(self).wf(),
    {
        let slot = self.next;
        let n = self.taken;
        let x = self.next.x + MOVEOVER;
        if x > RESET_LIMIT {
            assert(n % 4 == 3);
            self.next = Point { x: CAPTURE_START, y: self.next.y - MOVEOVER };
        } else {
            assert(n % 4 < 3);
            self.next = Point { x, y: self.next.y };
        }
        self.taken = self.taken + 1;
        slot
    }
}

/// Both sides' capture zones.
#[derive(Clone, Copy, Debug, PartialEq, Eq, Structural)]
pub struct CaptureZones {
    pub white_pos: CaptureZone,
    pub black_pos: CaptureZone,
}

impl CaptureZones {
    pub open spec fn wf(&self) -> bool {
        &&& self.white_pos.wf()
        &&& self.black_pos.wf()
        &&& self.white_pos.side == Side::White
        &&& self.black_pos.side == Side::Black
    }

    pub open spec fn zone(&self, side: Side) -> CaptureZone {
        match side {
            Side::White => self.white_pos,
            Side::Black => self.black_pos,
        }
    }

    /// Both zones empty.
    pub open spec fn initial() -> CaptureZones {
        CaptureZones {
            white_pos: CaptureZone { side: Side::White, next: slot_at(Side::White, 0), taken: 0 },
            black_pos: CaptureZone { side: Side::Black, next: slot_at(Side::Black, 0), taken: 0 },
        }
    }

    /// The zones after `side`'s zone has handed out one more slot.
    pub open spec fn advanced(&self, side: Side) -> CaptureZones {
        match side {
            Side::White => CaptureZones { white_pos: self.white_pos.advanced(), ..*self },
            Side::Black => CaptureZones { black_pos: self.black_pos.advanced(), ..*self },
        }
    }

    /// Hands out the next free slot of `side`'s zone.
    pub fn next_slot(&mut self, side: Side) -> (r: Point)
        requires
            old(self).wf(),
            old(self).zone(side).taken < PIECES_PER_SIDE,
        ensures
            r == old(self).zone(side).next,
            *final(self) == old(self).advanced(side),
            final(self).wf(),
    {
        match side {
            Side::White => self.white_pos.next_slot(),
            Side::Black => self.black_pos.next_slot(),
        }
    }
}

/// Both capture zones, empty, their cursors at their first slots.
pub fn setup_profiles() -> (r: CaptureZones)
    ensures
        r == CaptureZones::initial(),
        r.wf(),
{
    CaptureZones { white_pos: CaptureZone::new(Side::White), black_pos: CaptureZone::new(Side::Black) }
}

} // verus!
