use vstd::prelude::*;

verus! {

/// Half the side of a piece's square hit box (37.5 world units).
pub const PIECE_HALF: i32 = 375;

/// A world position, in tenths of a world unit.
#[derive(Clone, Copy, Debug, PartialEq, Eq, Structural)]
pub struct Point {
    pub x: i32,
    pub y: i32,
}

/// The pointer lies in the closed hit box centred on `center`.
pub open spec fn hit(center: Point, p: Point) -> bool {
    &&& center.x - PIECE_HALF <= p.x <= center.x + PIECE_HALF
    &&& center.y - PIECE_HALF <= p.y <= center.y + PIECE_HALF
}

/// The hit boxes centred on `a` and `b` intersect: their centres are less than
/// one box width apart on both axes.
pub open spec fn overlaps(a: Point, b: Point) -> bool {
    &&& -2 * PIECE_HALF < a.x - b.x < 2 * PIECE_HALF
    &&& -2 * PIECE_HALF < a.y - b.y < 2 * PIECE_HALF
}

impl Point {
    pub fn new(x: i32, y: i32) -> (r: Point)
        ensures
            r == (Point { x, y }),
    {
        Point { x, y }
    }
}

/// Whether the pointer `p` lies in the hit box of a piece centred on `center`.
pub fn contains(center: Point, p: Point) -> (r: bool)
    ensures
        r == hit(center, p),
{
    let dx: i64 = p.x as i64 - center.x as i64;
    let dy: i64 = p.y as i64 - center.y as i64;
    let half: i64 = PIECE_HALF as i64;
    -half <= dx && dx <= half && -half <= dy && dy <= half
}

/// Whether the hit boxes of two pieces centred on `a` and `b` intersect.
pub fn check_for_collisions(a: Point, b: Point) -> (r: bool)
    ensures
        r == overlaps(a, b),
{
    let dx: i64 = a.x as i64 - b.x as i64;
    let dy: i64 = a.y as i64 - b.y as i64;
    let width: i64 = 2 * PIECE_HALF as i64;
    -width < dx && dx < width && -width < dy && dy < width
}

} // verus!
