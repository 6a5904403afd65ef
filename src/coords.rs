use vstd::prelude::*;

verus! {

/// A position on the grid, as (x, y) indices.
pub type AbsCoord = (usize, usize);

/// An offset from a position, as (dx, dy).
pub type RelCoord = (i32, i32);

/// Adds a signed offset to an index.
pub fn add_i32_to_usize(i32_val: i32, usize_val: usize) -> (r: usize)
    requires
        0 <= usize_val + i32_val <= usize::MAX,
    ensures
        r == usize_val + i32_val,
{
    if i32_val < 0 {
        let magnitude: i64 = -(i32_val as i64);
        usize_val - magnitude as usize
    } else {
        usize_val + i32_val as usize
    }
}

/// The position reached from `pos` by offset `coord`.
pub fn convert_coord_to_absolute(pos: AbsCoord, coord: RelCoord) -> (r: AbsCoord)
    requires
        0 <= pos.0 + coord.0 <= usize::MAX,
        0 <= pos.1 + coord.1 <= usize::MAX,
    ensures
        r.0 == pos.0 + coord.0,
        r.1 == pos.1 + coord.1,
{
    (add_i32_to_usize(coord.0, pos.0), add_i32_to_usize(coord.1, pos.1))
}

/// The offset from `pos` to `coord`.
pub fn convert_coord_to_relative(pos: AbsCoord, coord: AbsCoord) -> (r: RelCoord)
    requires
        i32::MIN <= coord.0 - pos.0 <= i32::MAX,
        i32::MIN <= coord.1 - pos.1 <= i32::MAX,
    ensures
        r.0 == coord.0 - pos.0,
        r.1 == coord.1 - pos.1,
{
    let dx: i32 = if coord.0 >= pos.0 {
        (coord.0 - pos.0) as i32
    } else {
        -((pos.0 - coord.0) as i64) as i32
    };
    let dy: i32 = if coord.1 >= pos.1 {
        (coord.1 - pos.1) as i32
    } else {
        -((pos.1 - coord.1) as i64) as i32
    };
    (dx, dy)
}

/// Two positions are at most one step apart on each axis.
pub open spec fn within_one(a: AbsCoord, b: AbsCoord) -> bool {
    -1 <= a.0 - b.0 <= 1 && -1 <= a.1 - b.1 <= 1
}

/// The offset from `a` to `b` fits in a `RelCoord`.
pub open spec fn step_fits(a: AbsCoord, b: AbsCoord) -> bool {
    i32::MIN <= b.0 - a.0 <= i32::MAX && i32::MIN <= b.1 - a.1 <= i32::MAX
}

/// Turns a path of positions into steps: each step is the offset from the
/// position before it, the first one from `pos`.
pub fn convert_coords_to_relative(pos: AbsCoord, coords: Vec<AbsCoord>) -> (r: Vec<RelCoord>)
    requires
        coords.len() > 0 ==> step_fits(pos, coords@[0]),
        forall|i: int| 0 < i < coords.len() ==> step_fits(coords@[i - 1], #[trigger] coords@[i]),
    ensures
        r.len() == coords.len(),
        r.len() > 0 ==> r@[0].0 == coords@[0].0 - pos.0 && r@[0].1 == coords@[0].1 - pos.1,
        forall|i: int|
            0 < i < r.len() ==> (#[trigger] r@[i]).0 == coords@[i].0 - coords@[i - 1].0 && r@[i].1
                == coords@[i].1 - coords@[i - 1].1,
{
    let mut r: Vec<RelCoord> = Vec::new();
    let mut i: usize = 0;
    while i < coords.len()
        invariant
            i <= coords.len(),
            r.len() == i,
            coords.len() > 0 ==> step_fits(pos, coords@[0]),
            forall|j: int| 0 < j < coords.len() ==> step_fits(coords@[j - 1], #[trigger] coords@[j]),
            r.len() > 0 ==> r@[0].0 == coords@[0].0 - pos.0 && r@[0].1 == coords@[0].1 - pos.1,
            forall|j: int|
                0 < j < i ==> (#[trigger] r@[j]).0 == coords@[j].0 - coords@[j - 1].0 && r@[j].1
                    == coords@[j].1 - coords@[j - 1].1,
        decreases coords.len() - i,
    {
        let from = if i == 0 {
            pos
        } else {
            coords[i - 1]
        };
        let step = convert_coord_to_relative(from, coords[i]);
        r.push(step);
        i += 1;
    }
    r
}


/// A copy of a path.
pub fn copy_path(p: &Vec<AbsCoord>) -> (r: Vec<AbsCoord>)
    ensures
        r@ == p@,
{
    let mut r: Vec<AbsCoord> = Vec::new();
    let mut i: usize = 0;
    while i < p.len()
        invariant
            i <= p.len(),
            r@ == p@.take(i as int),
        decreases p.len() - i,
    {
        r.push(p[i]);
        i += 1;
        assert(r@ =~= p@.take(i as int));
    }
    assert(r@ =~= p@);
    r
}

}
