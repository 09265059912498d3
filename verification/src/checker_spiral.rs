//! Positions along a spiral that visits every second cell of the grid, ring
//! by ring around the origin.

use vstd::prelude::*;

verus! {

/// The number of cells that the rings up to `layer` hold, the origin not
/// counted: ring `k` holds `4 * k` of them.
pub open spec fn cells_within(layer: int) -> int {
    2 * layer * (layer + 1)
}

/// Whether index `i` falls on ring `layer`: it lies beyond the rings before
/// it and within the rings up to it.
pub open spec fn is_layer(i: int, layer: int) -> bool {
    &&& layer >= 1
    &&& cells_within(layer - 1) < i <= cells_within(layer)
}

/// The position of index `i`, given the ring `layer` that it falls on. The
/// ring has four sides of `layer` cells each, walked one after the other, two
/// steps from one cell to the next.
pub open spec fn position_on_layer(i: int, layer: int) -> (int, int) {
    let subindex = i - (cells_within(layer - 1) + 1);
    let side = subindex / layer;
    let side_index = subindex % layer;
    let half = (2 * layer + 1) / 2;
    if side == 0 {
        (half - side_index * 2, layer)
    } else if side == 1 {
        (-layer, half - side_index * 2)
    } else if side == 2 {
        (side_index * 2 - half, -layer)
    } else {
        (layer, side_index * 2 - half)
    }
}

/// The ring that index `i` falls on. Every index from 1 on falls on exactly
/// one.
pub open spec fn spiral_layer(i: int) -> int {
    choose|layer: int| is_layer(i, layer)
}

/// The position of the `i`-th cell of the spiral: the origin first, every
/// later cell on the ring that its index falls on.
pub open spec fn spiral_pos(i: int) -> (int, int) {
    if i == 0 {
        (0, 0)
    } else {
        position_on_layer(i, spiral_layer(i))
    }
}

/// The rings hold more cells the further out they reach.
pub proof fn lemma_cells_within_monotonic(a: int, b: int)
    requires
        0 <= a <= b,
    ensures
        cells_within(a) <= cells_within(b),
{
    assert(2 * a * (a + 1) <= 2 * b * (b + 1)) by (nonlinear_arith)
        requires
            0 <= a <= b,
    ;
}

/// An index falls on one ring only.
pub proof fn lemma_layer_unique(i: int, a: int, b: int)
    requires
        is_layer(i, a),
        is_layer(i, b),
    ensures
        a == b,
{
    if a < b {
        lemma_cells_within_monotonic(a, b - 1);
    }
    if b < a {
        lemma_cells_within_monotonic(b, a - 1);
    }
}

/// A ring that an index falls on is the ring of that index.
pub proof fn lemma_spiral_layer(i: int, layer: int)
    requires
        is_layer(i, layer),
    ensures
        spiral_layer(i) == layer,
{
    lemma_layer_unique(i, layer, spiral_layer(i));
}

/// The ring that index `i` falls on.
pub fn checker_spiral_layer(i: u32) -> (layer: u32)
    requires
        1 <= i <= i32::MAX,
    ensures
        layer == spiral_layer(i as int),
        is_layer(i as int, layer as int),
        layer <= 32768,
{
    let target: u64 = i as u64;
    let mut low: u64 = 0;
    let mut high: u64 = 32768;
    assert(cells_within(32768) == 2147549184) by (nonlinear_arith);
    assert(cells_within(0) == 0) by (nonlinear_arith);
    while high - low > 1
        invariant
            low < high <= 32768,
            cells_within(low as int) < target <= cells_within(high as int),
        decreases high - low,
    {
        let middle: u64 = low + (high - low) / 2;
        assert(0 <= cells_within(middle as int) <= 2147549184) by (nonlinear_arith)
            requires
                0 <= middle <= 32768,
        ;
        assert(middle * (middle + 1) <= 1073774592) by (nonlinear_arith)
            requires
                0 <= middle <= 32768,
        ;
        let within: u64 = 2 * (middle * (middle + 1));
        assert(within == cells_within(middle as int)) by (nonlinear_arith)
            requires
                within == 2 * (middle * (middle + 1)),
        ;
        if within < target {
            low = middle;
        } else {
            high = middle;
        }
    }
    proof {
        lemma_spiral_layer(i as int, high as int);
    }
    high as u32
}

/// The position of the `i`-th cell of the spiral. The origin comes first;
/// every later cell lies on the ring that its index falls on.
pub fn checker_spiral_pos(i: u32) -> (pos: (i32, i32))
    requires
        i <= i32::MAX,
    ensures
        pos.0 == spiral_pos(i as int).0,
        pos.1 == spiral_pos(i as int).1,
{
    if i == 0 {
        return (0, 0);
    }
    let layer_index: u32 = checker_spiral_layer(i);
    let index: i64 = i as i64;
    let layer: i64 = layer_index as i64;
    let last_layer: i64 = layer - 1;
    assert(0 <= last_layer * (last_layer + 1) <= 1073774592) by (nonlinear_arith)
        requires
            0 <= last_layer <= 32768,
    ;
    let before: i64 = 2 * (last_layer * (last_layer + 1));
    assert(before == cells_within(layer - 1)) by (nonlinear_arith)
        requires
            before == 2 * (last_layer * (last_layer + 1)),
            last_layer == layer - 1,
    ;
    let subindex: i64 = index - (before + 1);
    assert(cells_within(layer as int) - cells_within(layer - 1) == 4 * layer) by (nonlinear_arith);
    let side: i64 = subindex / layer;
    let side_index: i64 = subindex % layer;
    assert(0 <= side < 4 && 0 <= side_index < layer) by (nonlinear_arith)
        requires
            0 <= subindex < 4 * layer,
            layer >= 1,
            side == subindex / layer,
            side_index == subindex % layer,
    ;
    let half: i64 = (2 * layer + 1) / 2;
    let pos: (i64, i64) = if side == 0 {
        (half - side_index * 2, layer)
    } else if side == 1 {
        (-layer, half - side_index * 2)
    } else if side == 2 {
        (side_index * 2 - half, -layer)
    } else {
        (layer, side_index * 2 - half)
    };
    assert(is_layer(i as int, layer as int));
    assert(pos.0 == position_on_layer(i as int, layer as int).0);
    assert(pos.1 == position_on_layer(i as int, layer as int).1);
    (pos.0 as i32, pos.1 as i32)
}

/// The first `count` positions of the spiral, in order.
pub fn checker_spiral(count: u32) -> (cells: Vec<(i32, i32)>)
    requires
        count <= i32::MAX,
    ensures
        cells@.len() == count,
        forall|i: int|
            0 <= i < count ==> (#[trigger] cells@[i]).0 == spiral_pos(i).0 && cells@[i].1
                == spiral_pos(i).1,
{
    let mut cells: Vec<(i32, i32)> = Vec::new();
    let mut index: u32 = 0;
    while index < count
        invariant
            index <= count <= i32::MAX,
            cells@.len() == index,
            forall|i: int|
                0 <= i < index ==> (#[trigger] cells@[i]).0 == spiral_pos(i).0 && cells@[i].1
                    == spiral_pos(i).1,
        decreases count - index,
    {
        let pos = checker_spiral_pos(index);
        cells.push(pos);
        index = index + 1;
    }
    cells
}

} // verus!
