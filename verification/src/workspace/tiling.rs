//! Where each window of a workspace goes under each layout.
use vstd::prelude::*;

use crate::action::Bounds;
use crate::screeninfo::ScreenSize;
use crate::workspace::workspace_layout::WorkspaceLayout;

verus! {

/// Window `i` of `n` side by side: equal widths, full height.
pub open spec fn vertical_bounds(s: ScreenSize, n: nat, i: nat) -> Bounds {
    Bounds {
        x: (s.ws_pos_x + (i * s.ws_width) / (n as int)) as i32,
        y: s.ws_pos_y,
        width: (s.ws_width as int / n as int) as u32,
        height: s.ws_height,
    }
}

/// Window `i` of `n` stacked: equal heights, full width.
pub open spec fn horizontal_bounds(s: ScreenSize, n: nat, i: nat) -> Bounds {
    Bounds {
        x: s.ws_pos_x,
        y: (s.ws_pos_y + (i * s.ws_height) / (n as int)) as i32,
        width: s.ws_width,
        height: (s.ws_height as int / n as int) as u32,
    }
}

/// The number of columns of the tiled layout: two windows to a column, and
/// with an odd number of windows the first one alone in the first column.
pub open spec fn tiled_columns(n: nat) -> nat {
    if n % 2 == 0 {
        n / 2
    } else {
        (n + 1) / 2
    }
}

/// The width of a column of the tiled layout.
pub open spec fn tiled_width(s: ScreenSize, n: nat) -> nat {
    s.ws_width as nat / tiled_columns(n)
}

/// The column of window `i` in the tiled layout.
pub open spec fn tiled_column(n: nat, i: nat) -> nat {
    if n % 2 == 0 {
        i / 2
    } else {
        (i + 1) / 2
    }
}

/// Whether window `i` takes the upper half of its column.
pub open spec fn tiled_upper(n: nat, i: nat) -> bool {
    if n % 2 == 0 {
        i % 2 == 0
    } else {
        i % 2 == 1
    }
}

/// Window `i` of `n` (not two) in the tiled layout.
pub open spec fn tiled_bounds(s: ScreenSize, n: nat, i: nat) -> Bounds {
    if n % 2 == 1 && i == 0 {
        Bounds {
            x: s.ws_pos_x,
            y: s.ws_pos_y,
            width: tiled_width(s, n) as u32,
            height: s.ws_height,
        }
    } else {
        Bounds {
            x: (s.ws_pos_x + tiled_width(s, n) * tiled_column(n, i)) as i32,
            y: if tiled_upper(n, i) {
                s.ws_pos_y
            } else {
                (s.ws_pos_y + s.ws_height / 2) as i32
            },
            width: tiled_width(s, n) as u32,
            height: (s.ws_height / 2) as u32,
        }
    }
}

/// Window `i` of `n` under `layout`; two tiled windows stand side by side.
pub open spec fn layout_bounds(layout: WorkspaceLayout, s: ScreenSize, n: nat, i: nat) -> Bounds {
    match layout {
        WorkspaceLayout::VerticalStriped => vertical_bounds(s, n, i),
        WorkspaceLayout::HorizontalStriped => horizontal_bounds(s, n, i),
        WorkspaceLayout::Tiled => if n == 2 {
            vertical_bounds(s, n, i)
        } else {
            tiled_bounds(s, n, i)
        },
    }
}

proof fn lemma_part_of_whole(i: nat, w: nat, n: nat)
    requires
        i < n,
    ensures
        i * w / n <= w,
        w / n <= w,
{
    assert(i * w <= n * w) by (nonlinear_arith)
        requires
            i < n,
    ;
    vstd::arithmetic::div_mod::lemma_div_is_ordered((i * w) as int, (n * w) as int, n as int);
    vstd::arithmetic::div_mod::lemma_div_by_multiple(w as int, n as int);
    assert(n * w == w * n) by (nonlinear_arith);
    vstd::arithmetic::div_mod::lemma_div_is_ordered_by_denominator(w as int, 1, n as int);
}

proof fn lemma_tiled_column_fits(s: ScreenSize, n: nat, i: nat)
    requires
        i < n,
        n != 2,
        !(n % 2 == 1 && i == 0),
    ensures
        tiled_width(s, n) * tiled_column(n, i) <= s.ws_width,
        tiled_column(n, i) < tiled_columns(n),
{
    let c = tiled_columns(n);
    let col = tiled_column(n, i);
    let w = tiled_width(s, n);
    assert(col < c);
    assert(c > 0);
    vstd::arithmetic::div_mod::lemma_fundamental_div_mod(s.ws_width as int, c as int);
    assert(w * c <= s.ws_width) by (nonlinear_arith)
        requires
            s.ws_width as int == c * (s.ws_width as int / c as int) + (s.ws_width as int % c as int),
            0 <= s.ws_width as int % c as int,
            w == s.ws_width as int / c as int,
    ;
    assert(w * col <= w * c) by (nonlinear_arith)
        requires
            col < c,
    ;
}

/// Where window `i` of `n` goes under `layout`.
pub fn compute_bounds(layout: WorkspaceLayout, s: &ScreenSize, n: usize, i: usize) -> (b: Bounds)
    requires
        s.wf(),
        i < n,
        n <= u32::MAX,
    ensures
        b == layout_bounds(layout, *s, n as nat, i as nat),
{
    let tiled_pair = match layout {
        WorkspaceLayout::Tiled => n == 2,
        _ => false,
    };
    match layout {
        WorkspaceLayout::VerticalStriped => vertical(s, n, i),
        WorkspaceLayout::HorizontalStriped => horizontal(s, n, i),
        WorkspaceLayout::Tiled => if tiled_pair {
            vertical(s, n, i)
        } else {
            tiled(s, n, i)
        },
    }
}

fn vertical(s: &ScreenSize, n: usize, i: usize) -> (b: Bounds)
    requires
        s.wf(),
        i < n,
        n <= u32::MAX,
    ensures
        b == vertical_bounds(*s, n as nat, i as nat),
{
    proof {
        lemma_part_of_whole(i as nat, s.ws_width as nat, n as nat);
    }
    assert((i as u64) * (s.ws_width as u64) <= u64::MAX) by (nonlinear_arith)
        requires
            i <= u32::MAX,
            s.ws_width <= u32::MAX,
    ;
    let offset = (i as u64) * (s.ws_width as u64) / (n as u64);
    let width = (s.ws_width as u64) / (n as u64);
    Bounds { x: (offset as i32) + s.ws_pos_x, y: s.ws_pos_y, width: width as u32, height: s.ws_height }
}

fn horizontal(s: &ScreenSize, n: usize, i: usize) -> (b: Bounds)
    requires
        s.wf(),
        i < n,
        n <= u32::MAX,
    ensures
        b == horizontal_bounds(*s, n as nat, i as nat),
{
    proof {
        lemma_part_of_whole(i as nat, s.ws_height as nat, n as nat);
    }
    assert((i as u64) * (s.ws_height as u64) <= u64::MAX) by (nonlinear_arith)
        requires
            i <= u32::MAX,
            s.ws_height <= u32::MAX,
    ;
    let offset = (i as u64) * (s.ws_height as u64) / (n as u64);
    let height = (s.ws_height as u64) / (n as u64);
    Bounds { x: s.ws_pos_x, y: (offset as i32) + s.ws_pos_y, width: s.ws_width, height: height as u32 }
}

fn tiled(s: &ScreenSize, n: usize, i: usize) -> (b: Bounds)
    requires
        s.wf(),
        i < n,
        n <= u32::MAX,
        n != 2,
    ensures
        b == tiled_bounds(*s, n as nat, i as nat),
{
    let even_amount = n % 2 == 0;
    let columns: u32 = if even_amount {
        (n / 2) as u32
    } else {
        (n / 2 + 1) as u32
    };
    assert(columns as nat == tiled_columns(n as nat));
    let window_width = s.ws_width / columns;
    let window_height = s.ws_height / 2;
    if !even_amount && i == 0 {
        return Bounds { x: s.ws_pos_x, y: s.ws_pos_y, width: window_width, height: s.ws_height };
    }
    let col: u32 = if even_amount {
        (i / 2) as u32
    } else {
        ((i + 1) / 2) as u32
    };
    let is_upper_row = if even_amount {
        i % 2 == 0
    } else {
        i % 2 == 1
    };
    proof {
        lemma_tiled_column_fits(*s, n as nat, i as nat);
    }
    let x: u32 = s.ws_pos_x as u32 + window_width * col;
    let y: u32 = if is_upper_row {
        s.ws_pos_y as u32
    } else {
        s.ws_pos_y as u32 + window_height
    };
    Bounds { x: x as i32, y: y as i32, width: window_width, height: window_height }
}

/// The tiled layout of any number of windows but two splits the workspace
/// into ⌈n/2⌉ columns of equal width. Counting the windows two to a column
/// in order, the upper half before the lower one, with an odd count the
/// first window takes its column whole and the others follow it: window `i`
/// is slot `k` (`i`, or `i + 1` after a lone first window), in column
/// `k / 2`, in the upper half when `k` is even.
#[verifier::spinoff_prover]
pub proof fn lemma_tiled_columns_in_order(s: ScreenSize, n: nat, i: nat)
    requires
        s.wf(),
        n != 2,
        i < n,
    ensures
        ({
            let w = s.ws_width as int / ((n as int + 1) / 2);
            let b = layout_bounds(WorkspaceLayout::Tiled, s, n, i);
            let k: int = if n % 2 == 0 { i as int } else { i as int + 1 };
            if n % 2 == 1 && i == 0 {
                &&& b.x == s.ws_pos_x
                &&& b.y == s.ws_pos_y
                &&& b.width as int == w
                &&& b.height == s.ws_height
            } else {
                &&& b.x as int == s.ws_pos_x + (k / 2) * w
                &&& b.y as int == s.ws_pos_y + (k % 2) * (s.ws_height / 2)
                &&& b.width as int == w
                &&& b.height as int == s.ws_height / 2
            }
        }),
{
    let c = tiled_columns(n);
    assert(c == (n + 1) / 2);
    assert(c > 0);
    let w = tiled_width(s, n);
    vstd::arithmetic::div_mod::lemma_div_is_ordered_by_denominator(s.ws_width as int, 1, c as int);
    assert(w <= s.ws_width);
    if !(n % 2 == 1 && i == 0) {
        lemma_tiled_column_fits(s, n, i);
        let k: int = if n % 2 == 0 { i as int } else { i as int + 1 };
        let col = tiled_column(n, i);
        assert(col == k / 2);
        assert(w * col == (k / 2) * w) by (nonlinear_arith)
            requires
                col == k / 2,
        ;
        assert(tiled_upper(n, i) <==> k % 2 == 0);
        assert(s.ws_height / 2 <= s.ws_height);
        if k % 2 == 0 {
            assert((k % 2) * (s.ws_height / 2) == 0) by (nonlinear_arith)
                requires
                    k % 2 == 0,
            ;
        } else {
            assert((k % 2) * (s.ws_height / 2) == s.ws_height / 2) by (nonlinear_arith)
                requires
                    k % 2 == 1,
            ;
        }
    }
}

/// No two windows of a tiled layout (of any number of windows but two) get
/// the same place, so long as each column is at least a pixel wide and the
/// workspace at least two pixels high.
#[verifier::spinoff_prover]
pub proof fn lemma_tiled_places_differ(s: ScreenSize, n: nat, i: nat, j: nat)
    requires
        s.wf(),
        n != 2,
        i < n,
        j < n,
        i != j,
        s.ws_width >= (n + 1) / 2,
        s.ws_height >= 2,
    ensures
        layout_bounds(WorkspaceLayout::Tiled, s, n, i) != layout_bounds(
            WorkspaceLayout::Tiled,
            s,
            n,
            j,
        ),
{
    lemma_tiled_columns_in_order(s, n, i);
    lemma_tiled_columns_in_order(s, n, j);
    let bi = layout_bounds(WorkspaceLayout::Tiled, s, n, i);
    let bj = layout_bounds(WorkspaceLayout::Tiled, s, n, j);
    let c = (n as int + 1) / 2;
    let w = s.ws_width as int / c;
    vstd::arithmetic::div_mod::lemma_div_is_ordered(c, s.ws_width as int, c);
    vstd::arithmetic::div_mod::lemma_div_by_self(c);
    assert(w >= 1);
    if n % 2 == 1 && (i == 0 || j == 0) {
        assert(bi.height != bj.height);
    } else {
        let ki: int = if n % 2 == 0 { i as int } else { i as int + 1 };
        let kj: int = if n % 2 == 0 { j as int } else { j as int + 1 };
        assert(ki != kj);
        if ki / 2 != kj / 2 {
            assert((ki / 2) * w != (kj / 2) * w) by (nonlinear_arith)
                requires
                    ki / 2 != kj / 2,
                    w >= 1,
            ;
            assert(bi.x != bj.x);
        } else {
            assert(ki % 2 != kj % 2);
            assert(bi.y != bj.y);
        }
    }
}

/// Rounding down two parts separately gives no more than rounding down
/// their sum.
proof fn lemma_floor_sum(a: int, b: int, d: int)
    requires
        a >= 0,
        b >= 0,
        d > 0,
    ensures
        a / d + b / d <= (a + b) / d,
{
    vstd::arithmetic::div_mod::lemma_fundamental_div_mod(a, d);
    vstd::arithmetic::div_mod::lemma_fundamental_div_mod(b, d);
    vstd::arithmetic::div_mod::lemma_fundamental_div_mod(a + b, d);
    vstd::arithmetic::div_mod::lemma_mod_pos_bound(a, d);
    vstd::arithmetic::div_mod::lemma_mod_pos_bound(b, d);
    vstd::arithmetic::div_mod::lemma_mod_pos_bound(a + b, d);
    let (qa, qb, q) = (a / d, b / d, (a + b) / d);
    let (ra, rb, r) = (a % d, b % d, (a + b) % d);
    assert(qa + qb <= q) by (nonlinear_arith)
        requires
            a == d * qa + ra,
            b == d * qb + rb,
            a + b == d * q + r,
            0 <= ra,
            0 <= rb,
            0 <= r < d,
            d > 0,
    ;
}

/// Stripe `i` of `n` ends no later than stripe `j` starts when `i < j`, and
/// the last one ends within the whole length `len`.
proof fn lemma_stripes_ordered(len: nat, n: nat, i: nat, j: nat)
    requires
        i < j < n,
    ensures
        (i * len) as int / (n as int) + len as int / (n as int) <= (j * len) as int / (n as int),
        (j * len) as int / (n as int) + len as int / (n as int) <= len,
{
    let d = n as int;
    lemma_floor_sum((i * len) as int, len as int, d);
    assert(i * len + len == (i + 1) * len) by (nonlinear_arith);
    assert((i + 1) * len <= j * len) by (nonlinear_arith)
        requires
            i + 1 <= j,
    ;
    vstd::arithmetic::div_mod::lemma_div_is_ordered((i * len + len) as int, (j * len) as int, d);
    lemma_floor_sum((j * len) as int, len as int, d);
    assert(j * len + len <= n * len) by (nonlinear_arith)
        requires
            j + 1 <= n,
    ;
    vstd::arithmetic::div_mod::lemma_div_is_ordered((j * len + len) as int, (n * len) as int, d);
    vstd::arithmetic::div_mod::lemma_div_by_multiple(len as int, d);
    assert(n * len == len * n) by (nonlinear_arith);
}

/// The vertical layout puts the windows side by side from left to right,
/// each of the full height and a `1/n` share of the width, none overlapping
/// the next and all within the workspace; the horizontal layout stacks them
/// from top to bottom in the same way. The tiled layout of two windows is
/// the vertical one.
#[verifier::spinoff_prover]
pub proof fn lemma_stripes_in_order(s: ScreenSize, n: nat, i: nat, j: nat)
    requires
        s.wf(),
        i < j < n,
    ensures
        ({
            let vi = layout_bounds(WorkspaceLayout::VerticalStriped, s, n, i);
            let vj = layout_bounds(WorkspaceLayout::VerticalStriped, s, n, j);
            &&& vi.y == s.ws_pos_y && vi.height == s.ws_height
            &&& vi.width as int == s.ws_width as int / (n as int)
            &&& vi.x as int + vi.width <= vj.x as int
            &&& vj.x as int + vj.width <= s.ws_pos_x + s.ws_width
        }),
        ({
            let hi = layout_bounds(WorkspaceLayout::HorizontalStriped, s, n, i);
            let hj = layout_bounds(WorkspaceLayout::HorizontalStriped, s, n, j);
            &&& hi.x == s.ws_pos_x && hi.width == s.ws_width
            &&& hi.height as int == s.ws_height as int / (n as int)
            &&& hi.y as int + hi.height <= hj.y as int
            &&& hj.y as int + hj.height <= s.ws_pos_y + s.ws_height
        }),
        layout_bounds(WorkspaceLayout::VerticalStriped, s, n, 0).x == s.ws_pos_x,
        layout_bounds(WorkspaceLayout::HorizontalStriped, s, n, 0).y == s.ws_pos_y,
        layout_bounds(WorkspaceLayout::Tiled, s, 2, 0) == layout_bounds(
            WorkspaceLayout::VerticalStriped,
            s,
            2,
            0,
        ),
        layout_bounds(WorkspaceLayout::Tiled, s, 2, 1) == layout_bounds(
            WorkspaceLayout::VerticalStriped,
            s,
            2,
            1,
        ),
{
    let w = s.ws_width as nat;
    let h = s.ws_height as nat;
    lemma_part_of_whole(i, w, n);
    lemma_part_of_whole(j, w, n);
    lemma_part_of_whole(i, h, n);
    lemma_part_of_whole(j, h, n);
    lemma_stripes_ordered(w, n, i, j);
    lemma_stripes_ordered(h, n, i, j);
    assert(0 * w == 0);
    assert(0 * h == 0);
}

} // verus!
