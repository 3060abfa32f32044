use vstd::prelude::*;

use crate::model::{collides, sprite_bit, sprite_covers};
use crate::screen::{cell_index, SCREEN_CELLS, SCREEN_HEIGHT, SCREEN_WIDTH};

verus! {

/// Whether a set sprite bit that precedes row `h`, column `w` in drawing
/// order falls on display cell `cell`.
pub open spec fn covers_before(mem: Seq<u8>, i: int, vx: int, vy: int, h: int, w: int, cell: int) -> bool {
    exists|r: int, c: int|
        0 <= r && 0 <= c < 8 && (r < h || (r == h && c < w)) && #[trigger] sprite_bit(mem[i + r], c)
            && cell == cell_index((vx + c) % SCREEN_WIDTH as int, (vy + r) % SCREEN_HEIGHT as int)
}

/// Whether a lit cell of `screen` is among those covered before (`h`, `w`).
pub open spec fn hits_before(screen: Seq<bool>, mem: Seq<u8>, i: int, vx: int, vy: int, h: int, w: int) -> bool {
    exists|k: int| 0 <= k < screen.len() && #[trigger] screen[k] && covers_before(mem, i, vx, vy, h, w, k)
}

/// The display cell on which column `w` of sprite row `h` lands.
pub open spec fn target(vx: int, vy: int, h: int, w: int) -> int {
    cell_index((vx + w) % SCREEN_WIDTH as int, (vy + h) % SCREEN_HEIGHT as int)
}

/// Distinct grid positions have distinct row-major indices, all below `SCREEN_CELLS`.
pub proof fn lemma_cell_index(x1: int, y1: int, x2: int, y2: int)
    requires
        0 <= x1 < SCREEN_WIDTH,
        0 <= y1 < SCREEN_HEIGHT,
        0 <= x2 < SCREEN_WIDTH,
        0 <= y2 < SCREEN_HEIGHT,
    ensures
        0 <= cell_index(x1, y1) < SCREEN_CELLS,
        cell_index(x1, y1) == cell_index(x2, y2) ==> x1 == x2 && y1 == y2,
{
    assert(0 <= y1 * 64 + x1 < 2048) by (nonlinear_arith)
        requires
            0 <= x1 < 64,
            0 <= y1 < 32,
    ;
    assert(y1 * 64 + x1 == y2 * 64 + x2 ==> x1 == x2 && y1 == y2) by (nonlinear_arith)
        requires
            0 <= x1 < 64,
            0 <= y1 < 32,
            0 <= x2 < 64,
            0 <= y2 < 32,
    ;
}

/// Two offsets below `d <= m` from the same base agree modulo `m` only when equal.
pub proof fn lemma_offset_mod(a: int, c1: int, c2: int, d: int, m: int)
    requires
        0 <= a,
        0 <= c1 < d,
        0 <= c2 < d,
        0 < d <= m,
        (a + c1) % m == (a + c2) % m,
    ensures
        c1 == c2,
{
    vstd::arithmetic::div_mod::lemma_fundamental_div_mod(a + c1, m);
    vstd::arithmetic::div_mod::lemma_fundamental_div_mod(a + c2, m);
    let q1 = (a + c1) / m;
    let q2 = (a + c2) / m;
    assert(c1 - c2 == m * (q1 - q2)) by (nonlinear_arith)
        requires
            a + c1 == m * q1 + (a + c1) % m,
            a + c2 == m * q2 + (a + c2) % m,
            (a + c1) % m == (a + c2) % m,
    ;
    if q1 > q2 {
        assert(m * (q1 - q2) >= m) by (nonlinear_arith)
            requires
                q1 - q2 >= 1,
                m > 0,
        ;
    } else if q1 < q2 {
        assert(m * (q1 - q2) <= -m) by (nonlinear_arith)
            requires
                q2 - q1 >= 1,
                m > 0,
        ;
    } else {
        assert(m * (q1 - q2) == 0) by (nonlinear_arith)
            requires
                q1 == q2,
        ;
    }
}

/// The target of a bit lies on the display, and no earlier bit of the same
/// sprite lands on it.
pub proof fn lemma_target_fresh(mem: Seq<u8>, i: int, vx: int, vy: int, h: int, w: int)
    requires
        0 <= vx,
        0 <= vy,
        0 <= h < 16,
        0 <= w < 8,
    ensures
        0 <= target(vx, vy, h, w) < SCREEN_CELLS,
        !covers_before(mem, i, vx, vy, h, w, target(vx, vy, h, w)),
{
    let x = (vx + w) % 64;
    let y = (vy + h) % 32;
    lemma_cell_index(x, y, x, y);
    if covers_before(mem, i, vx, vy, h, w, target(vx, vy, h, w)) {
        let (r, c) = choose|r: int, c: int|
            0 <= r && 0 <= c < 8 && (r < h || (r == h && c < w)) && #[trigger] sprite_bit(mem[i + r], c)
                && target(vx, vy, h, w) == cell_index((vx + c) % SCREEN_WIDTH as int, (vy + r) % SCREEN_HEIGHT as int);
        lemma_cell_index((vx + c) % 64, (vy + r) % 32, x, y);
        lemma_offset_mod(vx, c, w, 8, 64);
        lemma_offset_mod(vy, r, h, 16, 32);
    }
}

/// Passing one column: the covered cells gain the target of that column's bit, if it is set.
pub proof fn lemma_covers_next(mem: Seq<u8>, i: int, vx: int, vy: int, h: int, w: int)
    requires
        0 <= h,
        0 <= w < 8,
    ensures
        forall|cell: int|
            #[trigger] covers_before(mem, i, vx, vy, h, w + 1, cell) == (covers_before(mem, i, vx, vy, h, w, cell)
                || (sprite_bit(mem[i + h], w) && cell == target(vx, vy, h, w))),
{
    assert forall|cell: int|
        #[trigger] covers_before(mem, i, vx, vy, h, w + 1, cell) == (covers_before(mem, i, vx, vy, h, w, cell)
            || (sprite_bit(mem[i + h], w) && cell == target(vx, vy, h, w))) by {
        if covers_before(mem, i, vx, vy, h, w + 1, cell) {
            let (r, c) = choose|r: int, c: int|
                0 <= r && 0 <= c < 8 && (r < h || (r == h && c < w + 1)) && #[trigger] sprite_bit(mem[i + r], c)
                    && cell == cell_index((vx + c) % SCREEN_WIDTH as int, (vy + r) % SCREEN_HEIGHT as int);
            if !(r == h && c == w) {
                assert(covers_before(mem, i, vx, vy, h, w, cell));
            }
        }
        if sprite_bit(mem[i + h], w) && cell == target(vx, vy, h, w) {
            assert(covers_before(mem, i, vx, vy, h, w + 1, cell));
        }
    }
}

/// The end of a row is the start of the next.
pub proof fn lemma_covers_row(mem: Seq<u8>, i: int, vx: int, vy: int, h: int)
    requires
        0 <= h,
    ensures
        forall|cell: int|
            #[trigger] covers_before(mem, i, vx, vy, h + 1, 0, cell) == covers_before(mem, i, vx, vy, h, 8, cell),
{
    assert forall|cell: int|
        #[trigger] covers_before(mem, i, vx, vy, h + 1, 0, cell) == covers_before(mem, i, vx, vy, h, 8, cell) by {
        if covers_before(mem, i, vx, vy, h + 1, 0, cell) {
            let (r, c) = choose|r: int, c: int|
                0 <= r && 0 <= c < 8 && (r < h + 1 || (r == h + 1 && c < 0)) && #[trigger] sprite_bit(mem[i + r], c)
                    && cell == cell_index((vx + c) % SCREEN_WIDTH as int, (vy + r) % SCREEN_HEIGHT as int);
            assert(covers_before(mem, i, vx, vy, h, 8, cell));
        }
        if covers_before(mem, i, vx, vy, h, 8, cell) {
            let (r, c) = choose|r: int, c: int|
                0 <= r && 0 <= c < 8 && (r < h || (r == h && c < 8)) && #[trigger] sprite_bit(mem[i + r], c)
                    && cell == cell_index((vx + c) % SCREEN_WIDTH as int, (vy + r) % SCREEN_HEIGHT as int);
            assert(covers_before(mem, i, vx, vy, h + 1, 0, cell));
        }
    }
}

/// Nothing precedes the first bit, and the bits before row `n` are the whole sprite.
pub proof fn lemma_covers_ends(mem: Seq<u8>, i: int, vx: int, vy: int, n: int)
    requires
        0 <= n,
    ensures
        forall|cell: int| !#[trigger] covers_before(mem, i, vx, vy, 0, 0, cell),
        forall|cell: int|
            #[trigger] covers_before(mem, i, vx, vy, n, 0, cell) == sprite_covers(mem, i, vx, vy, n, cell),
{
    assert forall|cell: int|
        #[trigger] covers_before(mem, i, vx, vy, n, 0, cell) == sprite_covers(mem, i, vx, vy, n, cell) by {
        if covers_before(mem, i, vx, vy, n, 0, cell) {
            let (r, c) = choose|r: int, c: int|
                0 <= r && 0 <= c < 8 && (r < n || (r == n && c < 0)) && #[trigger] sprite_bit(mem[i + r], c)
                    && cell == cell_index((vx + c) % SCREEN_WIDTH as int, (vy + r) % SCREEN_HEIGHT as int);
            assert(sprite_covers(mem, i, vx, vy, n, cell));
        }
        if sprite_covers(mem, i, vx, vy, n, cell) {
            let (r, c) = choose|r: int, c: int|
                0 <= r < n && 0 <= c < 8 && #[trigger] sprite_bit(mem[i + r], c) && cell == cell_index(
                    (vx + c) % SCREEN_WIDTH as int,
                    (vy + r) % SCREEN_HEIGHT as int,
                );
            assert(covers_before(mem, i, vx, vy, n, 0, cell));
        }
    }
}

/// Passing one column: a collision is found so far exactly when one was found
/// before, or this column's bit is set and its target is lit.
pub proof fn lemma_hits_next(screen: Seq<bool>, mem: Seq<u8>, i: int, vx: int, vy: int, h: int, w: int)
    requires
        screen.len() == SCREEN_CELLS,
        0 <= vx,
        0 <= vy,
        0 <= h < 16,
        0 <= w < 8,
    ensures
        hits_before(screen, mem, i, vx, vy, h, w + 1) == (hits_before(screen, mem, i, vx, vy, h, w)
            || (sprite_bit(mem[i + h], w) && screen[target(vx, vy, h, w)])),
{
    lemma_covers_next(mem, i, vx, vy, h, w);
    lemma_target_fresh(mem, i, vx, vy, h, w);
    let k0 = target(vx, vy, h, w);
    if hits_before(screen, mem, i, vx, vy, h, w + 1) {
        let k = choose|k: int|
            0 <= k < screen.len() && #[trigger] screen[k] && covers_before(mem, i, vx, vy, h, w + 1, k);
        if covers_before(mem, i, vx, vy, h, w, k) {
            assert(hits_before(screen, mem, i, vx, vy, h, w));
        }
    }
    if hits_before(screen, mem, i, vx, vy, h, w) {
        let k = choose|k: int|
            0 <= k < screen.len() && #[trigger] screen[k] && covers_before(mem, i, vx, vy, h, w, k);
        assert(covers_before(mem, i, vx, vy, h, w + 1, k));
        assert(hits_before(screen, mem, i, vx, vy, h, w + 1));
    }
    if sprite_bit(mem[i + h], w) && screen[k0] {
        assert(covers_before(mem, i, vx, vy, h, w + 1, k0));
        assert(hits_before(screen, mem, i, vx, vy, h, w + 1));
    }
}

/// Collisions found by the end of a row are those found by the start of the next,
/// none is found before the first bit, and those found before row `n` are the
/// collisions of the whole sprite.
pub proof fn lemma_hits_rows(screen: Seq<bool>, mem: Seq<u8>, i: int, vx: int, vy: int, n: int)
    requires
        0 <= n,
    ensures
        forall|h: int|
            0 <= h ==> #[trigger] hits_before(screen, mem, i, vx, vy, h + 1, 0) == hits_before(
                screen,
                mem,
                i,
                vx,
                vy,
                h,
                8,
            ),
        !hits_before(screen, mem, i, vx, vy, 0, 0),
        hits_before(screen, mem, i, vx, vy, n, 0) == collides(screen, mem, i, vx, vy, n),
{
    assert forall|h: int|
        0 <= h implies #[trigger] hits_before(screen, mem, i, vx, vy, h + 1, 0) == hits_before(
            screen,
            mem,
            i,
            vx,
            vy,
            h,
            8,
        ) by {
        lemma_covers_row(mem, i, vx, vy, h);
        if hits_before(screen, mem, i, vx, vy, h + 1, 0) {
            let k = choose|k: int|
                0 <= k < screen.len() && #[trigger] screen[k] && covers_before(mem, i, vx, vy, h + 1, 0, k);
            assert(covers_before(mem, i, vx, vy, h, 8, k));
        }
        if hits_before(screen, mem, i, vx, vy, h, 8) {
            let k = choose|k: int|
                0 <= k < screen.len() && #[trigger] screen[k] && covers_before(mem, i, vx, vy, h, 8, k);
            assert(covers_before(mem, i, vx, vy, h + 1, 0, k));
        }
    }
    lemma_covers_ends(mem, i, vx, vy, n);
    if hits_before(screen, mem, i, vx, vy, n, 0) {
        let k = choose|k: int|
            0 <= k < screen.len() && #[trigger] screen[k] && covers_before(mem, i, vx, vy, n, 0, k);
        assert(sprite_covers(mem, i, vx, vy, n, k));
    }
    if collides(screen, mem, i, vx, vy, n) {
        let k = choose|k: int|
            0 <= k < screen.len() && #[trigger] screen[k] && sprite_covers(mem, i, vx, vy, n, k);
        assert(covers_before(mem, i, vx, vy, n, 0, k));
    }
}

/// Painting one column keeps the display equal to the cells lit before plus
/// those covered so far.
pub proof fn lemma_paint_next(
    before: Seq<bool>,
    current: Seq<bool>,
    next: Seq<bool>,
    mem: Seq<u8>,
    i: int,
    vx: int,
    vy: int,
    h: int,
    w: int,
)
    requires
        before.len() == SCREEN_CELLS,
        current.len() == SCREEN_CELLS,
        0 <= vx,
        0 <= vy,
        0 <= h < 16,
        0 <= w < 8,
        forall|k: int|
            0 <= k < SCREEN_CELLS ==> current[k] == (before[k] || covers_before(mem, i, vx, vy, h, w, k)),
        sprite_bit(mem[i + h], w) ==> next == current.update(target(vx, vy, h, w), true),
        !sprite_bit(mem[i + h], w) ==> next == current,
    ensures
        next.len() == SCREEN_CELLS,
        forall|k: int|
            0 <= k < SCREEN_CELLS ==> next[k] == (before[k] || covers_before(mem, i, vx, vy, h, w + 1, k)),
{
    lemma_covers_next(mem, i, vx, vy, h, w);
    lemma_target_fresh(mem, i, vx, vy, h, w);
    assert forall|k: int| 0 <= k < SCREEN_CELLS implies next[k] == (before[k] || covers_before(
        mem,
        i,
        vx,
        vy,
        h,
        w + 1,
        k,
    )) by {
        assert(current[k] == (before[k] || covers_before(mem, i, vx, vy, h, w, k)));
        assert(covers_before(mem, i, vx, vy, h, w + 1, k) == (covers_before(mem, i, vx, vy, h, w, k)
            || (sprite_bit(mem[i + h], w) && k == target(vx, vy, h, w))));
    }
}

} // verus!
