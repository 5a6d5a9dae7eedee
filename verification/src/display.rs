use vstd::arithmetic::div_mod::{lemma_mod_bound, lemma_mod_equivalence, lemma_small_mod};
use vstd::prelude::*;

verus! {

/// Width of the pixel buffer, in pixels.
pub const WIDTH: usize = 64;

/// Height of the pixel buffer, in pixels.
pub const HEIGHT: usize = 32;

/// Index into the flat, row-major pixel buffer of the pixel at column `x`
/// and row `y`; both coordinates wrap.
pub open spec fn spec_to_index(x: int, y: int) -> int {
    64 * (y % 32) + (x % 64)
}

/// Whether bit `i` of sprite row `row` is set, counting from the most
/// significant bit.
pub open spec fn spec_row_bit(row: u8, i: int) -> bool {
    (row >> ((7 - i) as u8)) & 1 == 1
}

/// Whether some set bit of the sprite whose rows are `rows`, drawn at
/// `(x, y)`, lands on buffer index `idx`.
pub open spec fn spec_hit(x: u8, y: u8, rows: Seq<u8>, idx: int) -> bool {
    exists|j: int, i: int|
        #![trigger spec_to_index(x + i, y + j)]
        0 <= j < rows.len() && 0 <= i < 8 && spec_row_bit(rows[j], i) && spec_to_index(
            x + i,
            y + j,
        ) == idx
}

/// Whether drawing the sprite `rows` at `(x, y)` onto the buffer `pix`
/// flips some pixel from set to unset.
pub open spec fn spec_collision(pix: Seq<bool>, x: u8, y: u8, rows: Seq<u8>) -> bool {
    exists|j: int, i: int|
        #![trigger spec_to_index(x + i, y + j)]
        0 <= j < rows.len() && 0 <= i < 8 && spec_row_bit(rows[j], i) && pix[spec_to_index(
            x + i,
            y + j,
        )]
}

/// The buffer after XOR-blitting the sprite `rows` at `(x, y)` onto `pix`:
/// every pixel that a set sprite bit lands on is toggled, every other pixel
/// keeps its value.
pub open spec fn spec_blit(pix: Seq<bool>, x: u8, y: u8, rows: Seq<u8>) -> Seq<bool> {
    Seq::new(
        pix.len(),
        |idx: int|
            if spec_hit(x, y, rows, idx) {
                !pix[idx]
            } else {
                pix[idx]
            },
    )
}

/// Whether the sprite-bit position `(j2, i2)` comes strictly before
/// `(j1, i1)` in the row-major order a blit walks the bits in.
spec fn spec_before(j2: int, i2: int, j1: int, i1: int) -> bool {
    j2 < j1 || (j2 == j1 && i2 < i1)
}

/// Whether some set sprite bit strictly before position `(jd, id)` lands on
/// buffer index `idx`.
spec fn spec_hit_upto(x: u8, y: u8, rows: Seq<u8>, jd: int, id: int, idx: int) -> bool {
    exists|j: int, i: int|
        #![trigger spec_to_index(x + i, y + j)]
        0 <= j < rows.len() && 0 <= i < 8 && spec_before(j, i, jd, id) && spec_row_bit(rows[j], i)
            && spec_to_index(x + i, y + j) == idx
}

/// Whether some set sprite bit strictly before position `(jd, id)` lands on
/// a set pixel of `pix`.
spec fn spec_coll_upto(pix: Seq<bool>, x: u8, y: u8, rows: Seq<u8>, jd: int, id: int) -> bool {
    exists|j: int, i: int|
        #![trigger spec_to_index(x + i, y + j)]
        0 <= j < rows.len() && 0 <= i < 8 && spec_before(j, i, jd, id) && spec_row_bit(rows[j], i)
            && pix[spec_to_index(x + i, y + j)]
}

/// A wrapped pixel index always lies inside the buffer.
proof fn lemma_index_bounds(x: int, y: int)
    ensures
        0 <= spec_to_index(x, y) < 2048,
{
    lemma_mod_bound(x, 64);
    lemma_mod_bound(y, 32);
}

/// Distinct bit positions of one sprite land on distinct buffer indices,
/// as long as the sprite has at most 32 rows and 8 columns.
proof fn lemma_index_distinct(x: int, y: int, j1: int, i1: int, j2: int, i2: int)
    requires
        0 <= x,
        0 <= y,
        0 <= j1 < 32,
        0 <= i1 < 8,
        0 <= j2 < 32,
        0 <= i2 < 8,
        j1 != j2 || i1 != i2,
    ensures
        spec_to_index(x + i1, y + j1) != spec_to_index(x + i2, y + j2),
{
    let c1 = (x + i1) % 64;
    let r1 = (y + j1) % 32;
    let c2 = (x + i2) % 64;
    let r2 = (y + j2) % 32;
    lemma_mod_bound(x + i1, 64);
    lemma_mod_bound(x + i2, 64);
    lemma_mod_bound(y + j1, 32);
    lemma_mod_bound(y + j2, 32);
    if 64 * r1 + c1 == 64 * r2 + c2 {
        assert(r1 == r2 && c1 == c2);
        if i1 != i2 {
            lemma_mod_equivalence(x + i1, x + i2, 64);
            lemma_mod_equivalence(x + i2, x + i1, 64);
            if i1 > i2 {
                lemma_small_mod((i1 - i2) as nat, 64);
            } else {
                lemma_small_mod((i2 - i1) as nat, 64);
            }
        } else {
            lemma_mod_equivalence(y + j1, y + j2, 32);
            lemma_mod_equivalence(y + j2, y + j1, 32);
            if j1 > j2 {
                lemma_small_mod((j1 - j2) as nat, 32);
            } else {
                lemma_small_mod((j2 - j1) as nat, 32);
            }
        }
    }
}

/// The 64-by-32 monochrome pixel buffer that sprites are XOR-blitted onto.
/// Publishing a frame to a window is the driver's business; the buffer only
/// records pixel state.
#[derive(Debug)]
pub struct FrameBuffer {
    /// Row-major pixels; `true` is lit.
    pub pixels: Vec<bool>,
}

impl FrameBuffer {
    /// The buffer holds exactly one value per pixel.
    pub open spec fn wf(&self) -> bool {
        self.pixels@.len() == 2048
    }

    /// A blank buffer.
    pub fn new() -> (r: FrameBuffer)
        ensures
            r.wf(),
            forall|k: int| 0 <= k < 2048 ==> !r.pixels@[k],
    {
        let mut pixels: Vec<bool> = Vec::new();
        let mut k: usize = 0;
        while k < 2048
            invariant
                k <= 2048,
                pixels@.len() == k,
                forall|m: int| 0 <= m < k ==> !pixels@[m],
            decreases 2048 - k,
        {
            pixels.push(false);
            k = k + 1;
        }
        FrameBuffer { pixels }
    }

    /// Switch every pixel off.
    pub fn clear(&mut self)
        requires
            old(self).wf(),
        ensures
            final(self).wf(),
            forall|k: int| 0 <= k < 2048 ==> !final(self).pixels@[k],
    {
        let mut k: usize = 0;
        while k < 2048
            invariant
                k <= 2048,
                self.pixels@.len() == 2048,
                forall|m: int| 0 <= m < k ==> !self.pixels@[m],
            decreases 2048 - k,
        {
            self.pixels.set(k, false);
            k = k + 1;
        }
    }

    /// XOR-blit a sprite at `(x, y)`: each row is one byte, bit 7 leftmost;
    /// set bits toggle the pixel they land on, wrapping on both axes.
    /// Reports whether any pixel flipped from set to unset.
    pub fn set_pixels(&mut self, x: u8, y: u8, rows: &Vec<u8>) -> (collision: bool)
        requires
            old(self).wf(),
            rows@.len() <= 32,
        ensures
            final(self).wf(),
            final(self).pixels@ == spec_blit(old(self).pixels@, x, y, rows@),
            collision == spec_collision(old(self).pixels@, x, y, rows@),
    {
        let ghost pre = self.pixels@;
        let ghost rs = rows@;
        let mut collision = false;
        let num_bytes = rows.len();
        let mut j: usize = 0;
        while j < num_bytes
            invariant
                self.pixels@.len() == 2048,
                pre.len() == 2048,
                rs == rows@,
                rs.len() <= 32,
                num_bytes == rs.len(),
                j <= num_bytes,
                forall|idx: int|
                    0 <= idx < 2048 ==> self.pixels@[idx] == (if spec_hit_upto(
                        x,
                        y,
                        rs,
                        j as int,
                        0,
                        idx,
                    ) {
                        !pre[idx]
                    } else {
                        pre[idx]
                    }),
                collision == spec_coll_upto(pre, x, y, rs, j as int, 0),
            decreases num_bytes - j,
        {
            let row = rows[j];
            let mut i: usize = 0;
            while i < 8
                invariant
                    self.pixels@.len() == 2048,
                    pre.len() == 2048,
                    rs == rows@,
                    rs.len() <= 32,
                    num_bytes == rs.len(),
                    j < num_bytes,
                    i <= 8,
                    row == rs[j as int],
                    forall|idx: int|
                        0 <= idx < 2048 ==> self.pixels@[idx] == (if spec_hit_upto(
                            x,
                            y,
                            rs,
                            j as int,
                            i as int,
                            idx,
                        ) {
                            !pre[idx]
                        } else {
                            pre[idx]
                        }),
                    collision == spec_coll_upto(pre, x, y, rs, j as int, i as int),
                decreases 8 - i,
            {
                let k: u8 = i as u8;
                let filter: u8 = 0x80u8 >> k;
                let ghost jj = j as int;
                let ghost ii = i as int;
                proof {
                    assert((row & (0x80u8 >> k) == (0x80u8 >> k)) == ((row >> ((7 - k) as u8)) & 1
                        == 1)) by (bit_vector)
                        requires
                            k < 8,
                    ;
                }
                if row & filter == filter {
                    proof {
                        assert(spec_row_bit(rs[jj], ii));
                    }
                    let xi = (x as usize + i) % 64;
                    let yj = (y as usize + j) % 32;
                    let index = 64 * yj + xi;
                    proof {
                        lemma_index_bounds(x + ii, y + jj);
                        assert(index == spec_to_index(x + ii, y + jj));
                        // No earlier sprite bit landed on this index.
                        assert(!spec_hit_upto(x, y, rs, jj, ii, index as int)) by {
                            if spec_hit_upto(x, y, rs, jj, ii, index as int) {
                                let (j2, i2): (int, int) = choose|j2: int, i2: int|
                                    #![trigger spec_to_index(x + i2, y + j2)]
                                    0 <= j2 < rs.len() && 0 <= i2 < 8 && spec_before(j2, i2, jj, ii)
                                        && spec_row_bit(rs[j2], i2) && spec_to_index(
                                        x + i2,
                                        y + j2,
                                    ) == index;
                                lemma_index_distinct(x as int, y as int, j2, i2, jj, ii);
                            }
                        }
                    }
                    let cur = self.pixels[index];
                    if cur {
                        collision = true;
                    }
                    self.pixels.set(index, !cur);
                    proof {
                        assert(cur == pre[index as int]);
                        assert forall|idx: int| 0 <= idx < 2048 implies self.pixels@[idx] == (
                        if spec_hit_upto(x, y, rs, jj, ii + 1, idx) {
                            !pre[idx]
                        } else {
                            pre[idx]
                        }) by {
                            if idx == index {
                                assert(spec_hit_upto(x, y, rs, jj, ii + 1, idx)) by {
                                    assert(spec_before(jj, ii, jj, ii + 1) && spec_row_bit(
                                        rs[jj],
                                        ii,
                                    ) && spec_to_index(x + ii, y + jj) == idx);
                                }
                            } else {
                                assert(spec_hit_upto(x, y, rs, jj, ii + 1, idx) == spec_hit_upto(
                                    x,
                                    y,
                                    rs,
                                    jj,
                                    ii,
                                    idx,
                                )) by {
                                    if spec_hit_upto(x, y, rs, jj, ii + 1, idx) {
                                        let (j2, i2): (int, int) = choose|j2: int, i2: int|
                                            #![trigger spec_to_index(x + i2, y + j2)]
                                            0 <= j2 < rs.len() && 0 <= i2 < 8 && spec_before(
                                                j2,
                                                i2,
                                                jj,
                                                ii + 1,
                                            ) && spec_row_bit(rs[j2], i2) && spec_to_index(
                                                x + i2,
                                                y + j2,
                                            ) == idx;
                                        assert(j2 != jj || i2 != ii);
                                        assert(spec_before(j2, i2, jj, ii));
                                    }
                                }
                            }
                        }
                        assert(collision == spec_coll_upto(pre, x, y, rs, jj, ii + 1)) by {
                            if cur {
                                assert(pre[spec_to_index(x + ii, y + jj)]);
                                assert(spec_coll_upto(pre, x, y, rs, jj, ii + 1));
                            } else {
                                if spec_coll_upto(pre, x, y, rs, jj, ii + 1) {
                                    let (j2, i2): (int, int) = choose|j2: int, i2: int|
                                        #![trigger spec_to_index(x + i2, y + j2)]
                                        0 <= j2 < rs.len() && 0 <= i2 < 8 && spec_before(
                                            j2,
                                            i2,
                                            jj,
                                            ii + 1,
                                        ) && spec_row_bit(rs[j2], i2) && pre[spec_to_index(
                                            x + i2,
                                            y + j2,
                                        )];
                                    if j2 == jj && i2 == ii {
                                        assert(false);
                                    } else {
                                        assert(spec_before(j2, i2, jj, ii));
                                        assert(spec_coll_upto(pre, x, y, rs, jj, ii));
                                    }
                                }
                            }
                        }
                    }
                } else {
                    proof {
                        assert(!spec_row_bit(rs[jj], ii));
                        assert forall|idx: int|
                            spec_hit_upto(x, y, rs, jj, ii + 1, idx) == spec_hit_upto(
                                x,
                                y,
                                rs,
                                jj,
                                ii,
                                idx,
                            ) by {
                            if spec_hit_upto(x, y, rs, jj, ii + 1, idx) {
                                let (j2, i2): (int, int) = choose|j2: int, i2: int|
                                    #![trigger spec_to_index(x + i2, y + j2)]
                                    0 <= j2 < rs.len() && 0 <= i2 < 8 && spec_before(
                                        j2,
                                        i2,
                                        jj,
                                        ii + 1,
                                    ) && spec_row_bit(rs[j2], i2) && spec_to_index(x + i2, y + j2)
                                        == idx;
                                assert(j2 != jj || i2 != ii);
                                assert(spec_before(j2, i2, jj, ii));
                            }
                        }
                        assert(spec_coll_upto(pre, x, y, rs, jj, ii + 1) == spec_coll_upto(
                            pre,
                            x,
                            y,
                            rs,
                            jj,
                            ii,
                        )) by {
                            if spec_coll_upto(pre, x, y, rs, jj, ii + 1) {
                                let (j2, i2): (int, int) = choose|j2: int, i2: int|
                                    #![trigger spec_to_index(x + i2, y + j2)]
                                    0 <= j2 < rs.len() && 0 <= i2 < 8 && spec_before(
                                        j2,
                                        i2,
                                        jj,
                                        ii + 1,
                                    ) && spec_row_bit(rs[j2], i2) && pre[spec_to_index(
                                        x + i2,
                                        y + j2,
                                    )];
                                assert(j2 != jj || i2 != ii);
                                assert(spec_before(j2, i2, jj, ii));
                            }
                        }
                    }
                }
                i = i + 1;
            }
            proof {
                let jj = j as int;
                assert forall|idx: int|
                    spec_hit_upto(x, y, rs, jj, 8, idx) == spec_hit_upto(
                        x,
                        y,
                        rs,
                        jj + 1,
                        0,
                        idx,
                    ) by {
                    if spec_hit_upto(x, y, rs, jj, 8, idx) {
                        let (j2, i2): (int, int) = choose|j2: int, i2: int|
                            #![trigger spec_to_index(x + i2, y + j2)]
                            0 <= j2 < rs.len() && 0 <= i2 < 8 && spec_before(j2, i2, jj, 8)
                                && spec_row_bit(rs[j2], i2) && spec_to_index(x + i2, y + j2) == idx;
                        assert(spec_before(j2, i2, jj + 1, 0));
                    }
                    if spec_hit_upto(x, y, rs, jj + 1, 0, idx) {
                        let (j2, i2): (int, int) = choose|j2: int, i2: int|
                            #![trigger spec_to_index(x + i2, y + j2)]
                            0 <= j2 < rs.len() && 0 <= i2 < 8 && spec_before(j2, i2, jj + 1, 0)
                                && spec_row_bit(rs[j2], i2) && spec_to_index(x + i2, y + j2) == idx;
                        assert(spec_before(j2, i2, jj, 8));
                    }
                }
                assert(spec_coll_upto(pre, x, y, rs, jj, 8) == spec_coll_upto(
                    pre,
                    x,
                    y,
                    rs,
                    jj + 1,
                    0,
                )) by {
                    if spec_coll_upto(pre, x, y, rs, jj, 8) {
                        let (j2, i2): (int, int) = choose|j2: int, i2: int|
                            #![trigger spec_to_index(x + i2, y + j2)]
                            0 <= j2 < rs.len() && 0 <= i2 < 8 && spec_before(j2, i2, jj, 8)
                                && spec_row_bit(rs[j2], i2) && pre[spec_to_index(x + i2, y + j2)];
                        assert(spec_before(j2, i2, jj + 1, 0));
                    }
                    if spec_coll_upto(pre, x, y, rs, jj + 1, 0) {
                        let (j2, i2): (int, int) = choose|j2: int, i2: int|
                            #![trigger spec_to_index(x + i2, y + j2)]
                            0 <= j2 < rs.len() && 0 <= i2 < 8 && spec_before(j2, i2, jj + 1, 0)
                                && spec_row_bit(rs[j2], i2) && pre[spec_to_index(x + i2, y + j2)];
                        assert(spec_before(j2, i2, jj, 8));
                    }
                }
            }
            j = j + 1;
        }
        proof {
            let jd = rs.len() as int;
            assert forall|idx: int| spec_hit_upto(x, y, rs, jd, 0, idx) == spec_hit(
                x,
                y,
                rs,
                idx,
            ) by {
                if spec_hit_upto(x, y, rs, jd, 0, idx) {
                    let (j2, i2): (int, int) = choose|j2: int, i2: int|
                        #![trigger spec_to_index(x + i2, y + j2)]
                        0 <= j2 < rs.len() && 0 <= i2 < 8 && spec_before(j2, i2, jd, 0)
                            && spec_row_bit(rs[j2], i2) && spec_to_index(x + i2, y + j2) == idx;
                    assert(spec_hit(x, y, rs, idx));
                }
                if spec_hit(x, y, rs, idx) {
                    let (j2, i2): (int, int) = choose|j2: int, i2: int|
                        #![trigger spec_to_index(x + i2, y + j2)]
                        0 <= j2 < rs.len() && 0 <= i2 < 8 && spec_row_bit(rs[j2], i2)
                            && spec_to_index(x + i2, y + j2) == idx;
                    assert(spec_before(j2, i2, jd, 0));
                }
            }
            assert(spec_coll_upto(pre, x, y, rs, jd, 0) == spec_collision(pre, x, y, rs)) by {
                if spec_coll_upto(pre, x, y, rs, jd, 0) {
                    let (j2, i2): (int, int) = choose|j2: int, i2: int|
                        #![trigger spec_to_index(x + i2, y + j2)]
                        0 <= j2 < rs.len() && 0 <= i2 < 8 && spec_before(j2, i2, jd, 0)
                            && spec_row_bit(rs[j2], i2) && pre[spec_to_index(x + i2, y + j2)];
                    assert(spec_collision(pre, x, y, rs));
                }
                if spec_collision(pre, x, y, rs) {
                    let (j2, i2): (int, int) = choose|j2: int, i2: int|
                        #![trigger spec_to_index(x + i2, y + j2)]
                        0 <= j2 < rs.len() && 0 <= i2 < 8 && spec_row_bit(rs[j2], i2)
                            && pre[spec_to_index(x + i2, y + j2)];
                    assert(spec_before(j2, i2, jd, 0));
                }
            }
            assert(self.pixels@ =~= spec_blit(pre, x, y, rs));
        }
        collision
    }
}

/// Drawing one sprite at the same coordinates twice restores every pixel:
/// the XOR blit is an involution.
pub proof fn lemma_blit_involutive(pix: Seq<bool>, x: u8, y: u8, rows: Seq<u8>)
    ensures
        spec_blit(spec_blit(pix, x, y, rows), x, y, rows) == pix,
{
    let once = spec_blit(pix, x, y, rows);
    let twice = spec_blit(once, x, y, rows);
    assert forall|idx: int| 0 <= idx < pix.len() implies twice[idx] == pix[idx] by {
        if spec_hit(x, y, rows, idx) {
            assert(twice[idx] == !once[idx]);
        }
    }
    assert(twice =~= pix);
}

/// If the first of two identical draws reports no collision, the second
/// reports one exactly when the sprite has any set bit at all.
pub proof fn lemma_second_draw_collides(pix: Seq<bool>, x: u8, y: u8, rows: Seq<u8>)
    requires
        pix.len() == 2048,
        !spec_collision(pix, x, y, rows),
    ensures
        spec_collision(spec_blit(pix, x, y, rows), x, y, rows) == (exists|j: int, i: int|
            0 <= j < rows.len() && 0 <= i < 8 && #[trigger] spec_row_bit(rows[j], i)),
{
    let once = spec_blit(pix, x, y, rows);
    if spec_collision(once, x, y, rows) {
        let (j2, i2): (int, int) = choose|j2: int, i2: int|
            #![trigger spec_to_index(x + i2, y + j2)]
            0 <= j2 < rows.len() && 0 <= i2 < 8 && spec_row_bit(rows[j2], i2) && once[spec_to_index(
                x + i2,
                y + j2,
            )];
        assert(spec_row_bit(rows[j2], i2));
    }
    if exists|j: int, i: int|
        0 <= j < rows.len() && 0 <= i < 8 && #[trigger] spec_row_bit(rows[j], i) {
        let (j2, i2): (int, int) = choose|j2: int, i2: int|
            0 <= j2 < rows.len() && 0 <= i2 < 8 && #[trigger] spec_row_bit(rows[j2], i2);
        let t = spec_to_index(x + i2, y + j2);
        lemma_index_bounds(x + i2, y + j2);
        // The first draw reported no collision, so the pixel under this set
        // bit was unset; the draw toggled it on.
        assert(!pix[t]);
        assert(spec_hit(x, y, rows, t));
        assert(once[t]);
        assert(spec_collision(once, x, y, rows));
    }
}

} // verus!
