//! Types of the `.cnmb` file: the tile grid, tile properties and background
//! layers.

use vstd::prelude::*;

use crate::Rect;
use crate::lparse::{EntryData, Error, LParse};
use super::consts::{LIGHT_NORMAL, TILE_SIZE};
use super::{Duration, Point, VersionSpecs};

verus! {

/// A tile reference: either air (`None`) or an index into the level's
/// tile-properties list.
#[derive(Debug, Default, Copy, Clone, PartialEq, Eq, Structural)]
pub struct TileId(pub Option<u16>);

/// The logical tile id a raw file id denotes: raw id 0 is air; raw ids above
/// the reserved preview slot (256) sit two above their logical id, others
/// one above.
pub open spec fn spec_tile_from_raw(raw: u16) -> TileId {
    if raw == 0 {
        TileId(None)
    } else if raw > 256 {
        TileId(Some((raw - 2) as u16))
    } else {
        TileId(Some((raw - 1) as u16))
    }
}

/// The raw file id of a logical tile id.
pub open spec fn spec_tile_raw(t: TileId) -> u16 {
    match t.0 {
        Option::None => 0,
        Option::Some(id) => if id > 256 {
            (id + 2) as u16
        } else {
            (id + 1) as u16
        },
    }
}

impl TileId {
    /// The logical tile id a raw file id denotes.
    pub fn from_raw_id(raw: u16, version: &VersionSpecs) -> (r: Self)
        ensures
            r == spec_tile_from_raw(raw),
            raw == 0 <==> r.0 is None,
    {
        if raw == 0 {
            TileId(None)
        } else {
            if raw as usize > version.get_preview_tile_index() {
                TileId(Some(raw - 2))
            } else {
                TileId(Some(raw - 1))
            }
        }
    }

    /// The raw file id of this tile id. Logical ids near the top of the
    /// `u16` range (above 65533) have no raw form.
    pub fn get_raw_id(&self, version: &VersionSpecs) -> (r: u16)
        requires
            self.0 matches Some(id) ==> id <= u16::MAX - 2,
        ensures
            r == spec_tile_raw(*self),
    {
        if let Some(id) = self.0 {
            if id as usize > version.get_preview_tile_index() {
                id + 2
            } else {
                id + 1
            }
        } else {
            0
        }
    }
}

/// Raw id 0 decodes to air, and every logical id except the reserved
/// preview slot (256) encodes to a raw id that decodes back to it.
pub proof fn lemma_tile_id_round_trip(t: TileId)
    requires
        t.0 matches Some(id) ==> id != 256 && id <= u16::MAX - 2,
    ensures
        spec_tile_from_raw(spec_tile_raw(t)) == t,
        spec_tile_from_raw(0) == TileId(None),
        spec_tile_raw(TileId(None)) == 0,
{
}

/// A cell of the world grid.
#[derive(Debug, Copy, Clone, PartialEq, Eq, Structural)]
pub struct Cell {
    /// The tile shown in front of world objects.
    pub foreground: TileId,
    /// The tile shown behind world objects.
    pub background: TileId,
    /// The light level at this cell; `LIGHT_NORMAL` applies no effect.
    pub light: u8,
}

impl Default for Cell {
    /// An empty cell: air on both layers, normal light.
    fn default() -> (r: Self)
        ensures
            r == (Cell { foreground: TileId(None), background: TileId(None), light: LIGHT_NORMAL }),
    {
        Cell { foreground: TileId(None), background: TileId(None), light: LIGHT_NORMAL }
    }
}

/// `v` clamped into `[lo, hi]`.
pub open spec fn spec_clamp(v: int, lo: int, hi: int) -> int {
    if v < lo {
        lo
    } else if v > hi {
        hi
    } else {
        v
    }
}

/// `v` clamped into `[lo, hi]`.
fn clamp_i32(v: i32, lo: i32, hi: i32) -> (r: i32)
    requires
        lo <= hi,
    ensures
        r == spec_clamp(v as int, lo as int, hi as int),
{
    if v < lo {
        lo
    } else if v > hi {
        hi
    } else {
        v
    }
}

/// The dense row-major grid of cells of a level.
#[derive(Debug, Clone)]
pub struct Cells {
    cells: Vec<Cell>,
    width: usize,
    height: usize,
}

impl Cells {
    /// The grid's cells in row-major order.
    pub closed spec fn spec_cells(self) -> Seq<Cell> {
        self.cells@
    }

    /// The grid width.
    pub closed spec fn spec_width(self) -> int {
        self.width as int
    }

    /// The grid height.
    pub closed spec fn spec_height(self) -> int {
        self.height as int
    }

    /// Well-formed: the cell count matches the dimensions, which fit the
    /// file's signed 32-bit header fields.
    pub open spec fn wf(self) -> bool {
        self.spec_cells().len() == self.spec_width() * self.spec_height() && self.spec_width()
            <= i32::MAX && self.spec_height() <= i32::MAX
    }

    /// The row-major index that the clamped coordinates select.
    pub open spec fn spec_index_of(self, x: int, y: int) -> int {
        spec_clamp(y, 0, self.spec_height() - 1) * self.spec_width() + spec_clamp(
            x,
            0,
            self.spec_width() - 1,
        )
    }

    /// The cell at the clamped coordinates.
    pub open spec fn spec_cell_at(self, x: int, y: int) -> Cell {
        self.spec_cells()[self.spec_index_of(x, y)]
    }

    /// The clamped index is in bounds on any nonempty well-formed grid.
    pub proof fn lemma_index_in_bounds(self, x: int, y: int)
        requires
            self.wf(),
            self.spec_width() >= 1,
            self.spec_height() >= 1,
        ensures
            0 <= self.spec_index_of(x, y) < self.spec_cells().len(),
    {
        let cx = spec_clamp(x, 0, self.spec_width() - 1);
        let cy = spec_clamp(y, 0, self.spec_height() - 1);
        assert(0 <= cy * self.spec_width() + cx < self.spec_height() * self.spec_width())
            by (nonlinear_arith)
            requires
                0 <= cx < self.spec_width(),
                0 <= cy < self.spec_height(),
        ;
        assert(self.spec_height() * self.spec_width() == self.spec_width() * self.spec_height())
            by (nonlinear_arith);
    }

    /// Creates an empty grid of the given dimensions.
    pub fn new(width: usize, height: usize) -> (r: Self)
        requires
            width <= i32::MAX,
            height <= i32::MAX,
            width * height <= usize::MAX,
        ensures
            r.wf(),
            r.spec_width() == width,
            r.spec_height() == height,
            forall|i: int|
                0 <= i < r.spec_cells().len() ==> r.spec_cells()[i] == (Cell {
                    foreground: TileId(None),
                    background: TileId(None),
                    light: LIGHT_NORMAL,
                }),
    {
        proof {
            assert(width * height <= usize::MAX) by (nonlinear_arith)
                requires
                    width * height <= usize::MAX,
            ;
        }
        let n = width * height;
        let mut cells: Vec<Cell> = Vec::new();
        let mut i: usize = 0;
        while i < n
            invariant
                i <= n,
                cells@.len() == i,
                forall|j: int|
                    0 <= j < i ==> cells@[j] == (Cell {
                        foreground: TileId(None),
                        background: TileId(None),
                        light: LIGHT_NORMAL,
                    }),
            decreases n - i,
        {
            cells.push(Cell::default());
            i = i + 1;
        }
        Cells { cells, width, height }
    }

    /// The cells in row-major order.
    pub fn cells(&self) -> (r: &[Cell])
        ensures
            r@ == self.spec_cells(),
    {
        self.cells.as_slice()
    }

    /// The cells in row-major order, mutably. The grid stays well-formed as
    /// long as the slice keeps its length (a slice cannot change it).
    pub fn cells_mut(&mut self) -> (r: &mut [Cell])
        ensures
            r@ == old(self).spec_cells(),
            final(self).spec_cells() == final(r)@,
            final(self).spec_width() == old(self).spec_width(),
            final(self).spec_height() == old(self).spec_height(),
            final(r)@.len() == old(self).spec_cells().len() && old(self).wf()
                ==> final(self).wf(),
    {
        self.cells.as_mut_slice()
    }

    /// The cell that any coordinates select, clamped to the grid edge;
    /// this never fails, whatever `x` and `y` are.
    pub fn get_cell(&self, x: i32, y: i32) -> (r: &Cell)
        requires
            self.wf(),
            self.spec_width() >= 1,
            self.spec_height() >= 1,
        ensures
            *r == self.spec_cell_at(x as int, y as int),
    {
        proof {
            self.lemma_index_in_bounds(x as int, y as int);
        }
        let cy = clamp_i32(y, 0, self.height as i32 - 1);
        let cx = clamp_i32(x, 0, self.width as i32 - 1);
        proof {
            assert(cy as int * self.width as int + cx as int == self.spec_index_of(
                x as int,
                y as int,
            ));
            assert(cy >= 0 && cx >= 0);
            assert((cy as usize) as int == cy as int && (cx as usize) as int == cx as int);
            assert((cy as usize) as int * self.width as int + ((cx as usize) as int) < self.spec_cells().len());
        }
        let cell_count = self.cells.len();
        let index = (cy as usize) * self.width + cx as usize;
        proof {
            assert(index < cell_count);
        }
        &self.cells[index]
    }

    /// The cell that any coordinates select, clamped to the grid edge,
    /// mutably.
    pub fn get_cell_mut(&mut self, x: i32, y: i32) -> (r: &mut Cell)
        requires
            old(self).wf(),
            old(self).spec_width() >= 1,
            old(self).spec_height() >= 1,
        ensures
            *r == old(self).spec_cell_at(x as int, y as int),
            final(self).spec_cells() == old(self).spec_cells().update(
                old(self).spec_index_of(x as int, y as int),
                *final(r),
            ),
            final(self).spec_width() == old(self).spec_width(),
            final(self).spec_height() == old(self).spec_height(),
            final(self).wf(),
    {
        proof {
            self.lemma_index_in_bounds(x as int, y as int);
        }
        let cy = clamp_i32(y, 0, self.height as i32 - 1);
        let cx = clamp_i32(x, 0, self.width as i32 - 1);
        proof {
            assert(cy as int * self.width as int + cx as int == self.spec_index_of(
                x as int,
                y as int,
            ));
            assert(cy >= 0 && cx >= 0);
            assert((cy as usize) as int == cy as int && (cx as usize) as int == cx as int);
            assert((cy as usize) as int * self.width as int + ((cx as usize) as int) < self.spec_cells().len());
        }
        let cell_count = self.cells.len();
        let index = (cy as usize) * self.width + cx as usize;
        proof {
            assert(index < cell_count);
        }
        &mut self.cells[index]
    }

    /// The grid width in cells.
    pub fn width(&self) -> (r: usize)
        ensures
            r == self.spec_width(),
    {
        self.width
    }

    /// The grid height in cells.
    pub fn height(&self) -> (r: usize)
        ensures
            r == self.spec_height(),
    {
        self.height
    }
}

} // verus!

verus! {

/// Whether the target rectangle of a paste lies inside `other`, so that no
/// write clamps.
pub open spec fn spec_paste_dst_ok(
    other: Cells,
    src_min: (i32, i32),
    src_max: (i32, i32),
    dst: (i32, i32),
) -> bool {
    0 <= dst.0 && 0 <= dst.1 && dst.0 + (src_max.0 - src_min.0) < other.spec_width() && dst.1 + (
    src_max.1 - src_min.1) < other.spec_height() && src_min.0 <= src_max.0 && src_min.1
        <= src_max.1
}

/// The state of `cur` while a paste from `src` into `orig` has painted all
/// target rows before `y`, and on row `y` the columns before `x` (in source
/// coordinates): painted cells carry the corresponding clamped source cell,
/// all others their original value.
pub open spec fn spec_paste_partial(
    src: Cells,
    orig: Cells,
    cur: Cells,
    src_min: (i32, i32),
    src_max: (i32, i32),
    dst: (i32, i32),
    y: int,
    x: int,
) -> bool {
    forall|gx: int, gy: int|
        0 <= gx < orig.spec_width() && 0 <= gy < orig.spec_height()
            ==> #[trigger] cur.spec_cell_at(gx, gy) == (if dst.0 <= gx <= dst.0 + (src_max.0
            - src_min.0) && dst.1 <= gy && (gy < dst.1 + (y - src_min.1) || (gy == dst.1 + (y
            - src_min.1) && gx < dst.0 + (x - src_min.0))) {
            src.spec_cell_at(src_min.0 + (gx - dst.0), src_min.1 + (gy - dst.1))
        } else {
            orig.spec_cell_at(gx, gy)
        })
}

impl Cells {
    /// Distinct in-bounds coordinates give distinct row-major indices.
    proof fn lemma_index_injective(self, gx: int, gy: int, hx: int, hy: int)
        requires
            self.wf(),
            0 <= gx < self.spec_width(),
            0 <= gy < self.spec_height(),
            0 <= hx < self.spec_width(),
            0 <= hy < self.spec_height(),
            self.spec_index_of(gx, gy) == self.spec_index_of(hx, hy),
        ensures
            gx == hx && gy == hy,
    {
        let w = self.spec_width();
        assert(gy * w + gx == hy * w + hx ==> gy == hy && gx == hx) by (nonlinear_arith)
            requires
                0 <= gx < w && 0 <= hx < w,
        ;
    }

    /// Pastes the rectangle `src_min ..= src_max` of this grid into `other`
    /// at `dst`. Source reads clamp to this grid's edge; when the target
    /// rectangle lies inside `other`, every target cell receives exactly the
    /// corresponding (clamped) source cell and all others keep their value.
    pub fn paste(&self, other: &mut Self, src_min: (i32, i32), src_max: (i32, i32), dst: (
        i32,
        i32,
    ))
        requires
            self.wf(),
            old(other).wf(),
            self.spec_width() >= 1,
            self.spec_height() >= 1,
            old(other).spec_width() >= 1,
            old(other).spec_height() >= 1,
            src_max.0 < i32::MAX,
            src_max.1 < i32::MAX,
            src_max.0 - src_min.0 <= i32::MAX,
            src_max.1 - src_min.1 <= i32::MAX,
            src_max.0 - src_min.0 + dst.0 <= i32::MAX,
            src_max.1 - src_min.1 + dst.1 <= i32::MAX,
        ensures
            final(other).wf(),
            final(other).spec_width() == old(other).spec_width(),
            final(other).spec_height() == old(other).spec_height(),
            src_min.0 > src_max.0 || src_min.1 > src_max.1 ==> final(other).spec_cells() == old(
                other,
            ).spec_cells(),
            spec_paste_dst_ok(*old(other), src_min, src_max, dst) ==> spec_paste_partial(
                *self,
                *old(other),
                *final(other),
                src_min,
                src_max,
                dst,
                src_max.1 + 1,
                src_min.0 as int,
            ),
    {
        if src_min.0 > src_max.0 || src_min.1 > src_max.1 {
            return ;
        }
        let ghost orig = *other;
        let ghost dst_ok = spec_paste_dst_ok(orig, src_min, src_max, dst);
        let mut y = src_min.1;
        while y <= src_max.1
            invariant
                self.wf(),
                self.spec_width() >= 1,
                self.spec_height() >= 1,
                other.wf(),
                orig.wf(),
                orig.spec_width() >= 1,
                orig.spec_height() >= 1,
                other.spec_width() == orig.spec_width(),
                other.spec_height() == orig.spec_height(),
                src_min.0 <= src_max.0,
                src_min.1 <= src_max.1,
                src_min.1 <= y,
                y <= src_max.1 + 1,
                src_max.0 < i32::MAX,
                src_max.1 < i32::MAX,
                src_max.0 - src_min.0 <= i32::MAX,
                src_max.1 - src_min.1 <= i32::MAX,
                src_max.0 - src_min.0 + dst.0 <= i32::MAX,
                src_max.1 - src_min.1 + dst.1 <= i32::MAX,
                dst_ok == spec_paste_dst_ok(orig, src_min, src_max, dst),
                dst_ok ==> spec_paste_partial(
                    *self,
                    orig,
                    *other,
                    src_min,
                    src_max,
                    dst,
                    y as int,
                    src_min.0 as int,
                ),
            decreases src_max.1 + 1 - y,
        {
            let mut x = src_min.0;
            while x <= src_max.0
                invariant
                    self.wf(),
                    self.spec_width() >= 1,
                    self.spec_height() >= 1,
                    other.wf(),
                    orig.wf(),
                    orig.spec_width() >= 1,
                    orig.spec_height() >= 1,
                    other.spec_width() == orig.spec_width(),
                    other.spec_height() == orig.spec_height(),
                    src_min.0 <= src_max.0,
                    src_min.1 <= src_max.1,
                    src_min.0 <= x,
                    x <= src_max.0 + 1,
                    src_min.1 <= y <= src_max.1,
                    src_max.0 < i32::MAX,
                    src_max.0 - src_min.0 <= i32::MAX,
                    src_max.1 - src_min.1 <= i32::MAX,
                    src_max.0 - src_min.0 + dst.0 <= i32::MAX,
                    src_max.1 - src_min.1 + dst.1 <= i32::MAX,
                    dst_ok == spec_paste_dst_ok(orig, src_min, src_max, dst),
                    dst_ok ==> spec_paste_partial(
                        *self,
                        orig,
                        *other,
                        src_min,
                        src_max,
                        dst,
                        y as int,
                        x as int,
                    ),
                decreases src_max.0 + 1 - x,
            {
                let ghost before = *other;
                let src_cell = *self.get_cell(x, y);
                let target = other.get_cell_mut(x - src_min.0 + dst.0, y - src_min.1 + dst.1);
                *target = src_cell;
                proof {
                    if dst_ok {
                        let tx = (x - src_min.0 + dst.0) as int;
                        let ty = (y - src_min.1 + dst.1) as int;
                        assert(0 <= tx < orig.spec_width() && 0 <= ty < orig.spec_height());
                        assert forall|gx: int, gy: int|
                            0 <= gx < orig.spec_width() && 0 <= gy < orig.spec_height()
                                implies #[trigger] other.spec_cell_at(gx, gy) == (if dst.0 <= gx
                                <= dst.0 + (src_max.0 - src_min.0) && dst.1 <= gy && (gy < dst.1 + (
                            y - src_min.1) || (gy == dst.1 + (y - src_min.1) && gx < dst.0 + (x + 1
                                - src_min.0))) {
                                self.spec_cell_at(src_min.0 + (gx - dst.0), src_min.1 + (gy
                                    - dst.1))
                            } else {
                                orig.spec_cell_at(gx, gy)
                            }) by {
                            before.lemma_index_in_bounds(gx, gy);
                            before.lemma_index_in_bounds(tx, ty);
                            assert(other.spec_index_of(gx, gy) == before.spec_index_of(gx, gy));
                            if before.spec_index_of(gx, gy) == before.spec_index_of(tx, ty) {
                                before.lemma_index_injective(gx, gy, tx, ty);
                                assert(gx == tx && gy == ty);
                                assert(other.spec_cell_at(gx, gy) == src_cell);
                            } else {
                                assert(other.spec_cell_at(gx, gy) == before.spec_cell_at(gx, gy));
                            }
                        }
                        assert(spec_paste_partial(
                            *self,
                            orig,
                            *other,
                            src_min,
                            src_max,
                            dst,
                            y as int,
                            x as int + 1,
                        ));
                    }
                }
                x = x + 1;
            }
            proof {
                if dst_ok {
                    assert(spec_paste_partial(
                        *self,
                        orig,
                        *other,
                        src_min,
                        src_max,
                        dst,
                        y as int + 1,
                        src_min.0 as int,
                    )) by {
                        assert forall|gx: int, gy: int|
                            0 <= gx < orig.spec_width() && 0 <= gy < orig.spec_height()
                                implies #[trigger] other.spec_cell_at(gx, gy) == (if dst.0 <= gx
                                <= dst.0 + (src_max.0 - src_min.0) && dst.1 <= gy && (gy < dst.1 + (
                            y + 1 - src_min.1) || (gy == dst.1 + (y + 1 - src_min.1) && gx < dst.0
                                + (src_min.0 - src_min.0))) {
                                self.spec_cell_at(src_min.0 + (gx - dst.0), src_min.1 + (gy
                                    - dst.1))
                            } else {
                                orig.spec_cell_at(gx, gy)
                            }) by {
                            assert(spec_paste_partial(
                                *self,
                                orig,
                                *other,
                                src_min,
                                src_max,
                                dst,
                                y as int,
                                src_max.0 as int + 1,
                            ));
                        }
                    }
                }
            }
            y = y + 1;
        }
    }
}

} // verus!

verus! {

/// `t` with ids at or past the tile-properties count replaced by air
/// (defensive decoding of legacy files).
pub open spec fn spec_tile_bounded(t: TileId, num_tile_properties: int) -> TileId {
    match t.0 {
        Option::Some(id) => if id >= num_tile_properties {
            TileId(None)
        } else {
            t
        },
        Option::None => TileId(None),
    }
}

/// The cell three parallel file words decode to.
pub open spec fn spec_cell_decoded(fg: u16, bg: u16, light: u16, num_tile_properties: int) -> Cell {
    Cell {
        foreground: spec_tile_bounded(spec_tile_from_raw(fg), num_tile_properties),
        background: spec_tile_bounded(spec_tile_from_raw(bg), num_tile_properties),
        light: if light > 255 {
            LIGHT_NORMAL
        } else {
            light as u8
        },
    }
}

/// Whether a container holds the entries a cell grid needs: a
/// `BLOCKS_HEADER` of at least two `i32`s giving nonnegative dimensions that
/// fit memory, and the three cell layers with at least one word per cell.
pub open spec fn spec_cells_entries_ok(em: Map<Seq<char>, EntryData>) -> bool {
    &&& em.contains_key("BLOCKS_HEADER"@)
    &&& em["BLOCKS_HEADER"@] matches EntryData::I32(hv) && {
        &&& hv@.len() >= 2
        &&& hv@[0] >= 0
        &&& hv@[1] >= 0
        &&& hv@[0] * hv@[1] <= usize::MAX
        &&& em.contains_key("BLK_LAYER0"@)
        &&& em["BLK_LAYER0"@] matches EntryData::U16(l0) && l0@.len() >= hv@[0] * hv@[1]
        &&& em.contains_key("BLK_LAYER1"@)
        &&& em["BLK_LAYER1"@] matches EntryData::U16(l1) && l1@.len() >= hv@[0] * hv@[1]
        &&& em.contains_key("BLK_LIGHT"@)
        &&& em["BLK_LIGHT"@] matches EntryData::U16(ll) && ll@.len() >= hv@[0] * hv@[1]
    }
}


/// Whether `em` holds the entries a cell grid `c` saves, with
/// `num_tile_properties` editable tiles.
pub open spec fn spec_cells_saved(em: Map<Seq<char>, EntryData>, c: Cells, ntp: int) -> bool {
    &&& em.contains_key("BLOCKS_HEADER"@)
    &&& (em["BLOCKS_HEADER"@] matches EntryData::I32(hv) && hv@ =~= seq![
        c.spec_width() as usize as i32,
        c.spec_height() as usize as i32,
        ((if ntp >= 256 {
            ntp
        } else {
            256
        }) + 1) as usize as i32,
    ])
    &&& em.contains_key("BLK_LAYER0"@)
    &&& (em["BLK_LAYER0"@] matches EntryData::U16(l0) && l0@.len() == c.spec_cells().len() && (
    forall|i: int|
        0 <= i < c.spec_cells().len() ==> l0@[i] == spec_tile_raw(
            (#[trigger] c.spec_cells()[i]).foreground,
        )))
    &&& em.contains_key("BLK_LAYER1"@)
    &&& (em["BLK_LAYER1"@] matches EntryData::U16(l1) && l1@.len() == c.spec_cells().len() && (
    forall|i: int|
        0 <= i < c.spec_cells().len() ==> l1@[i] == spec_tile_raw(
            (#[trigger] c.spec_cells()[i]).background,
        )))
    &&& em.contains_key("BLK_LIGHT"@)
    &&& (em["BLK_LIGHT"@] matches EntryData::U16(ll) && ll@.len() == c.spec_cells().len() && (
    forall|i: int|
        0 <= i < c.spec_cells().len() ==> ll@[i] == ((#[trigger] c.spec_cells()[i]).light) as u16))
}

impl Cells {
    /// Whether every tile id of the grid has a raw form, so the grid can be
    /// saved.
    pub open spec fn saveable(self) -> bool {
        forall|i: int|
            0 <= i < self.spec_cells().len() ==> ((#[trigger] self.spec_cells()[i]).foreground.0
                matches Some(id) ==> id <= u16::MAX - 2) && (self.spec_cells()[i].background.0
                matches Some(id) ==> id <= u16::MAX - 2)
    }

    /// Resizes the grid. Cells the new size keeps stay as they are; grown
    /// area is filled by replicating the old grid's edge (a consequence of
    /// clamped reads).
    pub fn resize(&mut self, new_width: usize, new_height: usize)
        requires
            old(self).wf(),
            old(self).spec_width() >= 1,
            old(self).spec_height() >= 1,
            new_width <= i32::MAX,
            new_height <= i32::MAX,
            new_width * new_height <= usize::MAX,
        ensures
            final(self).wf(),
            final(self).spec_width() == new_width,
            final(self).spec_height() == new_height,
            forall|gx: int, gy: int|
                0 <= gx < new_width && 0 <= gy < new_height
                    ==> #[trigger] final(self).spec_cell_at(gx, gy)
                    == old(self).spec_cell_at(gx, gy),
    {
        if new_width == self.width && new_height == self.height {
            return ;
        }
        let mut new_cells = Cells::new(new_width, new_height);
        if new_width >= 1 && new_height >= 1 {
            self.paste(
                &mut new_cells,
                (0, 0),
                (new_width as i32 - 1, new_height as i32 - 1),
                (0, 0),
            );
        }
        *self = new_cells;
    }

    /// Decodes the cell grid of a container. Ids at or past
    /// `num_tile_properties` decode as air; light words above 255 decode as
    /// normal light.
    pub fn from_lparse(cnmb: &LParse, num_tile_properties: usize) -> (r: Result<Self, Error>)
        ensures
            r is Ok <==> spec_cells_entries_ok(cnmb.entries_map()),
            r matches Ok(c) ==> {
                let em = cnmb.entries_map();
                let hv = em["BLOCKS_HEADER"@]->I32_0;
                let l0 = em["BLK_LAYER0"@]->U16_0;
                let l1 = em["BLK_LAYER1"@]->U16_0;
                let ll = em["BLK_LIGHT"@]->U16_0;
                &&& c.wf()
                &&& c.spec_width() == hv@[0]
                &&& c.spec_height() == hv@[1]
                &&& forall|i: int|
                    0 <= i < c.spec_cells().len() ==> #[trigger] c.spec_cells()[i]
                        == spec_cell_decoded(
                        l0@[i],
                        l1@[i],
                        ll@[i],
                        num_tile_properties as int,
                    )
            },
    {
        let version = match VersionSpecs::from_version(1) {
            Ok(v) => v,
            Err(e) => {
                proof {
                    assert(false);
                }
                return Err(e);
            },
        };
        let header = match cnmb.try_get_entry("BLOCKS_HEADER") {
            Ok(d) => d,
            Err(e) => {
                return Err(e);
            },
        };
        let header = match header.try_get_i32() {
            Ok(v) => v,
            Err(e) => {
                return Err(e);
            },
        };
        if header.len() < 2 {
            return Err(Error::Corrupted("the blocks header is too short".to_owned()));
        }
        let w = header[0];
        let h = header[1];
        if w < 0 || h < 0 {
            return Err(Error::Corrupted("the level size is negative".to_owned()));
        }
        proof {
            assert((w as u64) * (h as u64) <= 0x4000_0000_0000_0000u64) by (nonlinear_arith)
                requires
                    (w as u64) < 0x8000_0000u64,
                    (h as u64) < 0x8000_0000u64,
            ;
        }
        let p = (w as u64) * (h as u64);
        if p > usize::MAX as u64 {
            return Err(Error::Corrupted("the level size does not fit memory".to_owned()));
        }
        let width = w as usize;
        let height = h as usize;
        let n = p as usize;
        proof {
            assert(width * height == n) by (nonlinear_arith)
                requires
                    width == w as int,
                    height == h as int,
                    0 <= w,
                    0 <= h,
                    n == (w as u64) * (h as u64),
            ;
        }
        let foreground_layer = match cnmb.try_get_entry("BLK_LAYER0") {
            Ok(d) => d,
            Err(e) => {
                return Err(e);
            },
        };
        let foreground_layer = match foreground_layer.try_get_u16() {
            Ok(v) => v,
            Err(e) => {
                return Err(e);
            },
        };
        let background_layer = match cnmb.try_get_entry("BLK_LAYER1") {
            Ok(d) => d,
            Err(e) => {
                return Err(e);
            },
        };
        let background_layer = match background_layer.try_get_u16() {
            Ok(v) => v,
            Err(e) => {
                return Err(e);
            },
        };
        let light_layer = match cnmb.try_get_entry("BLK_LIGHT") {
            Ok(d) => d,
            Err(e) => {
                return Err(e);
            },
        };
        let light_layer = match light_layer.try_get_u16() {
            Ok(v) => v,
            Err(e) => {
                return Err(e);
            },
        };
        if foreground_layer.len() < n || background_layer.len() < n || light_layer.len() < n {
            return Err(Error::Corrupted("the cell layers are too short".to_owned()));
        }
        let mut cells: Vec<Cell> = Vec::new();
        let mut i: usize = 0;
        while i < n
            invariant
                i <= n,
                cells@.len() == i,
                n <= foreground_layer@.len(),
                n <= background_layer@.len(),
                n <= light_layer@.len(),
                forall|j: int|
                    0 <= j < i ==> #[trigger] cells@[j] == spec_cell_decoded(
                        foreground_layer@[j],
                        background_layer@[j],
                        light_layer@[j],
                        num_tile_properties as int,
                    ),
            decreases n - i,
        {
            let mut background = TileId::from_raw_id(background_layer[i], &version);
            let mut foreground = TileId::from_raw_id(foreground_layer[i], &version);
            if let Some(id) = background.0 {
                if id as usize >= num_tile_properties {
                    background.0 = None;
                }
            }
            if let Some(id) = foreground.0 {
                if id as usize >= num_tile_properties {
                    foreground.0 = None;
                }
            }
            let lw = light_layer[i];
            let light = if lw > 255 {
                LIGHT_NORMAL
            } else {
                lw as u8
            };
            cells.push(Cell { background, foreground, light });
            i = i + 1;
        }
        Ok(Cells { cells, width, height })
    }

    /// Writes the grid into a container: the blocks header (width, height,
    /// and the tile-table length including the reserved preview slot) and
    /// the three parallel cell layers.
    pub fn save(&self, cnmb: &mut LParse, num_tile_properties: usize, version: &VersionSpecs)
        requires
            self.wf(),
            self.saveable(),
            num_tile_properties < usize::MAX,
        ensures
            final(cnmb).spec_version_id() == old(cnmb).spec_version_id(),
            spec_cells_saved(final(cnmb).entries_map(), *self, num_tile_properties as int),
            forall|k: Seq<char>|
                k.len() < 2 || k[1] != 'L' ==> (#[trigger] final(cnmb).entries_map().contains_key(
                    k,
                ) == old(cnmb).entries_map().contains_key(k)) && (old(
                    cnmb,
                ).entries_map().contains_key(k) ==> final(cnmb).entries_map()[k] == old(
                    cnmb,
                ).entries_map()[k]),
    {
        proof {
            reveal_strlit("BLOCKS_HEADER");
            reveal_strlit("BLK_LAYER0");
            reveal_strlit("BLK_LAYER1");
            reveal_strlit("BLK_LIGHT");
            assert("BLOCKS_HEADER"@.len() == 13 && "BLK_LAYER0"@.len() == 10
                && "BLK_LAYER1"@.len() == 10 && "BLK_LIGHT"@.len() == 9);
            assert("BLK_LAYER0"@[9] == '0' && "BLK_LAYER1"@[9] == '1');
            assert("BLOCKS_HEADER"@[1] == 'L' && "BLK_LAYER0"@[1] == 'L' && "BLK_LAYER1"@[1]
                == 'L' && "BLK_LIGHT"@[1] == 'L');
            assert("BLOCKS_HEADER"@ != "BLK_LAYER0"@ && "BLOCKS_HEADER"@ != "BLK_LAYER1"@
                && "BLOCKS_HEADER"@ != "BLK_LIGHT"@ && "BLK_LAYER0"@ != "BLK_LAYER1"@
                && "BLK_LAYER0"@ != "BLK_LIGHT"@ && "BLK_LAYER1"@ != "BLK_LIGHT"@);
        }
        let mut blocks_header: Vec<i32> = Vec::new();
        let mut blk_layer0: Vec<u16> = Vec::new();
        let mut blk_layer1: Vec<u16> = Vec::new();
        let mut blk_light: Vec<u16> = Vec::new();
        blocks_header.push(self.width as i32);
        blocks_header.push(self.height as i32);
        let table_len = if num_tile_properties >= 256 {
            num_tile_properties
        } else {
            256
        };
        blocks_header.push((table_len + 1) as i32);
        let n = self.cells.len();
        let mut i: usize = 0;
        while i < n
            invariant
                i <= n,
                n == self.spec_cells().len(),
                self.saveable(),
                blk_layer0@.len() == i,
                blk_layer1@.len() == i,
                blk_light@.len() == i,
                forall|j: int|
                    0 <= j < i ==> blk_layer0@[j] == spec_tile_raw(
                        #[trigger] self.spec_cells()[j].foreground,
                    ),
                forall|j: int|
                    0 <= j < i ==> blk_layer1@[j] == spec_tile_raw(
                        #[trigger] self.spec_cells()[j].background,
                    ),
                forall|j: int|
                    0 <= j < i ==> blk_light@[j] == (#[trigger] self.spec_cells()[j].light) as u16,
            decreases n - i,
        {
            let cell = self.cells[i];
            blk_layer0.push(cell.foreground.get_raw_id(version));
            blk_layer1.push(cell.background.get_raw_id(version));
            blk_light.push(cell.light as u16);
            i = i + 1;
        }
        proof {
            assert(blocks_header@ =~= seq![
                self.spec_width() as usize as i32,
                self.spec_height() as usize as i32,
                ((if num_tile_properties >= 256 {
                    num_tile_properties
                } else {
                    256
                }) + 1) as i32,
            ]);
        }
        cnmb.insert_entry("BLOCKS_HEADER".to_owned(), EntryData::I32(blocks_header));
        cnmb.insert_entry("BLK_LAYER0".to_owned(), EntryData::U16(blk_layer0));
        cnmb.insert_entry("BLK_LAYER1".to_owned(), EntryData::U16(blk_layer1));
        cnmb.insert_entry("BLK_LIGHT".to_owned(), EntryData::U16(blk_light));
    }
}

} // verus!

verus! {

/// How a tile damages the player.
#[derive(Debug, Clone, PartialEq, Eq, Structural)]
pub enum DamageType {
    /// It does not damage the player.
    NoDamage,
    /// Damages and acts as a liquid; carries the damage amount.
    Lava(i32),
    /// Damages with no special effect; carries the damage amount.
    Spikes(i32),
    /// Damages and acts as quicksand; carries the damage amount.
    Quicksand(i32),
    /// Worsens friction; carries the file's raw value (the engine reads it
    /// as hundredths of the friction factor).
    Ice(i32),
}

/// The collision shape of a tile.
#[derive(Debug, Clone, PartialEq, Eq)]
pub enum CollisionType {
    /// A solid box.
    Box(Rect),
    /// A box the player can jump up through.
    Jumpthrough(Rect),
    /// A per-column heightmap, 0 at the cell's bottom.
    Heightmap([u8; TILE_SIZE]),
}

/// All properties of a tile.
#[derive(Debug, Clone)]
pub struct TileProperties {
    /// Whether it is solid.
    pub solid: bool,
    /// Transparency level (0 opaque to 7 clear).
    pub transparency: u8,
    /// How it damages the player.
    pub damage_type: DamageType,
    /// Ticks between animation frames.
    pub anim_speed: Duration,
    /// The "angle" of the ground.
    pub angle: u16,
    /// Frame positions on the tile sheet (at most 32 survive a save).
    pub frames: Vec<(i32, i32)>,
    /// The collision shape.
    pub collision_data: CollisionType,
}

/// The damage pair a tile stores: the damage-type tag and its payload.
pub open spec fn spec_damage_pair(d: DamageType) -> (i32, i32) {
    match d {
        DamageType::NoDamage => (0i32, 0i32),
        DamageType::Lava(x) => (1i32, x),
        DamageType::Spikes(x) => (2i32, x),
        DamageType::Quicksand(x) => (3i32, x),
        DamageType::Ice(x) => (4i32, x),
    }
}

/// Whether the container holds all eleven tile-property arrays with the
/// right types and room for tile `idx` (frames and heightmap arrays hold 32
/// words per tile).
pub open spec fn spec_tile_entries_ok(em: Map<Seq<char>, EntryData>, idx: int) -> bool {
    &&& em.contains_key("BP_FLAGS"@) && (em["BP_FLAGS"@] matches EntryData::U32(v) && v@.len()
        > idx)
    &&& em.contains_key("BP_TRANS"@) && (em["BP_TRANS"@] matches EntryData::I32(v) && v@.len()
        > idx)
    &&& em.contains_key("BP_DMG_TYPE"@) && (em["BP_DMG_TYPE"@] matches EntryData::I32(v)
        && v@.len() > idx)
    &&& em.contains_key("BP_DMG"@) && (em["BP_DMG"@] matches EntryData::I32(v) && v@.len() > idx)
    &&& em.contains_key("BP_ANIM_SPEED"@) && (em["BP_ANIM_SPEED"@] matches EntryData::I32(v)
        && v@.len() > idx)
    &&& em.contains_key("BP_NUM_FRAMES"@) && (em["BP_NUM_FRAMES"@] matches EntryData::I32(v)
        && v@.len() > idx)
    &&& em.contains_key("BP_FRAMESX"@) && (em["BP_FRAMESX"@] matches EntryData::I32(v)
        && v@.len() >= (idx + 1) * 32)
    &&& em.contains_key("BP_FRAMESY"@) && (em["BP_FRAMESY"@] matches EntryData::I32(v)
        && v@.len() >= (idx + 1) * 32)
    &&& em.contains_key("BP_HEIGHTMAP"@) && (em["BP_HEIGHTMAP"@] matches EntryData::U8(v)
        && v@.len() >= (idx + 1) * 32)
    &&& em.contains_key("BP_HITBOX"@) && (em["BP_HITBOX"@] matches EntryData::Rect(v) && v@.len()
        > idx)
    &&& em.contains_key("BP_COLLTYPE"@) && (em["BP_COLLTYPE"@] matches EntryData::I32(v)
        && v@.len() > idx)
}

/// Whether decoding tile `idx` succeeds: the arrays are there, the
/// transparency, damage tag, collision tag and angle are sound (or leniency
/// was asked for; the angle must fit its field in every case).
pub open spec fn spec_tile_decode_ok(
    em: Map<Seq<char>, EntryData>,
    idx: int,
    lenient: bool,
) -> bool {
    &&& spec_tile_entries_ok(em, idx)
    &&& {
        let trans = em["BP_TRANS"@]->I32_0@[idx];
        let dtag = em["BP_DMG_TYPE"@]->I32_0@[idx];
        let ctag = em["BP_COLLTYPE"@]->I32_0@[idx];
        let nf = em["BP_NUM_FRAMES"@]->I32_0@[idx];
        &&& (lenient || (0 <= trans <= 7))
        &&& (lenient || (0 <= dtag <= 4))
        &&& (lenient || ctag == 0 || ctag == 1 || ctag == 2)
        &&& 0 <= (nf >> 8u32) <= 65535
        &&& idx * 32 + (nf & 0xff) <= em["BP_FRAMESX"@]->I32_0@.len()
        &&& idx * 32 + (nf & 0xff) <= em["BP_FRAMESY"@]->I32_0@.len()
    }
}

/// Whether `t` is the decoding of tile `idx` of the container.
pub open spec fn spec_tile_decoded(
    t: TileProperties,
    em: Map<Seq<char>, EntryData>,
    idx: int,
    lenient: bool,
) -> bool {
    let trans = em["BP_TRANS"@]->I32_0@[idx];
    let dtag = em["BP_DMG_TYPE"@]->I32_0@[idx];
    let dmg = em["BP_DMG"@]->I32_0@[idx];
    let ctag = em["BP_COLLTYPE"@]->I32_0@[idx];
    let nf = em["BP_NUM_FRAMES"@]->I32_0@[idx];
    let fx = em["BP_FRAMESX"@]->I32_0@;
    let fy = em["BP_FRAMESY"@]->I32_0@;
    let hm = em["BP_HEIGHTMAP"@]->U8_0@;
    &&& t.solid == (em["BP_FLAGS"@]->U32_0@[idx] & 1 != 0)
    &&& t.transparency == trans as u8
    &&& t.damage_type == (if dtag == 0 {
        DamageType::NoDamage
    } else if dtag == 1 {
        DamageType::Lava(dmg)
    } else if dtag == 2 {
        DamageType::Spikes(dmg)
    } else if dtag == 3 {
        DamageType::Quicksand(dmg)
    } else if dtag == 4 {
        DamageType::Ice(dmg)
    } else {
        DamageType::NoDamage
    })
    &&& t.anim_speed == Duration(em["BP_ANIM_SPEED"@]->I32_0@[idx])
    &&& t.angle == (nf >> 8u32) as u16
    &&& t.frames@.len() == (nf & 0xff)
    &&& (forall|k: int|
        0 <= k < t.frames@.len() ==> #[trigger] t.frames@[k] == (
        fx[idx * 32 + k],
        fy[idx * 32 + k],
        ))
    &&& (match t.collision_data {
        CollisionType::Box(r) => (ctag == 0 || (lenient && ctag != 1 && ctag != 2)) && (if ctag
            == 0 {
            r == em["BP_HITBOX"@]->Rect_0@[idx]
        } else {
            r == (Rect { x: 0, y: 0, w: 32, h: 32 })
        }),
        CollisionType::Jumpthrough(r) => ctag == 2 && r == em["BP_HITBOX"@]->Rect_0@[idx],
        CollisionType::Heightmap(a) => ctag == 1 && (forall|k: int|
            0 <= k < 32 ==> a@[k] == hm[idx * 32 + k]),
    })
}

impl TileProperties {
    /// Decodes tile `idx` of the container. With `ignore_warnings`, unknown
    /// transparency levels, damage tags and collision tags decode to safe
    /// defaults instead of failing.
    #[verifier::rlimit(60)]
    pub fn from_lparse(
        cnmb: &LParse,
        version: &VersionSpecs,
        index: usize,
        ignore_warnings: bool,
    ) -> (r: Result<Self, Error>)
        requires
            index < 0x0100_0000,
        ensures
            r is Ok <==> spec_tile_decode_ok(cnmb.entries_map(), index as int, ignore_warnings),
            r matches Ok(t) ==> spec_tile_decoded(
                t,
                cnmb.entries_map(),
                index as int,
                ignore_warnings,
            ),
    {
        let block_flags = match cnmb.try_get_entry("BP_FLAGS") {
            Ok(d) => match d.try_get_u32() {
                Ok(v) => v,
                Err(e) => {
                    return Err(e);
                },
            },
            Err(e) => {
                return Err(e);
            },
        };
        let block_transparency = match cnmb.try_get_entry("BP_TRANS") {
            Ok(d) => match d.try_get_i32() {
                Ok(v) => v,
                Err(e) => {
                    return Err(e);
                },
            },
            Err(e) => {
                return Err(e);
            },
        };
        let block_damage_type = match cnmb.try_get_entry("BP_DMG_TYPE") {
            Ok(d) => match d.try_get_i32() {
                Ok(v) => v,
                Err(e) => {
                    return Err(e);
                },
            },
            Err(e) => {
                return Err(e);
            },
        };
        let block_damage = match cnmb.try_get_entry("BP_DMG") {
            Ok(d) => match d.try_get_i32() {
                Ok(v) => v,
                Err(e) => {
                    return Err(e);
                },
            },
            Err(e) => {
                return Err(e);
            },
        };
        let block_anim_speed = match cnmb.try_get_entry("BP_ANIM_SPEED") {
            Ok(d) => match d.try_get_i32() {
                Ok(v) => v,
                Err(e) => {
                    return Err(e);
                },
            },
            Err(e) => {
                return Err(e);
            },
        };
        let block_num_frames = match cnmb.try_get_entry("BP_NUM_FRAMES") {
            Ok(d) => match d.try_get_i32() {
                Ok(v) => v,
                Err(e) => {
                    return Err(e);
                },
            },
            Err(e) => {
                return Err(e);
            },
        };
        let block_frames_x = match cnmb.try_get_entry("BP_FRAMESX") {
            Ok(d) => match d.try_get_i32() {
                Ok(v) => v,
                Err(e) => {
                    return Err(e);
                },
            },
            Err(e) => {
                return Err(e);
            },
        };
        let block_frames_y = match cnmb.try_get_entry("BP_FRAMESY") {
            Ok(d) => match d.try_get_i32() {
                Ok(v) => v,
                Err(e) => {
                    return Err(e);
                },
            },
            Err(e) => {
                return Err(e);
            },
        };
        let block_heightmap = match cnmb.try_get_entry("BP_HEIGHTMAP") {
            Ok(d) => match d.try_get_u8() {
                Ok(v) => v,
                Err(e) => {
                    return Err(e);
                },
            },
            Err(e) => {
                return Err(e);
            },
        };
        let block_hitbox = match cnmb.try_get_entry("BP_HITBOX") {
            Ok(d) => match d.try_get_rect() {
                Ok(v) => v,
                Err(e) => {
                    return Err(e);
                },
            },
            Err(e) => {
                return Err(e);
            },
        };
        let block_collision_type = match cnmb.try_get_entry("BP_COLLTYPE") {
            Ok(d) => match d.try_get_i32() {
                Ok(v) => v,
                Err(e) => {
                    return Err(e);
                },
            },
            Err(e) => {
                return Err(e);
            },
        };
        let max_frames = version.get_max_tile_frames();
        if block_flags.len() <= index || block_transparency.len() <= index
            || block_damage_type.len() <= index || block_damage.len() <= index
            || block_anim_speed.len() <= index || block_num_frames.len() <= index
            || block_hitbox.len() <= index || block_collision_type.len() <= index
            || block_frames_x.len() / 32 <= index || block_frames_y.len() / 32 <= index
            || block_heightmap.len() / 32 <= index {
            return Err(Error::Corrupted("the tile lies outside the tile arrays".to_owned()));
        }
        proof {
            assert((index as int) * 32 + 32 <= block_frames_x@.len()) by (nonlinear_arith)
                requires
                    (index as int) < block_frames_x@.len() as int / 32,
            ;
            assert((index as int) * 32 + 32 <= block_frames_y@.len()) by (nonlinear_arith)
                requires
                    (index as int) < block_frames_y@.len() as int / 32,
            ;
            assert((index as int) * 32 + 32 <= block_heightmap@.len()) by (nonlinear_arith)
                requires
                    (index as int) < block_heightmap@.len() as int / 32,
            ;
        }
        let solid = block_flags[index] & 1 != 0;
        let trans_raw = block_transparency[index];
        if (trans_raw < 0 || trans_raw > 7) && !ignore_warnings {
            return Err(
                Error::Corrupted("the tile transparency is out of its normal bounds".to_owned()),
            );
        }
        let transparency = trans_raw as u8;
        let dtag = block_damage_type[index];
        let dmg = block_damage[index];
        let damage_type = if dtag == 0 {
            DamageType::NoDamage
        } else if dtag == 1 {
            DamageType::Lava(dmg)
        } else if dtag == 2 {
            DamageType::Spikes(dmg)
        } else if dtag == 3 {
            DamageType::Quicksand(dmg)
        } else if dtag == 4 {
            DamageType::Ice(dmg)
        } else if !ignore_warnings {
            return Err(Error::Corrupted("the tile damage type is unknown".to_owned()));
        } else {
            DamageType::NoDamage
        };
        let anim_speed = Duration(block_anim_speed[index]);
        let nf = block_num_frames[index];
        let nframes = (nf & 0xff) as usize;
        let angle_raw = nf >> 8u32;
        if angle_raw < 0 || angle_raw > 65535 {
            return Err(Error::Corrupted("the tile angle does not fit its field".to_owned()));
        }
        let angle = angle_raw as u16;
        proof {
            assert(0 <= (nf & 0xff) <= 0xff) by (bit_vector);
        }
        if index * 32 + nframes > block_frames_x.len() || index * 32 + nframes
            > block_frames_y.len() {
            return Err(
                Error::Corrupted("the tile frame list runs outside its array".to_owned()),
            );
        }
        let mut frames: Vec<(i32, i32)> = Vec::new();
        let mut k: usize = 0;
        while k < nframes
            invariant
                k <= nframes,
                nframes <= 255,
                index < 0x0100_0000,
                (index as int) * 32 + nframes <= block_frames_x@.len(),
                (index as int) * 32 + nframes <= block_frames_y@.len(),
                frames@.len() == k,
                nframes as i32 == block_num_frames@[index as int] & 0xff,
                forall|j: int|
                    0 <= j < k ==> #[trigger] frames@[j] == (
                    block_frames_x@[index as int * 32 + j],
                    block_frames_y@[index as int * 32 + j],
                    ),
            decreases nframes - k,
        {
            frames.push((block_frames_x[index * 32 + k], block_frames_y[index * 32 + k]));
            k = k + 1;
        }
        let ctag = block_collision_type[index];
        let collision_data = if ctag == 0 {
            CollisionType::Box(block_hitbox[index])
        } else if ctag == 2 {
            CollisionType::Jumpthrough(block_hitbox[index])
        } else if ctag == 1 {
            let mut heightmap = [0u8; TILE_SIZE];
            let mut pixel: usize = 0;
            while pixel < 32
                invariant
                    pixel <= 32,
                    index < 0x0100_0000,
                    (index as int) * 32 + 32 <= block_heightmap@.len(),
                    forall|j: int|
                        0 <= j < pixel ==> heightmap@[j] == block_heightmap@[index as int * 32
                            + j],
                decreases 32 - pixel,
            {
                heightmap[pixel] = block_heightmap[index * 32 + pixel];
                pixel = pixel + 1;
            }
            CollisionType::Heightmap(heightmap)
        } else if !ignore_warnings {
            return Err(Error::Corrupted("the tile collision type is unknown".to_owned()));
        } else {
            CollisionType::Box(Rect { x: 0, y: 0, w: 32, h: 32 })
        };
        Ok(TileProperties { solid, transparency, damage_type, anim_speed, angle, frames,
            collision_data })
    }
}

} // verus!

verus! {

/// The per-frame x positions a tile saves: its frame list padded with
/// zeros, or truncated, to 32 entries.
pub open spec fn spec_frames_x32(t: TileProperties) -> Seq<i32> {
    Seq::new(32, |k: int| if k < t.frames@.len() {
        t.frames@[k].0
    } else {
        0
    })
}

/// The per-frame y positions a tile saves, padded the same way.
pub open spec fn spec_frames_y32(t: TileProperties) -> Seq<i32> {
    Seq::new(32, |k: int| if k < t.frames@.len() {
        t.frames@[k].1
    } else {
        0
    })
}

/// The heightmap bytes a tile saves: its heightmap, or 32 zeros for box
/// shapes.
pub open spec fn spec_heightmap32(t: TileProperties) -> Seq<u8> {
    match t.collision_data {
        CollisionType::Heightmap(a) => a@,
        _ => Seq::new(32, |k: int| 0u8),
    }
}

/// The hitbox a tile saves (a zero rect for heightmap shapes).
pub open spec fn spec_hitbox(t: TileProperties) -> Rect {
    match t.collision_data {
        CollisionType::Box(r) => r,
        CollisionType::Jumpthrough(r) => r,
        CollisionType::Heightmap(_) => Rect { x: 0, y: 0, w: 0, h: 0 },
    }
}

/// The collision tag a tile saves.
pub open spec fn spec_colltype(t: TileProperties) -> i32 {
    match t.collision_data {
        CollisionType::Box(_) => 0,
        CollisionType::Jumpthrough(_) => 2,
        CollisionType::Heightmap(_) => 1,
    }
}

/// The packed frame-count-and-angle word a tile saves.
pub open spec fn spec_num_frames_word(t: TileProperties) -> i32 {
    ((t.frames@.len() as i32) & 0xff) | ((t.angle as i32) << 8u32)
}

impl TileProperties {
    /// Appends this tile's words to the eleven parallel arrays.
    pub fn save(
        &self,
        bp_flags: &mut Vec<u32>,
        bp_trans: &mut Vec<i32>,
        bp_dmg_type: &mut Vec<i32>,
        bp_dmg: &mut Vec<i32>,
        bp_anim_speed: &mut Vec<i32>,
        bp_num_frames: &mut Vec<i32>,
        bp_framesx: &mut Vec<i32>,
        bp_framesy: &mut Vec<i32>,
        bp_heightmap: &mut Vec<u8>,
        bp_hitbox: &mut Vec<Rect>,
        bp_colltype: &mut Vec<i32>,
        version: &VersionSpecs,
    )
        ensures
            final(bp_flags)@ == old(bp_flags)@.push(
                if self.solid {
                    1u32
                } else {
                    0u32
                },
            ),
            final(bp_trans)@ == old(bp_trans)@.push(self.transparency as i32),
            final(bp_dmg_type)@ == old(bp_dmg_type)@.push(spec_damage_pair(self.damage_type).0),
            final(bp_dmg)@ == old(bp_dmg)@.push(spec_damage_pair(self.damage_type).1),
            final(bp_anim_speed)@ == old(bp_anim_speed)@.push(self.anim_speed.0),
            final(bp_num_frames)@ == old(bp_num_frames)@.push(spec_num_frames_word(*self)),
            final(bp_framesx)@ == old(bp_framesx)@ + spec_frames_x32(*self),
            final(bp_framesy)@ == old(bp_framesy)@ + spec_frames_y32(*self),
            final(bp_heightmap)@ == old(bp_heightmap)@ + spec_heightmap32(*self),
            final(bp_hitbox)@ == old(bp_hitbox)@.push(spec_hitbox(*self)),
            final(bp_colltype)@ == old(bp_colltype)@.push(spec_colltype(*self)),
    {
        bp_flags.push(
            if self.solid {
                1
            } else {
                0
            },
        );
        bp_trans.push(self.transparency as i32);
        let (dmg_type, dmg) = match self.damage_type {
            DamageType::NoDamage => (0, 0),
            DamageType::Lava(x) => (1, x),
            DamageType::Spikes(x) => (2, x),
            DamageType::Quicksand(x) => (3, x),
            DamageType::Ice(x) => (4, x),
        };
        bp_dmg_type.push(dmg_type);
        bp_dmg.push(dmg);
        bp_anim_speed.push(self.anim_speed.0);
        let nframes = self.frames.len();
        let word = ((nframes as i32) & 0xff) | ((self.angle as i32) << 8u32);
        bp_num_frames.push(word);
        let mut k: usize = 0;
        while k < 32
            invariant
                k <= 32,
                bp_framesx@ == old(bp_framesx)@ + spec_frames_x32(*self).take(k as int),
                bp_framesy@ == old(bp_framesy)@ + spec_frames_y32(*self).take(k as int),
            decreases 32 - k,
        {
            let fx = if k < self.frames.len() {
                self.frames[k].0
            } else {
                0
            };
            let fy = if k < self.frames.len() {
                self.frames[k].1
            } else {
                0
            };
            bp_framesx.push(fx);
            bp_framesy.push(fy);
            proof {
                assert(bp_framesx@ =~= old(bp_framesx)@ + spec_frames_x32(*self).take(
                    k as int + 1,
                ));
                assert(bp_framesy@ =~= old(bp_framesy)@ + spec_frames_y32(*self).take(
                    k as int + 1,
                ));
            }
            k = k + 1;
        }
        proof {
            assert(spec_frames_x32(*self).take(32) =~= spec_frames_x32(*self));
            assert(spec_frames_y32(*self).take(32) =~= spec_frames_y32(*self));
        }
        match &self.collision_data {
            CollisionType::Box(rect) => {
                bp_colltype.push(0);
                bp_hitbox.push(*rect);
                let mut z: usize = 0;
                while z < 32
                    invariant
                        z <= 32,
                        bp_heightmap@ == old(bp_heightmap)@ + Seq::new(z as nat, |k: int| 0u8),
                    decreases 32 - z,
                {
                    bp_heightmap.push(0);
                    proof {
                        assert(bp_heightmap@ =~= old(bp_heightmap)@ + Seq::new(
                            z as nat + 1,
                            |k: int| 0u8,
                        ));
                    }
                    z = z + 1;
                }
            },
            CollisionType::Jumpthrough(rect) => {
                bp_colltype.push(2);
                bp_hitbox.push(*rect);
                let mut z: usize = 0;
                while z < 32
                    invariant
                        z <= 32,
                        bp_heightmap@ == old(bp_heightmap)@ + Seq::new(z as nat, |k: int| 0u8),
                    decreases 32 - z,
                {
                    bp_heightmap.push(0);
                    proof {
                        assert(bp_heightmap@ =~= old(bp_heightmap)@ + Seq::new(
                            z as nat + 1,
                            |k: int| 0u8,
                        ));
                    }
                    z = z + 1;
                }
            },
            CollisionType::Heightmap(hm) => {
                bp_colltype.push(1);
                bp_hitbox.push(Rect { x: 0, y: 0, w: 0, h: 0 });
                let mut z: usize = 0;
                while z < 32
                    invariant
                        z <= 32,
                        self.collision_data matches CollisionType::Heightmap(a) && a@ == hm@,
                        bp_heightmap@ == old(bp_heightmap)@ + hm@.take(z as int),
                    decreases 32 - z,
                {
                    bp_heightmap.push(hm[z]);
                    proof {
                        assert(bp_heightmap@ =~= old(bp_heightmap)@ + hm@.take(z as int + 1));
                    }
                    z = z + 1;
                }
                proof {
                    assert(hm@.take(32) =~= hm@);
                }
            },
        }
    }
}

} // verus!

verus! {

/// Whether `t` is the blank "air" tile the saver pads unused slots with.
pub open spec fn spec_is_air_tile(t: TileProperties) -> bool {
    &&& t.solid == false
    &&& t.transparency == 0
    &&& t.damage_type == DamageType::NoDamage
    &&& t.anim_speed == Duration(1)
    &&& t.angle == 0
    &&& t.frames@ == seq![(0i32, 0i32)]
    &&& t.collision_data == CollisionType::Box(Rect { x: 0, y: 0, w: 32, h: 32 })
}

/// The tile written at slot `idx`: slot 0 and slots past the tile list hold
/// air, the reserved slot 256 holds the preview tile, others hold the listed
/// tiles (shifted around the reserved slot).
pub open spec fn spec_tile_at(
    tiles: Seq<TileProperties>,
    meta: TileProperties,
    air: TileProperties,
    idx: int,
) -> TileProperties {
    if idx == 0 || (idx != 256 && idx > tiles.len()) {
        air
    } else if idx == 256 {
        meta
    } else if idx < 256 {
        tiles[idx - 1]
    } else {
        tiles[idx - 2]
    }
}

/// The number of tile slots a save writes.
pub open spec fn spec_tile_slot_count(tiles_len: int) -> int {
    (if tiles_len + 1 >= 256 {
        tiles_len + 1
    } else {
        256
    }) + 1
}

/// Whether `em` holds the tile-property arrays that the tile list and the
/// preview tile save.
pub open spec fn spec_tiles_saved(
    em: Map<Seq<char>, EntryData>,
    tiles: Seq<TileProperties>,
    meta: TileProperties,
) -> bool {
    exists|air: TileProperties|
        #[trigger] spec_is_air_tile(air) && spec_tiles_saved_body(em, tiles, meta, air)
}

/// The body of [`spec_tiles_saved`], for a given air padding tile.
pub open spec fn spec_tiles_saved_body(
    em: Map<Seq<char>, EntryData>,
    tiles: Seq<TileProperties>,
    meta: TileProperties,
    air: TileProperties,
) -> bool {
    {
        {
            let total = spec_tile_slot_count(tiles.len() as int);
                &&& em.contains_key("BP_FLAGS"@) && (em["BP_FLAGS"@] matches EntryData::U32(v)
                    && v@.len() == total && (forall|idx: int|
                    0 <= idx < total ==> v@[idx] == (if spec_tile_at(
                        tiles,
                        meta,
                        air,
                        idx,
                    ).solid {
                        1u32
                    } else {
                        0u32
                    })))
                &&& em.contains_key("BP_TRANS"@) && (em["BP_TRANS"@] matches EntryData::I32(v)
                    && v@.len() == total && (forall|idx: int|
                    0 <= idx < total ==> v@[idx] == spec_tile_at(
                        tiles,
                        meta,
                        air,
                        idx,
                    ).transparency as i32))
                &&& em.contains_key("BP_DMG_TYPE"@) && (em["BP_DMG_TYPE"@] matches
                    EntryData::I32(v) && v@.len() == total && (forall|idx: int|
                    0 <= idx < total ==> v@[idx] == spec_damage_pair(
                        spec_tile_at(tiles, meta, air, idx).damage_type,
                    ).0))
                &&& em.contains_key("BP_DMG"@) && (em["BP_DMG"@] matches EntryData::I32(v)
                    && v@.len() == total && (forall|idx: int|
                    0 <= idx < total ==> v@[idx] == spec_damage_pair(
                        spec_tile_at(tiles, meta, air, idx).damage_type,
                    ).1))
                &&& em.contains_key("BP_ANIM_SPEED"@) && (em["BP_ANIM_SPEED"@] matches
                    EntryData::I32(v) && v@.len() == total && (forall|idx: int|
                    0 <= idx < total ==> v@[idx] == spec_tile_at(
                        tiles,
                        meta,
                        air,
                        idx,
                    ).anim_speed.0))
                &&& em.contains_key("BP_NUM_FRAMES"@) && (em["BP_NUM_FRAMES"@] matches
                    EntryData::I32(v) && v@.len() == total && (forall|idx: int|
                    0 <= idx < total ==> v@[idx] == spec_num_frames_word(
                        spec_tile_at(tiles, meta, air, idx),
                    )))
                &&& em.contains_key("BP_FRAMESX"@) && (em["BP_FRAMESX"@] matches EntryData::I32(
                    v,
                ) && v@.len() == total * 32 && (forall|idx: int|
                    0 <= idx < total ==> v@.subrange(idx * 32, idx * 32 + 32) == spec_frames_x32(
                        spec_tile_at(tiles, meta, air, idx),
                    )))
                &&& em.contains_key("BP_FRAMESY"@) && (em["BP_FRAMESY"@] matches EntryData::I32(
                    v,
                ) && v@.len() == total * 32 && (forall|idx: int|
                    0 <= idx < total ==> v@.subrange(idx * 32, idx * 32 + 32) == spec_frames_y32(
                        spec_tile_at(tiles, meta, air, idx),
                    )))
                &&& em.contains_key("BP_HEIGHTMAP"@) && (em["BP_HEIGHTMAP"@] matches
                    EntryData::U8(v) && v@.len() == total * 32 && (forall|idx: int|
                    0 <= idx < total ==> v@.subrange(idx * 32, idx * 32 + 32) == spec_heightmap32(
                        spec_tile_at(tiles, meta, air, idx),
                    )))
                &&& em.contains_key("BP_HITBOX"@) && (em["BP_HITBOX"@] matches EntryData::Rect(v)
                    && v@.len() == total && (forall|idx: int|
                    0 <= idx < total ==> v@[idx] == spec_hitbox(
                        spec_tile_at(tiles, meta, air, idx),
                    )))
                &&& em.contains_key("BP_COLLTYPE"@) && (em["BP_COLLTYPE"@] matches EntryData::I32(
                    v,
                ) && v@.len() == total && (forall|idx: int|
                    0 <= idx < total ==> v@[idx] == spec_colltype(
                        spec_tile_at(tiles, meta, air, idx),
                    )))
        }
    }
}


/// The background, tile-property and cell entry names all differ: their
/// second characters are 'G', 'P' and 'L'.
pub proof fn lemma_bg_bp_keys_distinct()
    ensures
        "BG_POS"@[1] == 'G' && "BG_ORIGIN"@[1] == 'G' && "BG_SCROLL"@[1] == 'G'
            && "BG_SPACING"@[1] == 'G' && "BG_SPEED"@[1] == 'G' && "BG_REPEAT"@[1] == 'G'
            && "BG_RECT"@[1] == 'G' && "BG_CLEAR_COLOR"@[1] == 'G' && "BG_HIGHLAYER"@[1] == 'G'
            && "BG_TRANS"@[1] == 'G' && "BG_RATIO3D"@[1] == 'G' && "BG_FLAGS"@[1] == 'G',
        "BP_FLAGS"@[1] == 'P' && "BP_TRANS"@[1] == 'P' && "BP_DMG_TYPE"@[1] == 'P'
            && "BP_DMG"@[1] == 'P' && "BP_ANIM_SPEED"@[1] == 'P' && "BP_NUM_FRAMES"@[1] == 'P'
            && "BP_FRAMESX"@[1] == 'P' && "BP_FRAMESY"@[1] == 'P' && "BP_HEIGHTMAP"@[1] == 'P'
            && "BP_HITBOX"@[1] == 'P' && "BP_COLLTYPE"@[1] == 'P',
        "BLOCKS_HEADER"@[1] == 'L' && "BLK_LAYER0"@[1] == 'L' && "BLK_LAYER1"@[1] == 'L'
            && "BLK_LIGHT"@[1] == 'L',
{
    reveal_strlit("BG_POS");
    reveal_strlit("BG_ORIGIN");
    reveal_strlit("BG_SCROLL");
    reveal_strlit("BG_SPACING");
    reveal_strlit("BG_SPEED");
    reveal_strlit("BG_REPEAT");
    reveal_strlit("BG_RECT");
    reveal_strlit("BG_CLEAR_COLOR");
    reveal_strlit("BG_HIGHLAYER");
    reveal_strlit("BG_TRANS");
    reveal_strlit("BG_RATIO3D");
    reveal_strlit("BG_FLAGS");
    reveal_strlit("BP_FLAGS");
    reveal_strlit("BP_TRANS");
    reveal_strlit("BP_DMG_TYPE");
    reveal_strlit("BP_DMG");
    reveal_strlit("BP_ANIM_SPEED");
    reveal_strlit("BP_NUM_FRAMES");
    reveal_strlit("BP_FRAMESX");
    reveal_strlit("BP_FRAMESY");
    reveal_strlit("BP_HEIGHTMAP");
    reveal_strlit("BP_HITBOX");
    reveal_strlit("BP_COLLTYPE");
    reveal_strlit("BLOCKS_HEADER");
    reveal_strlit("BLK_LAYER0");
    reveal_strlit("BLK_LAYER1");
    reveal_strlit("BLK_LIGHT");
}

/// Writes the whole tile-property table into the container: slot 0 and
/// unused slots as air, the reserved slot 256 as the preview tile, and the
/// listed tiles around it.
#[verifier::rlimit(90)]
#[verifier::spinoff_prover]
pub fn save_tile_properties_vec(
    cnmb: &mut LParse,
    version: &VersionSpecs,
    metadata_tile: &TileProperties,
    tile_properties: &[TileProperties],
)
    requires
        tile_properties@.len() < 0x10_0000,
    ensures
        final(cnmb).spec_version_id() == old(cnmb).spec_version_id(),
        spec_tiles_saved(final(cnmb).entries_map(), tile_properties@, *metadata_tile),
        forall|k: Seq<char>|
            k.len() < 2 || k[1] != 'P' ==> (#[trigger] final(cnmb).entries_map().contains_key(k)
                == old(cnmb).entries_map().contains_key(k)) && (old(
                cnmb,
            ).entries_map().contains_key(k)
                ==> final(cnmb).entries_map()[k] == old(cnmb).entries_map()[k]),
{
    let mut bp_flags: Vec<u32> = Vec::new();
    let mut bp_trans: Vec<i32> = Vec::new();
    let mut bp_dmg_type: Vec<i32> = Vec::new();
    let mut bp_dmg: Vec<i32> = Vec::new();
    let mut bp_anim_speed: Vec<i32> = Vec::new();
    let mut bp_num_frames: Vec<i32> = Vec::new();
    let mut bp_framesx: Vec<i32> = Vec::new();
    let mut bp_framesy: Vec<i32> = Vec::new();
    let mut bp_heightmap: Vec<u8> = Vec::new();
    let mut bp_hitbox: Vec<Rect> = Vec::new();
    let mut bp_colltype: Vec<i32> = Vec::new();
    let mut air_frames: Vec<(i32, i32)> = Vec::new();
    air_frames.push((0, 0));
    let air_tile = TileProperties {
        solid: false,
        transparency: 0,
        damage_type: DamageType::NoDamage,
        anim_speed: Duration(1),
        angle: 0,
        frames: air_frames,
        collision_data: CollisionType::Box(Rect { x: 0, y: 0, w: 32, h: 32 }),
    };
    proof {
        assert(air_tile.frames@ =~= seq![(0i32, 0i32)]);
        assert(spec_is_air_tile(air_tile));
    }
    let n = tile_properties.len();
    let base = if n + 1 >= 256 {
        n + 1
    } else {
        256
    };
    let total = base + 1;
    let ghost tiles = tile_properties@;
    let ghost gair = air_tile;
    let ghost gmeta = *metadata_tile;
    let mut idx: usize = 0;
    while idx < total
        invariant
            idx <= total,
            total == spec_tile_slot_count(tiles.len() as int),
            tiles.len() < 0x10_0000,
            n == tiles.len(),
            tiles == tile_properties@,
            gmeta == *metadata_tile,
            spec_is_air_tile(gair),
            gair == air_tile,
            bp_flags@.len() == idx,
            bp_trans@.len() == idx,
            bp_dmg_type@.len() == idx,
            bp_dmg@.len() == idx,
            bp_anim_speed@.len() == idx,
            bp_num_frames@.len() == idx,
            bp_framesx@.len() == idx * 32,
            bp_framesy@.len() == idx * 32,
            bp_heightmap@.len() == idx * 32,
            bp_hitbox@.len() == idx,
            bp_colltype@.len() == idx,
            forall|j: int|
                0 <= j < idx ==> bp_flags@[j] == (if spec_tile_at(tiles, gmeta, gair, j).solid {
                    1u32
                } else {
                    0u32
                }),
            forall|j: int|
                0 <= j < idx ==> bp_trans@[j] == spec_tile_at(
                    tiles,
                    gmeta,
                    gair,
                    j,
                ).transparency as i32,
            forall|j: int|
                0 <= j < idx ==> bp_dmg_type@[j] == spec_damage_pair(
                    spec_tile_at(tiles, gmeta, gair, j).damage_type,
                ).0,
            forall|j: int|
                0 <= j < idx ==> bp_dmg@[j] == spec_damage_pair(
                    spec_tile_at(tiles, gmeta, gair, j).damage_type,
                ).1,
            forall|j: int|
                0 <= j < idx ==> bp_anim_speed@[j] == spec_tile_at(
                    tiles,
                    gmeta,
                    gair,
                    j,
                ).anim_speed.0,
            forall|j: int|
                0 <= j < idx ==> bp_num_frames@[j] == spec_num_frames_word(
                    spec_tile_at(tiles, gmeta, gair, j),
                ),
            forall|j: int|
                0 <= j < idx ==> #[trigger] bp_framesx@.subrange(j * 32, j * 32 + 32)
                    == spec_frames_x32(spec_tile_at(tiles, gmeta, gair, j)),
            forall|j: int|
                0 <= j < idx ==> #[trigger] bp_framesy@.subrange(j * 32, j * 32 + 32)
                    == spec_frames_y32(spec_tile_at(tiles, gmeta, gair, j)),
            forall|j: int|
                0 <= j < idx ==> #[trigger] bp_heightmap@.subrange(j * 32, j * 32 + 32)
                    == spec_heightmap32(spec_tile_at(tiles, gmeta, gair, j)),
            forall|j: int|
                0 <= j < idx ==> bp_hitbox@[j] == spec_hitbox(spec_tile_at(tiles, gmeta, gair, j)),
            forall|j: int|
                0 <= j < idx ==> bp_colltype@[j] == spec_colltype(
                    spec_tile_at(tiles, gmeta, gair, j),
                ),
        decreases total - idx,
    {
        let ghost fx0 = bp_framesx@;
        let ghost fy0 = bp_framesy@;
        let ghost hm0 = bp_heightmap@;
        let tile: &TileProperties = if idx == 0 || (idx != 256 && idx > n) {
            &air_tile
        } else if idx == 256 {
            metadata_tile
        } else if idx < 256 {
            &tile_properties[idx - 1]
        } else {
            &tile_properties[idx - 2]
        };
        proof {
            assert(*tile == spec_tile_at(tiles, gmeta, gair, idx as int));
        }
        tile.save(
            &mut bp_flags,
            &mut bp_trans,
            &mut bp_dmg_type,
            &mut bp_dmg,
            &mut bp_anim_speed,
            &mut bp_num_frames,
            &mut bp_framesx,
            &mut bp_framesy,
            &mut bp_heightmap,
            &mut bp_hitbox,
            &mut bp_colltype,
            version,
        );
        proof {
            assert forall|j: int| 0 <= j < idx + 1 implies #[trigger] bp_framesx@.subrange(
                j * 32,
                j * 32 + 32,
            ) == spec_frames_x32(spec_tile_at(tiles, gmeta, gair, j)) by {
                if j < idx {
                    assert(bp_framesx@.subrange(j * 32, j * 32 + 32) =~= fx0.subrange(
                        j * 32,
                        j * 32 + 32,
                    ));
                } else {
                    assert(bp_framesx@.subrange(j * 32, j * 32 + 32) =~= spec_frames_x32(
                        spec_tile_at(tiles, gmeta, gair, j),
                    ));
                }
            }
            assert forall|j: int| 0 <= j < idx + 1 implies #[trigger] bp_framesy@.subrange(
                j * 32,
                j * 32 + 32,
            ) == spec_frames_y32(spec_tile_at(tiles, gmeta, gair, j)) by {
                if j < idx {
                    assert(bp_framesy@.subrange(j * 32, j * 32 + 32) =~= fy0.subrange(
                        j * 32,
                        j * 32 + 32,
                    ));
                } else {
                    assert(bp_framesy@.subrange(j * 32, j * 32 + 32) =~= spec_frames_y32(
                        spec_tile_at(tiles, gmeta, gair, j),
                    ));
                }
            }
            assert forall|j: int| 0 <= j < idx + 1 implies #[trigger] bp_heightmap@.subrange(
                j * 32,
                j * 32 + 32,
            ) == spec_heightmap32(spec_tile_at(tiles, gmeta, gair, j)) by {
                if j < idx {
                    assert(bp_heightmap@.subrange(j * 32, j * 32 + 32) =~= hm0.subrange(
                        j * 32,
                        j * 32 + 32,
                    ));
                } else {
                    assert(bp_heightmap@.subrange(j * 32, j * 32 + 32) =~= spec_heightmap32(
                        spec_tile_at(tiles, gmeta, gair, j),
                    ));
                }
            }
        }
        idx = idx + 1;
    }
    cnmb.insert_entry("BP_FLAGS".to_owned(), EntryData::U32(bp_flags));
    cnmb.insert_entry("BP_TRANS".to_owned(), EntryData::I32(bp_trans));
    cnmb.insert_entry("BP_DMG_TYPE".to_owned(), EntryData::I32(bp_dmg_type));
    cnmb.insert_entry("BP_DMG".to_owned(), EntryData::I32(bp_dmg));
    cnmb.insert_entry("BP_ANIM_SPEED".to_owned(), EntryData::I32(bp_anim_speed));
    cnmb.insert_entry("BP_NUM_FRAMES".to_owned(), EntryData::I32(bp_num_frames));
    cnmb.insert_entry("BP_FRAMESX".to_owned(), EntryData::I32(bp_framesx));
    cnmb.insert_entry("BP_FRAMESY".to_owned(), EntryData::I32(bp_framesy));
    cnmb.insert_entry("BP_HEIGHTMAP".to_owned(), EntryData::U8(bp_heightmap));
    cnmb.insert_entry("BP_HITBOX".to_owned(), EntryData::Rect(bp_hitbox));
    cnmb.insert_entry("BP_COLLTYPE".to_owned(), EntryData::I32(bp_colltype));
    proof {
        reveal_strlit("BP_FLAGS");
        reveal_strlit("BP_TRANS");
        reveal_strlit("BP_DMG_TYPE");
        reveal_strlit("BP_DMG");
        reveal_strlit("BP_ANIM_SPEED");
        reveal_strlit("BP_NUM_FRAMES");
        reveal_strlit("BP_FRAMESX");
        reveal_strlit("BP_FRAMESY");
        reveal_strlit("BP_HEIGHTMAP");
        reveal_strlit("BP_HITBOX");
        reveal_strlit("BP_COLLTYPE");
        assert("BP_FLAGS"@.len() == 8 && "BP_TRANS"@.len() == 8 && "BP_DMG_TYPE"@.len() == 11
            && "BP_DMG"@.len() == 6 && "BP_ANIM_SPEED"@.len() == 13 && "BP_NUM_FRAMES"@.len()
            == 13 && "BP_FRAMESX"@.len() == 10 && "BP_FRAMESY"@.len() == 10
            && "BP_HEIGHTMAP"@.len() == 12 && "BP_HITBOX"@.len() == 9 && "BP_COLLTYPE"@.len()
            == 11);
        assert("BP_FLAGS"@[3] == 'F' && "BP_TRANS"@[3] == 'T' && "BP_ANIM_SPEED"@[3] == 'A'
            && "BP_NUM_FRAMES"@[3] == 'N' && "BP_FRAMESX"@[9] == 'X' && "BP_FRAMESY"@[9] == 'Y'
            && "BP_DMG_TYPE"@[3] == 'D' && "BP_COLLTYPE"@[3] == 'C');
        assert("BP_FLAGS"@[1] == 'P' && "BP_TRANS"@[1] == 'P' && "BP_DMG_TYPE"@[1] == 'P'
            && "BP_DMG"@[1] == 'P' && "BP_ANIM_SPEED"@[1] == 'P' && "BP_NUM_FRAMES"@[1] == 'P'
            && "BP_FRAMESX"@[1] == 'P' && "BP_FRAMESY"@[1] == 'P' && "BP_HEIGHTMAP"@[1] == 'P'
            && "BP_HITBOX"@[1] == 'P' && "BP_COLLTYPE"@[1] == 'P');
        assert(spec_is_air_tile(gair));
    }
}

} // verus!

verus! {

/// The two kinds of background layer image.
#[derive(Debug, PartialEq, Eq, Structural, Copy, Clone)]
pub enum BackgroundImage {
    /// Clears the screen with a palette color.
    Color(u8),
    /// Draws a source rectangle of the shared bitmap.
    Bitmap(Rect),
}

impl Default for BackgroundImage {
    /// The default image is an empty bitmap rectangle.
    fn default() -> (r: Self)
        ensures
            r == BackgroundImage::Bitmap(Rect { x: 0, y: 0, w: 0, h: 0 }),
    {
        BackgroundImage::Bitmap(Rect { x: 0, y: 0, w: 0, h: 0 })
    }
}

/// Flag bits of a background layer. Bit 0 shows the layer on 4:3 displays,
/// bit 1 on 16:9 displays; other bits are invalid.
#[derive(Debug, Clone, Copy, PartialEq, Eq, Structural)]
pub struct BackgroundFlags(pub u32);

/// The flag bit for 4:3 displays.
pub const BG_SHOW_ON_4_BY_3: u32 = 1;

/// The flag bit for 16:9 displays.
pub const BG_SHOW_ON_16_BY_9: u32 = 2;

impl BackgroundFlags {
    /// The flags a raw word denotes; words with unknown bits give `None`.
    pub fn from_bits(bits: u32) -> (r: Option<Self>)
        ensures
            r == (if bits & 0xffff_fffc == 0 {
                Some(BackgroundFlags(bits))
            } else {
                Option::<BackgroundFlags>::None
            }),
    {
        if bits & 0xffff_fffc == 0 {
            Some(BackgroundFlags(bits))
        } else {
            None
        }
    }

    /// The raw word of these flags.
    pub fn bits(&self) -> (r: u32)
        ensures
            r == self.0,
    {
        self.0
    }
}

impl Default for BackgroundFlags {
    /// By default a layer shows on both display shapes.
    fn default() -> (r: Self)
        ensures
            r == BackgroundFlags(3),
    {
        BackgroundFlags(3)
    }
}

/// A background layer.
#[derive(Debug, Clone, Copy)]
pub struct BackgroundLayer {
    /// Where the image's origin lies (two `f32` bit patterns).
    pub origin: Point,
    /// Parallax divisor; 0 means no scrolling (two `f32` bit patterns).
    pub scroll_speed: Point,
    /// Movement in pixels per tick (two `f32` bit patterns).
    pub speed: Point,
    /// Distance between repeated images, in pixels.
    pub spacing: (i32, i32),
    /// What the layer draws.
    pub image: BackgroundImage,
    /// Transparency level.
    pub transparency: u8,
    /// Whether the image repeats upward.
    pub repeat_up: bool,
    /// Whether the image repeats downward.
    pub repeat_down: bool,
    /// Whether the image repeats to both sides.
    pub repeat_horizontally: bool,
    /// Whether the layer draws over the game (under the HUD).
    pub in_foreground: bool,
    /// Bottom extent of the 3D projection.
    pub bottom3d: u32,
    /// Top extent of the 3D projection.
    pub top3d: u32,
    /// Height of the 3D projection.
    pub height3d: u32,
    /// The layer's flag bits.
    pub flags: BackgroundFlags,
}

/// Whether the container holds the required background arrays with room for
/// layer `idx` (the 3D-ratio and flag arrays are optional).
pub open spec fn spec_bg_entries_ok(em: Map<Seq<char>, EntryData>, idx: int) -> bool {
    &&& em.contains_key("BG_ORIGIN"@) && (em["BG_ORIGIN"@] matches EntryData::F32(v) && v@.len()
        >= idx * 2 + 2)
    &&& em.contains_key("BG_SCROLL"@) && (em["BG_SCROLL"@] matches EntryData::F32(v) && v@.len()
        >= idx * 2 + 2)
    &&& em.contains_key("BG_SPACING"@) && (em["BG_SPACING"@] matches EntryData::I32(v) && v@.len()
        >= idx * 2 + 2)
    &&& em.contains_key("BG_SPEED"@) && (em["BG_SPEED"@] matches EntryData::F32(v) && v@.len()
        >= idx * 2 + 2)
    &&& em.contains_key("BG_REPEAT"@) && (em["BG_REPEAT"@] matches EntryData::U8(v) && v@.len()
        >= idx * 2 + 2)
    &&& em.contains_key("BG_RECT"@) && (em["BG_RECT"@] matches EntryData::Rect(v) && v@.len()
        > idx)
    &&& em.contains_key("BG_CLEAR_COLOR"@) && (em["BG_CLEAR_COLOR"@] matches EntryData::I32(v)
        && v@.len() > idx)
    &&& em.contains_key("BG_HIGHLAYER"@) && (em["BG_HIGHLAYER"@] matches EntryData::U8(v)
        && v@.len() > idx)
    &&& em.contains_key("BG_TRANS"@) && (em["BG_TRANS"@] matches EntryData::U8(v) && v@.len()
        > idx)
    &&& (em.contains_key("BG_RATIO3D"@) ==> (em["BG_RATIO3D"@] matches EntryData::I32(v)
        && v@.len() >= idx * 3 + 3))
    &&& (em.contains_key("BG_FLAGS"@) ==> (em["BG_FLAGS"@] matches EntryData::I32(v) && v@.len()
        > idx))
}

/// Whether `bg` is the decoding of background layer `idx`.
pub open spec fn spec_bg_decoded(
    bg: BackgroundLayer,
    em: Map<Seq<char>, EntryData>,
    idx: int,
) -> bool {
    let rep0 = em["BG_REPEAT"@]->U8_0@[idx * 2];
    let rep1 = em["BG_REPEAT"@]->U8_0@[idx * 2 + 1];
    let color = em["BG_CLEAR_COLOR"@]->I32_0@[idx];
    &&& bg.origin == Point(
        em["BG_ORIGIN"@]->F32_0@[idx * 2],
        em["BG_ORIGIN"@]->F32_0@[idx * 2 + 1],
    )
    &&& bg.scroll_speed == Point(
        em["BG_SCROLL"@]->F32_0@[idx * 2],
        em["BG_SCROLL"@]->F32_0@[idx * 2 + 1],
    )
    &&& bg.speed == Point(em["BG_SPEED"@]->F32_0@[idx * 2], em["BG_SPEED"@]->F32_0@[idx * 2 + 1])
    &&& bg.spacing == (
        em["BG_SPACING"@]->I32_0@[idx * 2],
        em["BG_SPACING"@]->I32_0@[idx * 2 + 1],
    )
    &&& bg.image == (if color == 0 {
        BackgroundImage::Bitmap(em["BG_RECT"@]->Rect_0@[idx])
    } else {
        BackgroundImage::Color(color as u8)
    })
    &&& bg.transparency == em["BG_TRANS"@]->U8_0@[idx]
    &&& bg.repeat_up == (rep1 & 2 != 0)
    &&& bg.repeat_down == (rep1 & 1 != 0)
    &&& bg.repeat_horizontally == (rep0 != 0)
    &&& bg.in_foreground == (em["BG_HIGHLAYER"@]->U8_0@[idx] != 0)
    &&& (if em.contains_key("BG_RATIO3D"@) {
        bg.top3d == em["BG_RATIO3D"@]->I32_0@[idx * 3] as u32 && bg.bottom3d
            == em["BG_RATIO3D"@]->I32_0@[idx * 3 + 1] as u32 && bg.height3d
            == em["BG_RATIO3D"@]->I32_0@[idx * 3 + 2] as u32
    } else {
        bg.top3d == 0 && bg.bottom3d == 0 && bg.height3d == 0
    })
    &&& (if em.contains_key("BG_FLAGS"@) {
        bg.flags == (if (em["BG_FLAGS"@]->I32_0@[idx] as u32) & 0xffff_fffc == 0 {
            BackgroundFlags(em["BG_FLAGS"@]->I32_0@[idx] as u32)
        } else {
            BackgroundFlags(3)
        })
    } else {
        bg.flags == BackgroundFlags(3)
    })
}

impl BackgroundLayer {
    /// Decodes background layer `idx` of the container.
    #[verifier::rlimit(60)]
    pub fn from_lparse(cnmb: &LParse, version: &VersionSpecs, index: usize) -> (r: Result<
        Self,
        Error,
    >)
        requires
            index < 0x1000_0000,
        ensures
            r is Ok <==> spec_bg_entries_ok(cnmb.entries_map(), index as int),
            r matches Ok(bg) ==> spec_bg_decoded(bg, cnmb.entries_map(), index as int),
    {
        let origins = match cnmb.try_get_entry("BG_ORIGIN") {
            Ok(d) => match d.try_get_f32() {
                Ok(v) => v,
                Err(e) => {
                    return Err(e);
                },
            },
            Err(e) => {
                return Err(e);
            },
        };
        let scrolls = match cnmb.try_get_entry("BG_SCROLL") {
            Ok(d) => match d.try_get_f32() {
                Ok(v) => v,
                Err(e) => {
                    return Err(e);
                },
            },
            Err(e) => {
                return Err(e);
            },
        };
        let spacings = match cnmb.try_get_entry("BG_SPACING") {
            Ok(d) => match d.try_get_i32() {
                Ok(v) => v,
                Err(e) => {
                    return Err(e);
                },
            },
            Err(e) => {
                return Err(e);
            },
        };
        let speeds = match cnmb.try_get_entry("BG_SPEED") {
            Ok(d) => match d.try_get_f32() {
                Ok(v) => v,
                Err(e) => {
                    return Err(e);
                },
            },
            Err(e) => {
                return Err(e);
            },
        };
        let repeats = match cnmb.try_get_entry("BG_REPEAT") {
            Ok(d) => match d.try_get_u8() {
                Ok(v) => v,
                Err(e) => {
                    return Err(e);
                },
            },
            Err(e) => {
                return Err(e);
            },
        };
        let rects = match cnmb.try_get_entry("BG_RECT") {
            Ok(d) => match d.try_get_rect() {
                Ok(v) => v,
                Err(e) => {
                    return Err(e);
                },
            },
            Err(e) => {
                return Err(e);
            },
        };
        let colors = match cnmb.try_get_entry("BG_CLEAR_COLOR") {
            Ok(d) => match d.try_get_i32() {
                Ok(v) => v,
                Err(e) => {
                    return Err(e);
                },
            },
            Err(e) => {
                return Err(e);
            },
        };
        let highlayers = match cnmb.try_get_entry("BG_HIGHLAYER") {
            Ok(d) => match d.try_get_u8() {
                Ok(v) => v,
                Err(e) => {
                    return Err(e);
                },
            },
            Err(e) => {
                return Err(e);
            },
        };
        let transparencies = match cnmb.try_get_entry("BG_TRANS") {
            Ok(d) => match d.try_get_u8() {
                Ok(v) => v,
                Err(e) => {
                    return Err(e);
                },
            },
            Err(e) => {
                return Err(e);
            },
        };
        if origins.len() / 2 <= index || scrolls.len() / 2 <= index || spacings.len() / 2 <= index
            || speeds.len() / 2 <= index || repeats.len() / 2 <= index || rects.len() <= index
            || colors.len() <= index || highlayers.len() <= index || transparencies.len()
            <= index {
            return Err(
                Error::Corrupted("the background layer lies outside its arrays".to_owned()),
            );
        }
        proof {
            assert(2 * (index as int) + 2 <= origins@.len()) by (nonlinear_arith)
                requires
                    (index as int) < origins@.len() as int / 2,
            ;
            assert(2 * (index as int) + 2 <= scrolls@.len()) by (nonlinear_arith)
                requires
                    (index as int) < scrolls@.len() as int / 2,
            ;
            assert(2 * (index as int) + 2 <= spacings@.len()) by (nonlinear_arith)
                requires
                    (index as int) < spacings@.len() as int / 2,
            ;
            assert(2 * (index as int) + 2 <= speeds@.len()) by (nonlinear_arith)
                requires
                    (index as int) < speeds@.len() as int / 2,
            ;
            assert(2 * (index as int) + 2 <= repeats@.len()) by (nonlinear_arith)
                requires
                    (index as int) < repeats@.len() as int / 2,
            ;
        }
        let (top3d, bottom3d, height3d) = match cnmb.try_get_entry("BG_RATIO3D") {
            Ok(d) => {
                let ratios = match d.try_get_i32() {
                    Ok(v) => v,
                    Err(e) => {
                        return Err(e);
                    },
                };
                if ratios.len() / 3 <= index {
                    return Err(
                        Error::Corrupted(
                            "the background 3D ratios lie outside their array".to_owned(),
                        ),
                    );
                }
                proof {
                    assert(3 * (index as int) + 3 <= ratios@.len()) by (nonlinear_arith)
                        requires
                            (index as int) < ratios@.len() as int / 3,
                    ;
                }
                (
                    ratios[index * 3] as u32,
                    ratios[index * 3 + 1] as u32,
                    ratios[index * 3 + 2] as u32,
                )
            },
            Err(_) => (0, 0, 0),
        };
        let flags = match cnmb.try_get_entry("BG_FLAGS") {
            Ok(d) => {
                let raw = match d.try_get_i32() {
                    Ok(v) => v,
                    Err(e) => {
                        return Err(e);
                    },
                };
                if raw.len() <= index {
                    return Err(
                        Error::Corrupted(
                            "the background flags lie outside their array".to_owned(),
                        ),
                    );
                }
                match BackgroundFlags::from_bits(raw[index] as u32) {
                    Some(f) => f,
                    None => BackgroundFlags(3),
                }
            },
            Err(_) => BackgroundFlags(3),
        };
        let color = colors[index];
        let image = if color == 0 {
            BackgroundImage::Bitmap(rects[index])
        } else {
            BackgroundImage::Color(color as u8)
        };
        Ok(
            BackgroundLayer {
                origin: Point(origins[2 * index], origins[2 * index + 1]),
                scroll_speed: Point(scrolls[2 * index], scrolls[2 * index + 1]),
                speed: Point(speeds[2 * index], speeds[2 * index + 1]),
                spacing: (spacings[2 * index], spacings[2 * index + 1]),
                image,
                transparency: transparencies[index],
                repeat_up: repeats[2 * index + 1] & 2 != 0,
                repeat_down: repeats[2 * index + 1] & 1 != 0,
                repeat_horizontally: repeats[2 * index] != 0,
                in_foreground: highlayers[index] != 0,
                top3d,
                bottom3d,
                height3d,
                flags,
            },
        )
    }
}

} // verus!

verus! {

/// The repeat byte pair a layer saves: horizontal repetition times three,
/// then up and down packed as bits 1 and 0.
pub open spec fn spec_bg_repeat_pair(bg: BackgroundLayer) -> (u8, u8) {
    (
        if bg.repeat_horizontally {
            3u8
        } else {
            0u8
        },
        ((if bg.repeat_up {
            2u8
        } else {
            0u8
        }) | (if bg.repeat_down {
            1u8
        } else {
            0u8
        })) as u8,
    )
}

/// The rect and clear-color pair a layer saves.
pub open spec fn spec_bg_rect_color(bg: BackgroundLayer) -> (Rect, i32) {
    match bg.image {
        BackgroundImage::Bitmap(r) => (r, 0i32),
        BackgroundImage::Color(c) => (Rect { x: 0, y: 0, w: 0, h: 0 }, c as i32),
    }
}

impl BackgroundLayer {
    /// Appends this layer's words to the parallel background arrays.
    pub fn save(
        &self,
        bg_origin: &mut Vec<u32>,
        bg_scroll: &mut Vec<u32>,
        bg_spacing: &mut Vec<i32>,
        bg_speed: &mut Vec<u32>,
        bg_repeat: &mut Vec<u8>,
        bg_rect: &mut Vec<Rect>,
        bg_clear_color: &mut Vec<i32>,
        bg_highlayer: &mut Vec<u8>,
        bg_trans: &mut Vec<u8>,
        bg_3d: &mut Vec<i32>,
        bg_flags: &mut Vec<i32>,
        version: &VersionSpecs,
    )
        ensures
            final(bg_origin)@ == old(bg_origin)@ + seq![self.origin.0, self.origin.1],
            final(bg_scroll)@ == old(bg_scroll)@ + seq![self.scroll_speed.0, self.scroll_speed.1],
            final(bg_spacing)@ == old(bg_spacing)@ + seq![self.spacing.0, self.spacing.1],
            final(bg_speed)@ == old(bg_speed)@ + seq![self.speed.0, self.speed.1],
            final(bg_repeat)@ == old(bg_repeat)@ + seq![
                spec_bg_repeat_pair(*self).0,
                spec_bg_repeat_pair(*self).1,
            ],
            final(bg_rect)@ == old(bg_rect)@.push(spec_bg_rect_color(*self).0),
            final(bg_clear_color)@ == old(bg_clear_color)@.push(spec_bg_rect_color(*self).1),
            final(bg_highlayer)@ == old(bg_highlayer)@.push(
                if self.in_foreground {
                    1u8
                } else {
                    0u8
                },
            ),
            final(bg_trans)@ == old(bg_trans)@.push(self.transparency),
            final(bg_3d)@ == old(bg_3d)@ + seq![
                self.top3d as i32,
                self.bottom3d as i32,
                self.height3d as i32,
            ],
            final(bg_flags)@ == old(bg_flags)@.push(self.flags.0 as i32),
    {
        bg_origin.push(self.origin.0);
        bg_origin.push(self.origin.1);
        bg_scroll.push(self.scroll_speed.0);
        bg_scroll.push(self.scroll_speed.1);
        bg_spacing.push(self.spacing.0);
        bg_spacing.push(self.spacing.1);
        bg_speed.push(self.speed.0);
        bg_speed.push(self.speed.1);
        bg_repeat.push(
            if self.repeat_horizontally {
                3
            } else {
                0
            },
        );
        bg_repeat.push(
            (if self.repeat_up {
                2u8
            } else {
                0u8
            }) | (if self.repeat_down {
                1u8
            } else {
                0u8
            }),
        );
        match self.image {
            BackgroundImage::Bitmap(rect) => {
                bg_rect.push(rect);
                bg_clear_color.push(0);
            },
            BackgroundImage::Color(color) => {
                bg_rect.push(Rect { x: 0, y: 0, w: 0, h: 0 });
                bg_clear_color.push(color as i32);
            },
        }
        bg_highlayer.push(
            if self.in_foreground {
                1
            } else {
                0
            },
        );
        bg_trans.push(self.transparency);
        bg_3d.push(self.top3d as i32);
        bg_3d.push(self.bottom3d as i32);
        bg_3d.push(self.height3d as i32);
        bg_flags.push(self.flags.0 as i32);
        proof {
            assert(final(bg_origin)@ =~= old(bg_origin)@ + seq![self.origin.0, self.origin.1]);
            assert(final(bg_scroll)@ =~= old(bg_scroll)@ + seq![
                self.scroll_speed.0,
                self.scroll_speed.1,
            ]);
            assert(final(bg_spacing)@ =~= old(bg_spacing)@ + seq![self.spacing.0, self.spacing.1]);
            assert(final(bg_speed)@ =~= old(bg_speed)@ + seq![self.speed.0, self.speed.1]);
            assert(final(bg_repeat)@ =~= old(bg_repeat)@ + seq![
                spec_bg_repeat_pair(*self).0,
                spec_bg_repeat_pair(*self).1,
            ]);
            assert(final(bg_3d)@ =~= old(bg_3d)@ + seq![
                self.top3d as i32,
                self.bottom3d as i32,
                self.height3d as i32,
            ]);
        }
    }
}

/// The number of layers a save writes: at most the version's 32.
pub open spec fn spec_bg_count(len: int) -> int {
    if len < 32 {
        len
    } else {
        32
    }
}

/// Whether `em` holds the background arrays the first (at most) 32 layers
/// save.
pub open spec fn spec_bgs_saved(em: Map<Seq<char>, EntryData>, bgs: Seq<BackgroundLayer>) -> bool {
    let cnt = spec_bg_count(bgs.len() as int);
    {
            &&& em.contains_key("BG_POS"@) && (em["BG_POS"@] matches EntryData::F32(v) && v@
                == Seq::new((2 * cnt) as nat, |k: int| 0u32))
            &&& em.contains_key("BG_ORIGIN"@) && (em["BG_ORIGIN"@] matches EntryData::F32(v)
                && v@.len() == 2 * cnt && (forall|j: int|
                0 <= j < cnt ==> v@[2 * j] == (#[trigger] bgs[j]).origin.0 && v@[2 * j + 1]
                    == bgs[j].origin.1))
            &&& em.contains_key("BG_SCROLL"@) && (em["BG_SCROLL"@] matches EntryData::F32(v)
                && v@.len() == 2 * cnt && (forall|j: int|
                0 <= j < cnt ==> v@[2 * j] == (#[trigger] bgs[j]).scroll_speed.0 && v@[2 * j + 1]
                    == bgs[j].scroll_speed.1))
            &&& em.contains_key("BG_SPACING"@) && (em["BG_SPACING"@] matches EntryData::I32(v)
                && v@.len() == 2 * cnt && (forall|j: int|
                0 <= j < cnt ==> v@[2 * j] == (#[trigger] bgs[j]).spacing.0 && v@[2 * j + 1]
                    == bgs[j].spacing.1))
            &&& em.contains_key("BG_SPEED"@) && (em["BG_SPEED"@] matches EntryData::F32(v)
                && v@.len() == 2 * cnt && (forall|j: int|
                0 <= j < cnt ==> v@[2 * j] == (#[trigger] bgs[j]).speed.0 && v@[2 * j + 1]
                    == bgs[j].speed.1))
            &&& em.contains_key("BG_REPEAT"@) && (em["BG_REPEAT"@] matches EntryData::U8(v)
                && v@.len() == 2 * cnt && (forall|j: int|
                0 <= j < cnt ==> v@[2 * j] == spec_bg_repeat_pair(#[trigger] bgs[j]).0 && v@[2 * j
                    + 1] == spec_bg_repeat_pair(bgs[j]).1))
            &&& em.contains_key("BG_RECT"@) && (em["BG_RECT"@] matches EntryData::Rect(v)
                && v@.len() == cnt && (forall|j: int|
                0 <= j < cnt ==> v@[j] == spec_bg_rect_color(#[trigger] bgs[j]).0))
            &&& em.contains_key("BG_CLEAR_COLOR"@) && (em["BG_CLEAR_COLOR"@] matches
                EntryData::I32(v) && v@.len() == cnt && (forall|j: int|
                0 <= j < cnt ==> v@[j] == spec_bg_rect_color(#[trigger] bgs[j]).1))
            &&& em.contains_key("BG_HIGHLAYER"@) && (em["BG_HIGHLAYER"@] matches EntryData::U8(v)
                && v@.len() == cnt && (forall|j: int|
                0 <= j < cnt ==> v@[j] == (if (#[trigger] bgs[j]).in_foreground {
                    1u8
                } else {
                    0u8
                })))
            &&& em.contains_key("BG_TRANS"@) && (em["BG_TRANS"@] matches EntryData::U8(v)
                && v@.len() == cnt && (forall|j: int|
                0 <= j < cnt ==> v@[j] == (#[trigger] bgs[j]).transparency))
            &&& em.contains_key("BG_RATIO3D"@) && (em["BG_RATIO3D"@] matches EntryData::I32(v)
                && v@.len() == 3 * cnt && (forall|j: int|
                0 <= j < cnt ==> v@[3 * j] == (#[trigger] bgs[j]).top3d as i32 && v@[3 * j + 1]
                    == bgs[j].bottom3d as i32 && v@[3 * j + 2] == bgs[j].height3d as i32))
            &&& em.contains_key("BG_FLAGS"@) && (em["BG_FLAGS"@] matches EntryData::I32(v)
                && v@.len() == cnt && (forall|j: int|
                0 <= j < cnt ==> v@[j] == (#[trigger] bgs[j]).flags.0 as i32))
    }
}

/// Writes the background arrays of the first (at most) 32 layers into the
/// container.
#[verifier::rlimit(90)]
#[verifier::spinoff_prover]
pub fn save_background_vec(
    cnmb: &mut LParse,
    version: &VersionSpecs,
    backgrounds: &[BackgroundLayer],
)
    ensures
        final(cnmb).spec_version_id() == old(cnmb).spec_version_id(),
        spec_bgs_saved(final(cnmb).entries_map(), backgrounds@),
        forall|k: Seq<char>|
            k.len() < 2 || k[1] != 'G' ==> (#[trigger] final(cnmb).entries_map().contains_key(k)
                == old(cnmb).entries_map().contains_key(k)) && (old(
                cnmb,
            ).entries_map().contains_key(k)
                ==> final(cnmb).entries_map()[k] == old(cnmb).entries_map()[k]),
{
    let mut bg_pos: Vec<u32> = Vec::new();
    let mut bg_origin: Vec<u32> = Vec::new();
    let mut bg_scroll: Vec<u32> = Vec::new();
    let mut bg_spacing: Vec<i32> = Vec::new();
    let mut bg_speed: Vec<u32> = Vec::new();
    let mut bg_repeat: Vec<u8> = Vec::new();
    let mut bg_rect: Vec<Rect> = Vec::new();
    let mut bg_clear_color: Vec<i32> = Vec::new();
    let mut bg_highlayer: Vec<u8> = Vec::new();
    let mut bg_trans: Vec<u8> = Vec::new();
    let mut bg_3d: Vec<i32> = Vec::new();
    let mut bg_flags: Vec<i32> = Vec::new();
    let cnt = if backgrounds.len() < 32 {
        backgrounds.len()
    } else {
        32
    };
    let ghost bgs = backgrounds@;
    let mut i: usize = 0;
    while i < cnt
        invariant
            i <= cnt,
            cnt == spec_bg_count(bgs.len() as int),
            cnt <= bgs.len(),
            bgs == backgrounds@,
            bg_pos@ == Seq::new((2 * i) as nat, |k: int| 0u32),
            bg_origin@.len() == 2 * i,
            bg_scroll@.len() == 2 * i,
            bg_spacing@.len() == 2 * i,
            bg_speed@.len() == 2 * i,
            bg_repeat@.len() == 2 * i,
            bg_rect@.len() == i,
            bg_clear_color@.len() == i,
            bg_highlayer@.len() == i,
            bg_trans@.len() == i,
            bg_3d@.len() == 3 * i,
            bg_flags@.len() == i,
            forall|j: int|
                0 <= j < i ==> bg_origin@[2 * j] == (#[trigger] bgs[j]).origin.0 && bg_origin@[2
                    * j + 1] == bgs[j].origin.1,
            forall|j: int|
                0 <= j < i ==> bg_scroll@[2 * j] == (#[trigger] bgs[j]).scroll_speed.0
                    && bg_scroll@[2 * j + 1] == bgs[j].scroll_speed.1,
            forall|j: int|
                0 <= j < i ==> bg_spacing@[2 * j] == (#[trigger] bgs[j]).spacing.0 && bg_spacing@[
                    2 * j + 1] == bgs[j].spacing.1,
            forall|j: int|
                0 <= j < i ==> bg_speed@[2 * j] == (#[trigger] bgs[j]).speed.0 && bg_speed@[2 * j
                    + 1] == bgs[j].speed.1,
            forall|j: int|
                0 <= j < i ==> bg_repeat@[2 * j] == spec_bg_repeat_pair(#[trigger] bgs[j]).0
                    && bg_repeat@[2 * j + 1] == spec_bg_repeat_pair(bgs[j]).1,
            forall|j: int| 0 <= j < i ==> bg_rect@[j] == spec_bg_rect_color(#[trigger] bgs[j]).0,
            forall|j: int|
                0 <= j < i ==> bg_clear_color@[j] == spec_bg_rect_color(#[trigger] bgs[j]).1,
            forall|j: int|
                0 <= j < i ==> bg_highlayer@[j] == (if (#[trigger] bgs[j]).in_foreground {
                    1u8
                } else {
                    0u8
                }),
            forall|j: int| 0 <= j < i ==> bg_trans@[j] == (#[trigger] bgs[j]).transparency,
            forall|j: int|
                0 <= j < i ==> bg_3d@[3 * j] == (#[trigger] bgs[j]).top3d as i32 && bg_3d@[3 * j
                    + 1] == bgs[j].bottom3d as i32 && bg_3d@[3 * j + 2] == bgs[j].height3d as i32,
            forall|j: int| 0 <= j < i ==> bg_flags@[j] == (#[trigger] bgs[j]).flags.0 as i32,
        decreases cnt - i,
    {
        bg_pos.push(0);
        bg_pos.push(0);
        proof {
            assert(bg_pos@ =~= Seq::new((2 * (i + 1)) as nat, |k: int| 0u32));
        }
        let bg = &backgrounds[i];
        bg.save(
            &mut bg_origin,
            &mut bg_scroll,
            &mut bg_spacing,
            &mut bg_speed,
            &mut bg_repeat,
            &mut bg_rect,
            &mut bg_clear_color,
            &mut bg_highlayer,
            &mut bg_trans,
            &mut bg_3d,
            &mut bg_flags,
            version,
        );
        i = i + 1;
    }
    cnmb.insert_entry("BG_POS".to_owned(), EntryData::F32(bg_pos));
    cnmb.insert_entry("BG_ORIGIN".to_owned(), EntryData::F32(bg_origin));
    cnmb.insert_entry("BG_SCROLL".to_owned(), EntryData::F32(bg_scroll));
    cnmb.insert_entry("BG_SPACING".to_owned(), EntryData::I32(bg_spacing));
    cnmb.insert_entry("BG_SPEED".to_owned(), EntryData::F32(bg_speed));
    cnmb.insert_entry("BG_REPEAT".to_owned(), EntryData::U8(bg_repeat));
    cnmb.insert_entry("BG_RECT".to_owned(), EntryData::Rect(bg_rect));
    cnmb.insert_entry("BG_CLEAR_COLOR".to_owned(), EntryData::I32(bg_clear_color));
    cnmb.insert_entry("BG_HIGHLAYER".to_owned(), EntryData::U8(bg_highlayer));
    cnmb.insert_entry("BG_TRANS".to_owned(), EntryData::U8(bg_trans));
    cnmb.insert_entry("BG_RATIO3D".to_owned(), EntryData::I32(bg_3d));
    cnmb.insert_entry("BG_FLAGS".to_owned(), EntryData::I32(bg_flags));
    proof {
        reveal_strlit("BG_POS");
        reveal_strlit("BG_ORIGIN");
        reveal_strlit("BG_SCROLL");
        reveal_strlit("BG_SPACING");
        reveal_strlit("BG_SPEED");
        reveal_strlit("BG_REPEAT");
        reveal_strlit("BG_RECT");
        reveal_strlit("BG_CLEAR_COLOR");
        reveal_strlit("BG_HIGHLAYER");
        reveal_strlit("BG_TRANS");
        reveal_strlit("BG_RATIO3D");
        reveal_strlit("BG_FLAGS");
        assert("BG_POS"@.len() == 6 && "BG_ORIGIN"@.len() == 9 && "BG_SCROLL"@.len() == 9
            && "BG_SPACING"@.len() == 10 && "BG_SPEED"@.len() == 8 && "BG_REPEAT"@.len() == 9
            && "BG_RECT"@.len() == 7 && "BG_CLEAR_COLOR"@.len() == 14 && "BG_HIGHLAYER"@.len()
            == 12 && "BG_TRANS"@.len() == 8 && "BG_RATIO3D"@.len() == 10 && "BG_FLAGS"@.len()
            == 8);
        assert("BG_POS"@[1] == 'G' && "BG_ORIGIN"@[1] == 'G' && "BG_SCROLL"@[1] == 'G'
            && "BG_SPACING"@[1] == 'G' && "BG_SPEED"@[1] == 'G' && "BG_REPEAT"@[1] == 'G'
            && "BG_RECT"@[1] == 'G' && "BG_CLEAR_COLOR"@[1] == 'G' && "BG_HIGHLAYER"@[1] == 'G'
            && "BG_TRANS"@[1] == 'G' && "BG_RATIO3D"@[1] == 'G' && "BG_FLAGS"@[1] == 'G');
        assert("BG_ORIGIN"@[3] == 'O' && "BG_SCROLL"@[3] == 'S' && "BG_REPEAT"@[3] == 'R'
            && "BG_SPEED"@[3] == 'S' && "BG_TRANS"@[3] == 'T' && "BG_FLAGS"@[3] == 'F'
            && "BG_SPEED"@[4] == 'P' && "BG_TRANS"@[4] == 'R' && "BG_FLAGS"@[4] == 'L'
            && "BG_SPACING"@[4] == 'P' && "BG_RATIO3D"@[4] == 'A' && "BG_SPACING"@[3] == 'S'
            && "BG_RATIO3D"@[3] == 'R' && "BG_SCROLL"@[4] == 'C' && "BG_REPEAT"@[4] == 'E');
    }
}

} // verus!
