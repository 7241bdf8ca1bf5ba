//! The look-up texture: eight columns, one per light, of eight RGBA
//! rows each. Cells hold the bits of 32-bit floats.
use vstd::prelude::*;
use crate::vtf::ONE_BITS;

verus! {

/// Rows of the look-up texture.
pub const LUT_HEIGHT: usize = 8;

/// Cells in the whole texture: four channels per pixel.
pub const LUT_CELLS: usize = 256;

/// The bits of the float 2.0.
pub const TWO_BITS: u32 = 0x4000_0000;

/// The shape of a light.
#[derive(Clone, Copy, Debug, PartialEq, Eq, Structural)]
pub enum LightKind {
    Point,
    Spot,
    Rect,
}

pub open spec fn kind_name(k: LightKind) -> Seq<char> {
    match k {
        LightKind::Point => "Point"@,
        LightKind::Spot => "Spot"@,
        LightKind::Rect => "Area"@,
    }
}

/// The bits of the float that encodes the shape: 0, 1 or 2.
pub open spec fn kind_bits(k: LightKind) -> u32 {
    match k {
        LightKind::Point => 0,
        LightKind::Spot => ONE_BITS,
        LightKind::Rect => TWO_BITS,
    }
}

impl LightKind {
    /// The display name of the shape.
    pub fn name(&self) -> (r: &'static str)
        ensures
            r@ == kind_name(*self),
    {
        match self {
            LightKind::Point => "Point",
            LightKind::Spot => "Spot",
            LightKind::Rect => "Area",
        }
    }

    pub fn type_bits(&self) -> (r: u32)
        ensures
            r == kind_bits(*self),
    {
        match self {
            LightKind::Point => 0,
            LightKind::Spot => ONE_BITS,
            LightKind::Rect => TWO_BITS,
        }
    }
}

/// A blocker baked beside a light: its size (width, height, depth) and its
/// offset from the light. A fizzler's offset is in the light's own frame.
#[derive(Clone, Copy, Debug)]
pub struct BlockerCell {
    pub size: [u32; 3],
    pub offset: [u32; 3],
    pub fizzler: bool,
}

/// What one column of the texture encodes. `param1`, `param2` and `extra` are
/// the cosines of the cone angles and the exponent for a spot, width, height
/// and two-sidedness for a rect, and zero for a point.
#[derive(Clone, Copy, Debug)]
pub struct LutLight {
    pub kind: LightKind,
    pub pos: [u32; 3],
    pub color: [u32; 3],
    pub intensity: u32,
    pub dir: [u32; 3],
    pub param1: u32,
    pub param2: u32,
    pub extra: u32,
    pub range: u32,
    pub attenuation_k: u32,
    pub blocker0: Option<BlockerCell>,
    pub blocker1: Option<BlockerCell>,
}

/// The size row of a blocker: a fizzler's size is written width, depth,
/// height; the fourth channel is the flag, 2 for a fizzler and 1 otherwise.
pub open spec fn size_cell(b: Option<BlockerCell>, ch: int) -> u32 {
    match b {
        None => 0,
        Some(b) => if ch == 3 {
            if b.fizzler {
                TWO_BITS
            } else {
                ONE_BITS
            }
        } else if b.fizzler {
            seq![b.size@[0], b.size@[2], b.size@[1]][ch]
        } else {
            b.size@[ch]
        },
    }
}

pub open spec fn offset_cell(b: Option<BlockerCell>, ch: int) -> u32 {
    match b {
        None => 0,
        Some(b) => if ch == 3 {
            0
        } else {
            b.offset@[ch]
        },
    }
}

/// Row `row`, channel `ch` of a light's column.
pub open spec fn column_cell(l: LutLight, row: int, ch: int) -> u32 {
    if row == 0 {
        if ch < 3 {
            l.pos@[ch]
        } else {
            kind_bits(l.kind)
        }
    } else if row == 1 {
        if ch < 3 {
            l.color@[ch]
        } else {
            l.intensity
        }
    } else if row == 2 {
        if ch < 3 {
            l.dir@[ch]
        } else {
            l.param1
        }
    } else if row == 3 {
        seq![l.range, l.attenuation_k, l.param2, l.extra][ch]
    } else if row == 4 {
        size_cell(l.blocker0, ch)
    } else if row == 5 {
        offset_cell(l.blocker0, ch)
    } else if row == 6 {
        size_cell(l.blocker1, ch)
    } else {
        offset_cell(l.blocker1, ch)
    }
}

/// A cell of the texture: the light's column where there is a light, else
/// black with full alpha. Lights past the eighth are left out.
pub open spec fn lut_cell(lights: Seq<LutLight>, row: int, col: int, ch: int) -> u32 {
    if col < lights.len() {
        column_cell(lights[col], row, ch)
    } else if ch == 3 {
        ONE_BITS
    } else {
        0
    }
}

/// The cell at position `i` of the pixel buffer: rows first, then columns,
/// then the four channels.
pub open spec fn cell_at(lights: Seq<LutLight>, i: int) -> u32 {
    lut_cell(lights, i / 32, (i / 4) % 8, i % 4)
}

fn size_cell_exec(b: &Option<BlockerCell>, ch: usize) -> (r: u32)
    requires
        ch < 4,
    ensures
        r == size_cell(*b, ch as int),
{
    match b {
        None => 0,
        Some(b) => if ch == 3 {
            if b.fizzler {
                TWO_BITS
            } else {
                ONE_BITS
            }
        } else if b.fizzler {
            let order: [usize; 3] = [0, 2, 1];
            b.size[order[ch]]
        } else {
            b.size[ch]
        },
    }
}

fn offset_cell_exec(b: &Option<BlockerCell>, ch: usize) -> (r: u32)
    requires
        ch < 4,
    ensures
        r == offset_cell(*b, ch as int),
{
    match b {
        None => 0,
        Some(b) => if ch == 3 {
            0
        } else {
            b.offset[ch]
        },
    }
}

fn column_cell_exec(l: &LutLight, row: usize, ch: usize) -> (r: u32)
    requires
        row < 8,
        ch < 4,
    ensures
        r == column_cell(*l, row as int, ch as int),
{
    if row == 0 {
        if ch < 3 {
            l.pos[ch]
        } else {
            l.kind.type_bits()
        }
    } else if row == 1 {
        if ch < 3 {
            l.color[ch]
        } else {
            l.intensity
        }
    } else if row == 2 {
        if ch < 3 {
            l.dir[ch]
        } else {
            l.param1
        }
    } else if row == 3 {
        let cells: [u32; 4] = [l.range, l.attenuation_k, l.param2, l.extra];
        assert(cells@ =~= seq![l.range, l.attenuation_k, l.param2, l.extra]);
        cells[ch]
    } else if row == 4 {
        size_cell_exec(&l.blocker0, ch)
    } else if row == 5 {
        offset_cell_exec(&l.blocker0, ch)
    } else if row == 6 {
        size_cell_exec(&l.blocker1, ch)
    } else {
        offset_cell_exec(&l.blocker1, ch)
    }
}

/// Lay out the texture for the lights of one surface, in their order.
pub fn lut_pixels(lights: &Vec<LutLight>) -> (r: Vec<u32>)
    ensures
        r@.len() == LUT_CELLS,
        forall|i: int| 0 <= i < LUT_CELLS ==> #[trigger] r@[i] == cell_at(lights@, i),
{
    let mut r: Vec<u32> = Vec::new();
    let mut i: usize = 0;
    while i < LUT_CELLS
        invariant
            i <= LUT_CELLS,
            r@.len() == i,
            forall|t: int| 0 <= t < i ==> #[trigger] r@[t] == cell_at(lights@, t),
        decreases LUT_CELLS - i,
    {
        let row = i / 32;
        let col = (i / 4) % 8;
        let ch = i % 4;
        let v = if col < lights.len() {
            column_cell_exec(&lights[col], row, ch)
        } else if ch == 3 {
            ONE_BITS
        } else {
            0
        };
        r.push(v);
        i = i + 1;
    }
    r
}

} // verus!
