//! The closed set of known pad layouts.
//!
//! Each style maps column indices to pad coordinates (in tenths of a panel),
//! names the columns each foot starts on, and knows how a logical column
//! expands into physical panels for bracket styles.

use vstd::prelude::*;
use vstd::string::StringSliceAdditionalSpecFns;
use crate::coord::Coord;
use crate::foot::Foot;

verus! {

/// A pad layout: which game, how many pads, and any bracket variant.
#[derive(Copy, Clone, Debug, Eq, PartialEq, Structural)]
pub enum Style {
    ItgSingles,
    ItgDoubles,
    ItgTriples,
    PumpSingles,
    PumpDoubles,
    PumpTriples,
    PumpHalfDoubles,
    PumpDoublesBrackets,
    PumpMiddleFour,
    HorizonSingles,
    HorizonDoubles,
    HorizonTriples,
    Quads,
    StupidQuads,
}

/// The name that failed to parse as a style, kept for diagnostics.
#[derive(Clone, Debug)]
pub struct StyleParseError(pub Vec<u8>);

impl StyleParseError {
    /// A human-readable description of the parse failure.
    pub fn message(&self) -> (r: Vec<u8>)
        ensures
            r@ == "could not parse style '".spec_bytes() + self.0@ + "'".spec_bytes(),
    {
        let mut r: Vec<u8> = Vec::new();
        append_str(&mut r, "could not parse style '");
        r.extend_from_slice(self.0.as_slice());
        append_str(&mut r, "'");
        proof {
            assert(r@ =~= "could not parse style '".spec_bytes() + self.0@
                + "'".spec_bytes());
        }
        r
    }
}

/// Append the UTF-8 bytes of a string to a byte buffer.
pub fn append_str(out: &mut Vec<u8>, s: &str)
    ensures
        final(out)@ == old(out)@ + s.spec_bytes(),
{
    let bytes = s.as_bytes();
    out.extend_from_slice(bytes);
}

/// Exact byte-for-byte equality of two byte slices.
pub fn bytes_eq(a: &[u8], b: &[u8]) -> (r: bool)
    ensures
        r <==> a@ == b@,
{
    if a.len() != b.len() {
        proof {
            assert(a@.len() != b@.len());
        }
        return false;
    }
    let mut i: usize = 0;
    while i < a.len()
        invariant
            i <= a.len(),
            a.len() == b.len(),
            forall|j: int| 0 <= j < i ==> a@[j] == b@[j],
        decreases a.len() - i,
    {
        if a[i] != b[i] {
            return false;
        }
        i = i + 1;
    }
    proof {
        assert(a@ =~= b@);
    }
    true
}

impl Style {
    /// The number of logical columns in this layout's notation.
    pub open spec fn spec_num_cols(self) -> int {
        match self {
            Style::ItgSingles => 4,
            Style::ItgDoubles => 8,
            Style::ItgTriples => 12,
            Style::PumpSingles => 5,
            Style::PumpDoubles => 10,
            Style::PumpTriples => 15,
            Style::PumpHalfDoubles => 6,
            Style::PumpDoublesBrackets => 10,
            Style::PumpMiddleFour => 4,
            Style::HorizonSingles => 9,
            Style::HorizonDoubles => 18,
            Style::HorizonTriples => 27,
            Style::Quads => 18,
            Style::StupidQuads => 18,
        }
    }

    /// How many columns this layout offers.
    pub fn num_cols(&self) -> (r: i8)
        ensures
            r == self.spec_num_cols(),
            1 <= r <= 27,
    {
        match self {
            Style::ItgSingles => 4,
            Style::ItgDoubles => 8,
            Style::ItgTriples => 12,
            Style::PumpSingles => 5,
            Style::PumpDoubles => 10,
            Style::PumpTriples => 15,
            Style::PumpHalfDoubles => 6,
            Style::PumpDoublesBrackets => 10,
            Style::PumpMiddleFour => 4,
            Style::HorizonSingles => 9,
            Style::HorizonDoubles => 18,
            Style::HorizonTriples => 27,
            Style::Quads => 18,
            Style::StupidQuads => 18,
        }
    }

    /// Columns of padding zeros written on each side of a generated row,
    /// for styles notated inside a wider physical layout.
    pub open spec fn spec_extra_0s(self) -> int {
        match self {
            Style::PumpHalfDoubles => 2,
            Style::PumpMiddleFour => 3,
            _ => 0,
        }
    }

    /// Zero-padding on each side of a generated notation row.
    pub fn extra_0s(&self) -> (r: usize)
        ensures
            r == self.spec_extra_0s(),
            r <= 3,
    {
        match self {
            Style::PumpHalfDoubles => 2,
            Style::PumpMiddleFour => 3,
            _ => 0,
        }
    }

    /// The name this layout carries in simfile notation, as UTF-8 bytes.
    pub open spec fn spec_sm_string(self) -> Seq<u8> {
        match self {
            Style::ItgSingles => "dance-single".spec_bytes(),
            Style::ItgDoubles => "dance-double".spec_bytes(),
            Style::ItgTriples => "dance-triple".spec_bytes(),
            Style::PumpSingles => "pump-single".spec_bytes(),
            Style::PumpDoubles => "pump-double".spec_bytes(),
            Style::PumpTriples => "pump-triple".spec_bytes(),
            Style::PumpHalfDoubles => "pump-double".spec_bytes(),
            Style::PumpDoublesBrackets => "pump-double".spec_bytes(),
            Style::PumpMiddleFour => "pump-double".spec_bytes(),
            Style::HorizonSingles => "horizon-single".spec_bytes(),
            Style::HorizonDoubles => "horizon-double".spec_bytes(),
            Style::HorizonTriples => "horizon-triple".spec_bytes(),
            Style::Quads => "quads".spec_bytes(),
            Style::StupidQuads => "stupid-quads".spec_bytes(),
        }
    }

    /// The simfile name of this layout.
    pub fn sm_string(&self) -> (r: &'static str)
        ensures
            r.spec_bytes() == self.spec_sm_string(),
    {
        match self {
            Style::ItgSingles => "dance-single",
            Style::ItgDoubles => "dance-double",
            Style::ItgTriples => "dance-triple",
            Style::PumpSingles => "pump-single",
            Style::PumpDoubles => "pump-double",
            Style::PumpTriples => "pump-triple",
            Style::PumpHalfDoubles => "pump-double",
            Style::PumpDoublesBrackets => "pump-double",
            Style::PumpMiddleFour => "pump-double",
            Style::HorizonSingles => "horizon-single",
            Style::HorizonDoubles => "horizon-double",
            Style::HorizonTriples => "horizon-triple",
            Style::Quads => "quads",
            Style::StupidQuads => "stupid-quads",
        }
    }

    /// The column each foot is placed on before the first sampled step.
    pub open spec fn spec_init_col(self, foot: Foot) -> int {
        match self {
            Style::ItgSingles => match foot {
                Foot::Left => 0,
                Foot::Right => 3,
            },
            Style::ItgDoubles => match foot {
                Foot::Left => 3,
                Foot::Right => 4,
            },
            Style::ItgTriples => match foot {
                Foot::Left => 4,
                Foot::Right => 7,
            },
            Style::PumpSingles => match foot {
                Foot::Left => 0,
                Foot::Right => 4,
            },
            Style::PumpDoubles | Style::StupidQuads => match foot {
                Foot::Left => 4,
                Foot::Right => 5,
            },
            Style::PumpTriples => match foot {
                Foot::Left => 5,
                Foot::Right => 9,
            },
            Style::PumpHalfDoubles => match foot {
                Foot::Left => 2,
                Foot::Right => 3,
            },
            Style::PumpMiddleFour => match foot {
                Foot::Left => 1,
                Foot::Right => 2,
            },
            Style::PumpDoublesBrackets => match foot {
                Foot::Left => 3,
                Foot::Right => 6,
            },
            Style::HorizonSingles => match foot {
                Foot::Left => 1,
                Foot::Right => 7,
            },
            Style::HorizonDoubles => match foot {
                Foot::Left => 7,
                Foot::Right => 10,
            },
            Style::HorizonTriples => match foot {
                Foot::Left => 9,
                Foot::Right => 15,
            },
            Style::Quads => match foot {
                Foot::Left => 9,
                Foot::Right => 10,
            },
        }
    }

    /// Initial column for the given foot at chart start.
    pub fn init_col(&self, foot: Foot) -> (r: i8)
        ensures
            r == self.spec_init_col(foot),
            0 <= r < self.spec_num_cols(),
    {
        match self {
            Style::ItgSingles => match foot {
                Foot::Left => 0,
                Foot::Right => 3,
            },
            Style::ItgDoubles => match foot {
                Foot::Left => 3,
                Foot::Right => 4,
            },
            Style::ItgTriples => match foot {
                Foot::Left => 4,
                Foot::Right => 7,
            },
            Style::PumpSingles => match foot {
                Foot::Left => 0,
                Foot::Right => 4,
            },
            Style::PumpDoubles | Style::StupidQuads => match foot {
                Foot::Left => 4,
                Foot::Right => 5,
            },
            Style::PumpTriples => match foot {
                Foot::Left => 5,
                Foot::Right => 9,
            },
            Style::PumpHalfDoubles => match foot {
                Foot::Left => 2,
                Foot::Right => 3,
            },
            Style::PumpMiddleFour => match foot {
                Foot::Left => 1,
                Foot::Right => 2,
            },
            Style::PumpDoublesBrackets => match foot {
                Foot::Left => 3,
                Foot::Right => 6,
            },
            Style::HorizonSingles => match foot {
                Foot::Left => 1,
                Foot::Right => 7,
            },
            Style::HorizonDoubles => match foot {
                Foot::Left => 7,
                Foot::Right => 10,
            },
            Style::HorizonTriples => match foot {
                Foot::Left => 9,
                Foot::Right => 15,
            },
            Style::Quads => match foot {
                Foot::Left => 9,
                Foot::Right => 10,
            },
        }
    }

    /// Largest x coordinate of any panel, in tenths of a panel.
    pub open spec fn spec_max_x_coord(self) -> int {
        match self {
            Style::ItgSingles | Style::PumpSingles | Style::HorizonSingles => 20,
            Style::ItgDoubles | Style::PumpDoubles | Style::HorizonDoubles
                | Style::StupidQuads => 50,
            Style::ItgTriples | Style::PumpTriples | Style::HorizonTriples => 80,
            Style::PumpHalfDoubles => 30,
            Style::PumpMiddleFour => 10,
            Style::PumpDoublesBrackets => 40,
            Style::Quads => 110,
        }
    }

    /// Largest x coordinate of any panel, in tenths.
    pub fn max_x_coord(&self) -> (r: i64)
        ensures
            r == self.spec_max_x_coord(),
            10 <= r <= 110,
    {
        match self {
            Style::ItgSingles | Style::PumpSingles | Style::HorizonSingles => 20,
            Style::ItgDoubles | Style::PumpDoubles | Style::HorizonDoubles
                | Style::StupidQuads => 50,
            Style::ItgTriples | Style::PumpTriples | Style::HorizonTriples => 80,
            Style::PumpHalfDoubles => 30,
            Style::PumpMiddleFour => 10,
            Style::PumpDoublesBrackets => 40,
            Style::Quads => 110,
        }
    }

    /// Largest y coordinate of any panel, in tenths of a panel.
    pub open spec fn spec_max_y_coord(self) -> int {
        match self {
            Style::StupidQuads => 50,
            _ => 20,
        }
    }

    /// Largest y coordinate of any panel, in tenths.
    pub fn max_y_coord(&self) -> (r: i64)
        ensures
            r == self.spec_max_y_coord(),
            10 <= r <= 50,
    {
        match self {
            Style::StupidQuads => 50,
            _ => 20,
        }
    }

    /// Horizontal center of the layout, in tenths.
    pub open spec fn spec_center_x(self) -> int {
        self.spec_max_x_coord() / 2
    }

    /// Horizontal center of the layout, in tenths.
    pub fn center_x(&self) -> (r: i64)
        ensures
            r == self.spec_center_x(),
            5 <= r <= 55,
    {
        let m = self.max_x_coord();
        ((m as u64) / 2) as i64
    }

    /// Vertical center of the layout, in tenths.
    pub open spec fn spec_center_y(self) -> int {
        self.spec_max_y_coord() / 2
    }

    /// Vertical center of the layout, in tenths.
    pub fn center_y(&self) -> (r: i64)
        ensures
            r == self.spec_center_y(),
    {
        let m = self.max_y_coord();
        ((m as u64) / 2) as i64
    }

    /// The center point of the layout.
    pub fn center(&self) -> (r: Coord)
        ensures
            r.x == self.spec_center_x(),
            r.y == self.spec_center_y(),
            r.wf(),
    {
        Coord { x: self.center_x(), y: self.center_y() }
    }

    /// The reference "bar" point behind the pad, used for the body-twist
    /// check: horizontally centered, half a panel behind the front row.
    pub open spec fn spec_bar_coord(self) -> Coord {
        Coord { x: self.spec_center_x() as i64, y: (-5) as i64 }
    }

    /// The bar reference coordinate.
    pub fn bar_coord(&self) -> (r: Coord)
        ensures
            r == self.spec_bar_coord(),
            r.wf(),
    {
        Coord { x: self.center_x(), y: -5 }
    }

    /// The full column-to-coordinate table of this layout, in tenths.
    pub open spec fn spec_coords(self) -> Seq<Coord> {
        match self {
            Style::ItgSingles => seq![
                Coord { x: 0, y: 10 }, Coord { x: 10, y: 0 },
                Coord { x: 10, y: 20 }, Coord { x: 20, y: 10 },
            ],
            Style::ItgDoubles => seq![
                Coord { x: 0, y: 10 }, Coord { x: 10, y: 0 },
                Coord { x: 10, y: 20 }, Coord { x: 20, y: 10 },
                Coord { x: 30, y: 10 }, Coord { x: 40, y: 0 },
                Coord { x: 40, y: 20 }, Coord { x: 50, y: 10 },
            ],
            Style::ItgTriples => seq![
                Coord { x: 0, y: 10 }, Coord { x: 10, y: 0 },
                Coord { x: 10, y: 20 }, Coord { x: 20, y: 10 },
                Coord { x: 30, y: 10 }, Coord { x: 40, y: 0 },
                Coord { x: 40, y: 20 }, Coord { x: 50, y: 10 },
                Coord { x: 60, y: 10 }, Coord { x: 70, y: 0 },
                Coord { x: 70, y: 20 }, Coord { x: 80, y: 10 },
            ],
            Style::PumpSingles => seq![
                Coord { x: 0, y: 0 }, Coord { x: 0, y: 20 },
                Coord { x: 10, y: 10 }, Coord { x: 20, y: 20 },
                Coord { x: 20, y: 0 },
            ],
            Style::PumpDoubles => seq![
                Coord { x: 0, y: 2 }, Coord { x: 0, y: 18 },
                Coord { x: 10, y: 10 }, Coord { x: 20, y: 18 },
                Coord { x: 20, y: 2 }, Coord { x: 30, y: 2 },
                Coord { x: 30, y: 18 }, Coord { x: 40, y: 10 },
                Coord { x: 50, y: 18 }, Coord { x: 50, y: 2 },
            ],
            Style::PumpTriples => seq![
                Coord { x: 0, y: 0 }, Coord { x: 0, y: 20 },
                Coord { x: 10, y: 10 }, Coord { x: 20, y: 20 },
                Coord { x: 20, y: 0 }, Coord { x: 30, y: 0 },
                Coord { x: 30, y: 20 }, Coord { x: 40, y: 10 },
                Coord { x: 50, y: 20 }, Coord { x: 50, y: 0 },
                Coord { x: 60, y: 0 }, Coord { x: 60, y: 20 },
                Coord { x: 70, y: 10 }, Coord { x: 80, y: 20 },
                Coord { x: 80, y: 0 },
            ],
            Style::PumpHalfDoubles => seq![
                Coord { x: 0, y: 10 }, Coord { x: 10, y: 20 },
                Coord { x: 10, y: 0 }, Coord { x: 20, y: 0 },
                Coord { x: 20, y: 20 }, Coord { x: 30, y: 10 },
            ],
            Style::PumpMiddleFour => seq![
                Coord { x: 0, y: 10 }, Coord { x: 0, y: 0 },
                Coord { x: 10, y: 0 }, Coord { x: 10, y: 10 },
            ],
            Style::PumpDoublesBrackets => seq![
                Coord { x: 0, y: 0 }, Coord { x: 0, y: 10 },
                Coord { x: 10, y: 10 }, Coord { x: 10, y: 0 },
                Coord { x: 20, y: 0 }, Coord { x: 20, y: 10 },
                Coord { x: 30, y: 0 }, Coord { x: 30, y: 10 },
                Coord { x: 40, y: 10 }, Coord { x: 40, y: 0 },
            ],
            Style::HorizonSingles => seq![
                Coord { x: 0, y: 0 }, Coord { x: 0, y: 10 },
                Coord { x: 0, y: 20 }, Coord { x: 10, y: 0 },
                Coord { x: 10, y: 10 }, Coord { x: 10, y: 20 },
                Coord { x: 20, y: 20 }, Coord { x: 20, y: 10 },
                Coord { x: 20, y: 0 },
            ],
            Style::HorizonDoubles => seq![
                Coord { x: 0, y: 0 }, Coord { x: 0, y: 10 },
                Coord { x: 0, y: 20 }, Coord { x: 10, y: 0 },
                Coord { x: 10, y: 10 }, Coord { x: 10, y: 20 },
                Coord { x: 20, y: 20 }, Coord { x: 20, y: 10 },
                Coord { x: 20, y: 0 }, Coord { x: 30, y: 0 },
                Coord { x: 30, y: 10 }, Coord { x: 30, y: 20 },
                Coord { x: 40, y: 0 }, Coord { x: 40, y: 10 },
                Coord { x: 40, y: 20 }, Coord { x: 50, y: 20 },
                Coord { x: 50, y: 10 }, Coord { x: 50, y: 0 },
            ],
            Style::HorizonTriples => seq![
                Coord { x: 0, y: 0 }, Coord { x: 0, y: 10 },
                Coord { x: 0, y: 20 }, Coord { x: 10, y: 0 },
                Coord { x: 10, y: 10 }, Coord { x: 10, y: 20 },
                Coord { x: 20, y: 20 }, Coord { x: 20, y: 10 },
                Coord { x: 20, y: 0 }, Coord { x: 30, y: 0 },
                Coord { x: 30, y: 10 }, Coord { x: 30, y: 20 },
                Coord { x: 40, y: 0 }, Coord { x: 40, y: 10 },
                Coord { x: 40, y: 20 }, Coord { x: 50, y: 20 },
                Coord { x: 50, y: 10 }, Coord { x: 50, y: 0 },
                Coord { x: 60, y: 0 }, Coord { x: 60, y: 10 },
                Coord { x: 60, y: 20 }, Coord { x: 70, y: 0 },
                Coord { x: 70, y: 10 }, Coord { x: 70, y: 20 },
                Coord { x: 80, y: 20 }, Coord { x: 80, y: 10 },
                Coord { x: 80, y: 0 },
            ],
            Style::Quads => seq![
                Coord { x: 0, y: 2 }, Coord { x: 0, y: 18 },
                Coord { x: 10, y: 10 }, Coord { x: 20, y: 18 },
                Coord { x: 20, y: 2 }, Coord { x: 30, y: 2 },
                Coord { x: 30, y: 18 }, Coord { x: 40, y: 10 },
                Coord { x: 50, y: 18 }, Coord { x: 50, y: 2 },
                Coord { x: 60, y: 10 }, Coord { x: 70, y: 0 },
                Coord { x: 70, y: 20 }, Coord { x: 80, y: 10 },
                Coord { x: 90, y: 10 }, Coord { x: 100, y: 0 },
                Coord { x: 100, y: 20 }, Coord { x: 110, y: 10 },
            ],
            Style::StupidQuads => seq![
                Coord { x: 0, y: 32 }, Coord { x: 0, y: 48 },
                Coord { x: 10, y: 40 }, Coord { x: 20, y: 48 },
                Coord { x: 20, y: 32 }, Coord { x: 30, y: 32 },
                Coord { x: 30, y: 48 }, Coord { x: 40, y: 40 },
                Coord { x: 50, y: 48 }, Coord { x: 50, y: 32 },
                Coord { x: 0, y: 10 }, Coord { x: 10, y: 0 },
                Coord { x: 10, y: 20 }, Coord { x: 20, y: 10 },
                Coord { x: 30, y: 10 }, Coord { x: 40, y: 0 },
                Coord { x: 40, y: 20 }, Coord { x: 50, y: 10 },
            ],
        }
    }

    /// The coordinate of one column.
    pub open spec fn spec_coord(self, col: int) -> Coord {
        self.spec_coords()[col]
    }

    /// Every table entry is well formed and lies inside the layout's
    /// bounding box, and the table has exactly `num_cols` entries.
    pub proof fn lemma_coords_wf(self)
        ensures
            self.spec_coords().len() == self.spec_num_cols(),
            forall|c: int| 0 <= c < self.spec_num_cols() ==> {
                &&& (#[trigger] self.spec_coord(c)).wf()
                &&& 0 <= self.spec_coord(c).x <= self.spec_max_x_coord()
                &&& 0 <= self.spec_coord(c).y <= self.spec_max_y_coord()
            },
    {
    }

    /// Coordinate of `col` in this layout, in tenths of a panel.
    pub fn coord(&self, col: i8) -> (r: Coord)
        requires
            0 <= col < self.spec_num_cols(),
        ensures
            r == self.spec_coord(col as int),
            r.wf(),
            0 <= r.x <= self.spec_max_x_coord(),
            0 <= r.y <= self.spec_max_y_coord(),
    {
        proof {
            self.lemma_coords_wf();
        }
        let table = self.coords_vec();
        table[col as usize]
    }

    /// The coordinate table as a vector, index `c` holding column `c`'s
    /// position.
    pub fn coords_vec(&self) -> (r: Vec<Coord>)
        ensures
            r@ == self.spec_coords(),
    {
        let mut v: Vec<Coord> = Vec::new();
        match self {
            Style::ItgSingles => {
                push_xy(&mut v, 0, 10); push_xy(&mut v, 10, 0);
                push_xy(&mut v, 10, 20); push_xy(&mut v, 20, 10);
            }
            Style::ItgDoubles => {
                push_xy(&mut v, 0, 10); push_xy(&mut v, 10, 0);
                push_xy(&mut v, 10, 20); push_xy(&mut v, 20, 10);
                push_xy(&mut v, 30, 10); push_xy(&mut v, 40, 0);
                push_xy(&mut v, 40, 20); push_xy(&mut v, 50, 10);
            }
            Style::ItgTriples => {
                push_xy(&mut v, 0, 10); push_xy(&mut v, 10, 0);
                push_xy(&mut v, 10, 20); push_xy(&mut v, 20, 10);
                push_xy(&mut v, 30, 10); push_xy(&mut v, 40, 0);
                push_xy(&mut v, 40, 20); push_xy(&mut v, 50, 10);
                push_xy(&mut v, 60, 10); push_xy(&mut v, 70, 0);
                push_xy(&mut v, 70, 20); push_xy(&mut v, 80, 10);
            }
            Style::PumpSingles => {
                push_xy(&mut v, 0, 0); push_xy(&mut v, 0, 20);
                push_xy(&mut v, 10, 10); push_xy(&mut v, 20, 20);
                push_xy(&mut v, 20, 0);
            }
            Style::PumpDoubles => {
                push_xy(&mut v, 0, 2); push_xy(&mut v, 0, 18);
                push_xy(&mut v, 10, 10); push_xy(&mut v, 20, 18);
                push_xy(&mut v, 20, 2); push_xy(&mut v, 30, 2);
                push_xy(&mut v, 30, 18); push_xy(&mut v, 40, 10);
                push_xy(&mut v, 50, 18); push_xy(&mut v, 50, 2);
            }
            Style::PumpTriples => {
                push_xy(&mut v, 0, 0); push_xy(&mut v, 0, 20);
                push_xy(&mut v, 10, 10); push_xy(&mut v, 20, 20);
                push_xy(&mut v, 20, 0); push_xy(&mut v, 30, 0);
                push_xy(&mut v, 30, 20); push_xy(&mut v, 40, 10);
                push_xy(&mut v, 50, 20); push_xy(&mut v, 50, 0);
                push_xy(&mut v, 60, 0); push_xy(&mut v, 60, 20);
                push_xy(&mut v, 70, 10); push_xy(&mut v, 80, 20);
                push_xy(&mut v, 80, 0);
            }
            Style::PumpHalfDoubles => {
                push_xy(&mut v, 0, 10); push_xy(&mut v, 10, 20);
                push_xy(&mut v, 10, 0); push_xy(&mut v, 20, 0);
                push_xy(&mut v, 20, 20); push_xy(&mut v, 30, 10);
            }
            Style::PumpMiddleFour => {
                push_xy(&mut v, 0, 10); push_xy(&mut v, 0, 0);
                push_xy(&mut v, 10, 0); push_xy(&mut v, 10, 10);
            }
            Style::PumpDoublesBrackets => {
                push_xy(&mut v, 0, 0); push_xy(&mut v, 0, 10);
                push_xy(&mut v, 10, 10); push_xy(&mut v, 10, 0);
                push_xy(&mut v, 20, 0); push_xy(&mut v, 20, 10);
                push_xy(&mut v, 30, 0); push_xy(&mut v, 30, 10);
                push_xy(&mut v, 40, 10); push_xy(&mut v, 40, 0);
            }
            Style::HorizonSingles => {
                push_xy(&mut v, 0, 0); push_xy(&mut v, 0, 10);
                push_xy(&mut v, 0, 20); push_xy(&mut v, 10, 0);
                push_xy(&mut v, 10, 10); push_xy(&mut v, 10, 20);
                push_xy(&mut v, 20, 20); push_xy(&mut v, 20, 10);
                push_xy(&mut v, 20, 0);
            }
            Style::HorizonDoubles => {
                push_xy(&mut v, 0, 0); push_xy(&mut v, 0, 10);
                push_xy(&mut v, 0, 20); push_xy(&mut v, 10, 0);
                push_xy(&mut v, 10, 10); push_xy(&mut v, 10, 20);
                push_xy(&mut v, 20, 20); push_xy(&mut v, 20, 10);
                push_xy(&mut v, 20, 0); push_xy(&mut v, 30, 0);
                push_xy(&mut v, 30, 10); push_xy(&mut v, 30, 20);
                push_xy(&mut v, 40, 0); push_xy(&mut v, 40, 10);
                push_xy(&mut v, 40, 20); push_xy(&mut v, 50, 20);
                push_xy(&mut v, 50, 10); push_xy(&mut v, 50, 0);
            }
            Style::HorizonTriples => {
                push_xy(&mut v, 0, 0); push_xy(&mut v, 0, 10);
                push_xy(&mut v, 0, 20); push_xy(&mut v, 10, 0);
                push_xy(&mut v, 10, 10); push_xy(&mut v, 10, 20);
                push_xy(&mut v, 20, 20); push_xy(&mut v, 20, 10);
                push_xy(&mut v, 20, 0); push_xy(&mut v, 30, 0);
                push_xy(&mut v, 30, 10); push_xy(&mut v, 30, 20);
                push_xy(&mut v, 40, 0); push_xy(&mut v, 40, 10);
                push_xy(&mut v, 40, 20); push_xy(&mut v, 50, 20);
                push_xy(&mut v, 50, 10); push_xy(&mut v, 50, 0);
                push_xy(&mut v, 60, 0); push_xy(&mut v, 60, 10);
                push_xy(&mut v, 60, 20); push_xy(&mut v, 70, 0);
                push_xy(&mut v, 70, 10); push_xy(&mut v, 70, 20);
                push_xy(&mut v, 80, 20); push_xy(&mut v, 80, 10);
                push_xy(&mut v, 80, 0);
            }
            Style::Quads => {
                push_xy(&mut v, 0, 2); push_xy(&mut v, 0, 18);
                push_xy(&mut v, 10, 10); push_xy(&mut v, 20, 18);
                push_xy(&mut v, 20, 2); push_xy(&mut v, 30, 2);
                push_xy(&mut v, 30, 18); push_xy(&mut v, 40, 10);
                push_xy(&mut v, 50, 18); push_xy(&mut v, 50, 2);
                push_xy(&mut v, 60, 10); push_xy(&mut v, 70, 0);
                push_xy(&mut v, 70, 20); push_xy(&mut v, 80, 10);
                push_xy(&mut v, 90, 10); push_xy(&mut v, 100, 0);
                push_xy(&mut v, 100, 20); push_xy(&mut v, 110, 10);
            }
            Style::StupidQuads => {
                push_xy(&mut v, 0, 32); push_xy(&mut v, 0, 48);
                push_xy(&mut v, 10, 40); push_xy(&mut v, 20, 48);
                push_xy(&mut v, 20, 32); push_xy(&mut v, 30, 32);
                push_xy(&mut v, 30, 48); push_xy(&mut v, 40, 40);
                push_xy(&mut v, 50, 48); push_xy(&mut v, 50, 32);
                push_xy(&mut v, 0, 10); push_xy(&mut v, 10, 0);
                push_xy(&mut v, 10, 20); push_xy(&mut v, 20, 10);
                push_xy(&mut v, 30, 10); push_xy(&mut v, 40, 0);
                push_xy(&mut v, 40, 20); push_xy(&mut v, 50, 10);
            }
        }
        proof {
            assert(v@ =~= self.spec_coords());
        }
        v
    }

    /// The midpoint of the two feet's starting positions: where the doubles
    /// drift corridor begins.
    pub open spec fn spec_init_pos(self) -> Coord {
        let l = self.spec_coord(self.spec_init_col(Foot::Left));
        let r = self.spec_coord(self.spec_init_col(Foot::Right));
        Coord { x: ((l.x + r.x) / 2) as i64, y: ((l.y + r.y) / 2) as i64 }
    }

    /// Midpoint of the two initial foot positions, in tenths.
    pub fn init_pos(&self) -> (r: Coord)
        ensures
            r == self.spec_init_pos(),
            r.wf(),
            0 <= r.x <= self.spec_max_x_coord(),
    {
        proof {
            self.lemma_coords_wf();
        }
        let l = self.coord(self.init_col(Foot::Left));
        let rr = self.coord(self.init_col(Foot::Right));
        let x = (((l.x + rr.x) as u64) / 2) as i64;
        let y = (((l.y + rr.y) as u64) / 2) as i64;
        Coord { x, y }
    }

    /// Which physical notation columns a logical column lights: identity
    /// for ordinary styles, pairs of panels for bracket styles.
    pub open spec fn spec_sm_cols_for_col(self, col: int) -> Seq<i8> {
        if self == Style::PumpDoublesBrackets {
            if col == 0 {
                seq![0i8, 2i8]
            } else if col == 1 {
                seq![1i8, 2i8]
            } else if col == 2 {
                seq![3i8, 2i8]
            } else if col == 3 {
                seq![4i8, 2i8]
            } else if col == 4 {
                seq![4i8, 5i8]
            } else if col == 5 {
                seq![3i8, 6i8]
            } else if col == 6 {
                seq![5i8, 7i8]
            } else if col == 7 {
                seq![6i8, 7i8]
            } else if col == 8 {
                seq![8i8, 7i8]
            } else {
                seq![9i8, 7i8]
            }
        } else {
            seq![col as i8]
        }
    }

    /// Physical notation columns lit by one logical column.
    pub fn sm_cols_for_col(&self, col: i8) -> (r: Vec<i8>)
        requires
            0 <= col < self.spec_num_cols(),
        ensures
            r@ == self.spec_sm_cols_for_col(col as int),
            r@.len() >= 1,
            forall|i: int| 0 <= i < r@.len() ==> 0 <= #[trigger] r@[i] < self.spec_num_cols(),
    {
        let mut v: Vec<i8> = Vec::new();
        match self {
            Style::PumpDoublesBrackets => {
                match col {
                    0 => { v.push(0); v.push(2); }
                    1 => { v.push(1); v.push(2); }
                    2 => { v.push(3); v.push(2); }
                    3 => { v.push(4); v.push(2); }
                    4 => { v.push(4); v.push(5); }
                    5 => { v.push(3); v.push(6); }
                    6 => { v.push(5); v.push(7); }
                    7 => { v.push(6); v.push(7); }
                    8 => { v.push(8); v.push(7); }
                    _ => { v.push(9); v.push(7); }
                }
            }
            _ => {
                v.push(col);
            }
        }
        proof {
            assert(v@ =~= self.spec_sm_cols_for_col(col as int));
        }
        v
    }

    /// Which style a simfile style-name argument denotes, if any.
    pub fn parse(name: &[u8]) -> (r: Result<Style, StyleParseError>)
        ensures
            match r {
                Ok(s) => name@ == s.spec_cli_name(),
                Err(e) => e.0@ == name@
                    && forall|s: Style| name@ != #[trigger] s.spec_cli_name(),
            },
    {
        if bytes_eq(name, "itg-singles".as_bytes()) {
            Ok(Style::ItgSingles)
        } else if bytes_eq(name, "itg-doubles".as_bytes()) {
            Ok(Style::ItgDoubles)
        } else if bytes_eq(name, "itg-triples".as_bytes()) {
            Ok(Style::ItgTriples)
        } else if bytes_eq(name, "pump-singles".as_bytes()) {
            Ok(Style::PumpSingles)
        } else if bytes_eq(name, "pump-doubles".as_bytes()) {
            Ok(Style::PumpDoubles)
        } else if bytes_eq(name, "pump-triples".as_bytes()) {
            Ok(Style::PumpTriples)
        } else if bytes_eq(name, "pump-halfdoubles".as_bytes()) {
            Ok(Style::PumpHalfDoubles)
        } else if bytes_eq(name, "pump-doubles-brackets".as_bytes()) {
            Ok(Style::PumpDoublesBrackets)
        } else if bytes_eq(name, "pump-middlefour".as_bytes()) {
            Ok(Style::PumpMiddleFour)
        } else if bytes_eq(name, "horizon-singles".as_bytes()) {
            Ok(Style::HorizonSingles)
        } else if bytes_eq(name, "horizon-doubles".as_bytes()) {
            Ok(Style::HorizonDoubles)
        } else if bytes_eq(name, "horizon-triples".as_bytes()) {
            Ok(Style::HorizonTriples)
        } else if bytes_eq(name, "quads".as_bytes()) {
            Ok(Style::Quads)
        } else if bytes_eq(name, "stupid-quads".as_bytes()) {
            Ok(Style::StupidQuads)
        } else {
            proof {
                assert forall|s: Style| name@ != #[trigger] s.spec_cli_name() by {
                    match s {
                        Style::ItgSingles => {}
                        Style::ItgDoubles => {}
                        Style::ItgTriples => {}
                        Style::PumpSingles => {}
                        Style::PumpDoubles => {}
                        Style::PumpTriples => {}
                        Style::PumpHalfDoubles => {}
                        Style::PumpDoublesBrackets => {}
                        Style::PumpMiddleFour => {}
                        Style::HorizonSingles => {}
                        Style::HorizonDoubles => {}
                        Style::HorizonTriples => {}
                        Style::Quads => {}
                        Style::StupidQuads => {}
                    }
                }
            }
            let mut owned: Vec<u8> = Vec::new();
            owned.extend_from_slice(name);
            Err(StyleParseError(owned))
        }
    }

    /// The command-line name of each style, as UTF-8 bytes.
    pub open spec fn spec_cli_name(self) -> Seq<u8> {
        match self {
            Style::ItgSingles => "itg-singles".spec_bytes(),
            Style::ItgDoubles => "itg-doubles".spec_bytes(),
            Style::ItgTriples => "itg-triples".spec_bytes(),
            Style::PumpSingles => "pump-singles".spec_bytes(),
            Style::PumpDoubles => "pump-doubles".spec_bytes(),
            Style::PumpTriples => "pump-triples".spec_bytes(),
            Style::PumpHalfDoubles => "pump-halfdoubles".spec_bytes(),
            Style::PumpDoublesBrackets => "pump-doubles-brackets".spec_bytes(),
            Style::PumpMiddleFour => "pump-middlefour".spec_bytes(),
            Style::HorizonSingles => "horizon-singles".spec_bytes(),
            Style::HorizonDoubles => "horizon-doubles".spec_bytes(),
            Style::HorizonTriples => "horizon-triples".spec_bytes(),
            Style::Quads => "quads".spec_bytes(),
            Style::StupidQuads => "stupid-quads".spec_bytes(),
        }
    }
}

/// Append one coordinate, given in tenths, to a table under construction.
fn push_xy(v: &mut Vec<Coord>, x: i64, y: i64)
    ensures
        final(v)@ == old(v)@.push((Coord { x: x, y: y })),
{
    v.push(Coord { x, y });
}

impl core::str::FromStr for Style {
    type Err = StyleParseError;

    fn from_str(s: &str) -> Result<Self, Self::Err> {
        Style::parse(s.as_bytes())
    }
}

} // verus!
