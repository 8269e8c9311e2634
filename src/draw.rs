//! The drawing vocabulary: sizes, areas, points, colours, shapes, fonts and
//! the descriptors of the primitives that a canvas draws.
//!
//! Points are in millionths of a pixel; colour channels in thousandths.

use vstd::prelude::*;

verus! {

/// Failures of a drawing backend.
#[derive(Clone, Debug)]
pub enum DrawError {
    /// The backend failed, with its message.
    BackendError(String),
    /// Reading or writing a file failed, with its message.
    IoError(String),
    UnsupportedFileFormat(String),
    UnsupportedImageFormat(String),
    UnsupportedShape(String),
}

/// 2D size in dots (pixels).
#[derive(Copy, Clone, Debug, PartialEq, Eq, Structural)]
pub struct Size {
    pub width: u32,
    pub height: u32,
}

/// A point, each coordinate in millionths of a pixel.
#[derive(Copy, Clone, Debug, PartialEq, Eq, Structural)]
pub struct Point {
    pub x: i64,
    pub y: i64,
}

/// A line from point-1 to point-2.
#[derive(Copy, Clone, Debug, PartialEq, Eq, Structural)]
pub struct Line {
    pub p1: Point,
    pub p2: Point,
}

/// Subarea of a figure by dot (pixel) indices.
#[derive(Copy, Clone, Debug, PartialEq, Eq, Structural)]
pub struct Area {
    pub xmin: u32,
    pub xmax: u32,
    pub ymin: u32,
    pub ymax: u32,
}

impl Area {
    /// Minimum below maximum on both axes.
    pub open spec fn wf(&self) -> bool {
        self.xmin <= self.xmax && self.ymin <= self.ymax
    }

    /// The width of the area.
    pub fn xsize(&self) -> (r: u32)
        requires
            self.xmin <= self.xmax,
        ensures
            r == self.xmax - self.xmin,
    {
        self.xmax - self.xmin
    }

    /// The height of the area.
    pub fn ysize(&self) -> (r: u32)
        requires
            self.ymin <= self.ymax,
        ensures
            r == self.ymax - self.ymin,
    {
        self.ymax - self.ymin
    }

    /// The point at fraction `frac` of the area (each coordinate of `frac`
    /// in millionths; one million is the far edge).
    pub open spec fn fractional_point(&self, frac: Point) -> Point {
        Point {
            x: (self.xmin * 1_000_000 + frac.x * (self.xmax - self.xmin)) as i64,
            y: (self.ymin * 1_000_000 + frac.y * (self.ymax - self.ymin)) as i64,
        }
    }

    /// Converts a fractional point to a dot (pixel) point.
    pub fn fractional_to_point(&self, frac: Point) -> (r: Point)
        requires
            self.wf(),
            -1_000_000_000 <= frac.x <= 1_000_000_000,
            -1_000_000_000 <= frac.y <= 1_000_000_000,
        ensures
            r == self.fractional_point(frac),
            r.x == self.xmin * 1_000_000 + frac.x * (self.xmax - self.xmin),
            r.y == self.ymin * 1_000_000 + frac.y * (self.ymax - self.ymin),
    {
        let w = self.xsize() as i64;
        let h = self.ysize() as i64;
        proof {
            assert(-1_000_000_000 * 4_294_967_295 <= frac.x * w <= 1_000_000_000 * 4_294_967_295)
                by (nonlinear_arith)
                requires -1_000_000_000 <= frac.x <= 1_000_000_000, 0 <= w <= 4_294_967_295;
            assert(-1_000_000_000 * 4_294_967_295 <= frac.y * h <= 1_000_000_000 * 4_294_967_295)
                by (nonlinear_arith)
                requires -1_000_000_000 <= frac.y <= 1_000_000_000, 0 <= h <= 4_294_967_295;
        }
        Point {
            x: self.xmin as i64 * 1_000_000 + frac.x * w,
            y: self.ymin as i64 * 1_000_000 + frac.y * h,
        }
    }
}

/// An RGBA colour, each channel in thousandths (0 to 1000).
#[derive(Copy, Clone, Debug, PartialEq, Eq, Structural)]
pub struct Color {
    pub r: u16,
    pub g: u16,
    pub b: u16,
    pub a: u16,
}

impl Color {
    pub fn transparent() -> (c: Color)
        ensures
            c == (Color { r: 0, g: 0, b: 0, a: 0 }),
    {
        Color { r: 0, g: 0, b: 0, a: 0 }
    }

    pub fn black() -> (c: Color)
        ensures
            c == (Color { r: 0, g: 0, b: 0, a: 1000 }),
    {
        Color { r: 0, g: 0, b: 0, a: 1000 }
    }

    pub fn white() -> (c: Color)
        ensures
            c == (Color { r: 1000, g: 1000, b: 1000, a: 1000 }),
    {
        Color { r: 1000, g: 1000, b: 1000, a: 1000 }
    }

    pub fn red() -> (c: Color)
        ensures
            c == (Color { r: 1000, g: 0, b: 0, a: 1000 }),
    {
        Color { r: 1000, g: 0, b: 0, a: 1000 }
    }

    pub fn orange() -> (c: Color)
        ensures
            c == (Color { r: 1000, g: 640, b: 0, a: 1000 }),
    {
        Color { r: 1000, g: 640, b: 0, a: 1000 }
    }

    pub fn yellow() -> (c: Color)
        ensures
            c == (Color { r: 1000, g: 1000, b: 0, a: 1000 }),
    {
        Color { r: 1000, g: 1000, b: 0, a: 1000 }
    }

    pub fn green() -> (c: Color)
        ensures
            c == (Color { r: 0, g: 1000, b: 0, a: 1000 }),
    {
        Color { r: 0, g: 1000, b: 0, a: 1000 }
    }

    pub fn blue() -> (c: Color)
        ensures
            c == (Color { r: 0, g: 0, b: 1000, a: 1000 }),
    {
        Color { r: 0, g: 0, b: 1000, a: 1000 }
    }

    pub fn purple() -> (c: Color)
        ensures
            c == (Color { r: 620, g: 120, b: 940, a: 1000 }),
    {
        Color { r: 620, g: 120, b: 940, a: 1000 }
    }
}

/// A drawable shape, sizes in dots.
#[derive(Copy, Clone, Debug, PartialEq, Eq, Structural)]
pub enum Shape {
    Circle { r: u32 },
    Square { l: u32 },
    Rectangle { h: u32, w: u32 },
}

impl Shape {
    /// The shape with every size multiplied by `mult`.
    pub open spec fn scaled(self, mult: int) -> Shape {
        match self {
            Shape::Circle { r } => Shape::Circle { r: (mult * r) as u32 },
            Shape::Square { l } => Shape::Square { l: (mult * l) as u32 },
            Shape::Rectangle { h, w } => Shape::Rectangle { h: (mult * h) as u32, w: (mult * w) as u32 },
        }
    }

    /// Every size of the shape times `mult` fits in a `u32`.
    pub open spec fn scale_fits(self, mult: int) -> bool {
        match self {
            Shape::Circle { r } => mult * r <= u32::MAX,
            Shape::Square { l } => mult * l <= u32::MAX,
            Shape::Rectangle { h, w } => mult * h <= u32::MAX && mult * w <= u32::MAX,
        }
    }

    /// Scales the shape by some multiplicative factor.
    pub fn scale(&mut self, mult: u32)
        requires
            old(self).scale_fits(mult as int),
        ensures
            *final(self) == old(self).scaled(mult as int),
    {
        *self = match *self {
            Shape::Circle { r } => Shape::Circle { r: mult * r },
            Shape::Square { l } => Shape::Square { l: mult * l },
            Shape::Rectangle { h, w } => Shape::Rectangle { h: mult * h, w: mult * w },
        };
    }
}

/// The name of a text font.
#[derive(Copy, Clone, Debug, PartialEq, Eq, Structural)]
pub enum FontName {
    Arial,
    Georgia,
}

/// The slant of a font.
#[derive(Copy, Clone, Debug, PartialEq, Eq, Structural)]
pub enum FontSlant {
    Normal,
    Italic,
    Oblique,
}

/// The weight of a font.
#[derive(Copy, Clone, Debug, PartialEq, Eq, Structural)]
pub enum FontWeight {
    Normal,
    Bold,
}

/// Complete font settings; the size in millionths of a point.
#[derive(Copy, Clone, Debug, PartialEq, Eq, Structural)]
pub struct Font {
    pub name: FontName,
    pub size: i64,
    pub slant: FontSlant,
    pub weight: FontWeight,
}

impl Default for FontName {
    fn default() -> (r: Self)
        ensures
            r == FontName::Arial,
    {
        FontName::Arial
    }
}

impl Default for FontSlant {
    fn default() -> (r: Self)
        ensures
            r == FontSlant::Normal,
    {
        FontSlant::Normal
    }
}

impl Default for FontWeight {
    fn default() -> (r: Self)
        ensures
            r == FontWeight::Normal,
    {
        FontWeight::Normal
    }
}

impl Default for Font {
    /// Arial, twelve points, upright and of normal weight.
    fn default() -> (r: Self)
        ensures
            r == (Font {
                name: FontName::Arial,
                size: 12_000_000,
                slant: FontSlant::Normal,
                weight: FontWeight::Normal,
            }),
    {
        Font {
            name: FontName::Arial,
            size: 12_000_000,
            slant: FontSlant::Normal,
            weight: FontWeight::Normal,
        }
    }
}

/// Which point of a text's box is placed at its position.
#[derive(Copy, Clone, Debug, PartialEq, Eq, Structural)]
pub enum Alignment {
    Center,
    Left,
    Right,
    Top,
    Bottom,
    TopLeft,
    TopRight,
    BottomLeft,
    BottomRight,
}

/// A graphics image file format.
#[derive(Copy, Clone, Debug, PartialEq, Eq, Structural)]
pub enum FileFormat {
    Png,
    Svg,
}

/// How an image is represented while it is drawn.
#[derive(Copy, Clone, Debug, PartialEq, Eq, Structural)]
pub enum ImageFormat {
    Bitmap,
    Svg,
}

/// Describes a canvas to be constructed.
#[derive(Clone, Debug)]
pub struct CanvasDescriptor {
    pub size: Size,
    pub face_color: Color,
    pub image_format: ImageFormat,
}

impl Default for CanvasDescriptor {
    /// A white bitmap of 100 by 100 dots.
    fn default() -> (r: Self)
        ensures
            r.size == (Size { width: 100, height: 100 }),
            r.face_color == (Color { r: 1000, g: 1000, b: 1000, a: 1000 }),
            r.image_format == ImageFormat::Bitmap,
    {
        CanvasDescriptor {
            size: Size { width: 100, height: 100 },
            face_color: Color::white(),
            image_format: ImageFormat::Bitmap,
        }
    }
}

/// Describes a shape to be drawn.
#[derive(Clone, Debug)]
pub struct ShapeDescriptor {
    pub point: Point,
    pub shape: Shape,
    pub fill_color: Color,
    pub line_width: u32,
    pub line_color: Color,
    /// Dash lengths of the outline, in millionths of a pixel.
    pub line_dashes: Vec<i64>,
    pub clip_area: Option<Area>,
}

impl Default for ShapeDescriptor {
    /// A white circle of radius one with a black outline two dots wide, at
    /// the origin.
    fn default() -> (r: Self)
        ensures
            r.point == (Point { x: 0, y: 0 }),
            r.shape == (Shape::Circle { r: 1 }),
            r.fill_color == (Color { r: 1000, g: 1000, b: 1000, a: 1000 }),
            r.line_width == 2,
            r.line_color == (Color { r: 0, g: 0, b: 0, a: 1000 }),
            r.line_dashes@.len() == 0,
            r.clip_area.is_none(),
    {
        ShapeDescriptor {
            point: Point { x: 0, y: 0 },
            shape: Shape::Circle { r: 1 },
            fill_color: Color::white(),
            line_width: 2,
            line_color: Color::black(),
            line_dashes: Vec::new(),
            clip_area: None,
        }
    }
}

/// Describes a line to be drawn.
#[derive(Clone, Debug)]
pub struct LineDescriptor {
    pub line: Line,
    pub line_width: u32,
    pub line_color: Color,
    /// Dash lengths, in millionths of a pixel.
    pub dashes: Vec<i64>,
    pub clip_area: Option<Area>,
}

impl Default for LineDescriptor {
    /// A solid black line two dots wide from the origin to itself.
    fn default() -> (r: Self)
        ensures
            r.line == (Line { p1: Point { x: 0, y: 0 }, p2: Point { x: 0, y: 0 } }),
            r.line_width == 2,
            r.line_color == (Color { r: 0, g: 0, b: 0, a: 1000 }),
            r.dashes@.len() == 0,
            r.clip_area.is_none(),
    {
        LineDescriptor {
            line: Line { p1: Point { x: 0, y: 0 }, p2: Point { x: 0, y: 0 } },
            line_width: 2,
            line_color: Color::black(),
            dashes: Vec::new(),
            clip_area: None,
        }
    }
}

/// Describes a polyline to be drawn.
#[derive(Clone, Debug)]
pub struct CurveDescriptor {
    pub points: Vec<Point>,
    pub line_width: u32,
    pub line_color: Color,
    /// Dash lengths, in millionths of a pixel.
    pub dashes: Vec<i64>,
    pub clip_area: Option<Area>,
}

impl Default for CurveDescriptor {
    /// An empty solid black curve two dots wide.
    fn default() -> (r: Self)
        ensures
            r.points@.len() == 0,
            r.line_width == 2,
            r.line_color == (Color { r: 0, g: 0, b: 0, a: 1000 }),
            r.dashes@.len() == 0,
            r.clip_area.is_none(),
    {
        CurveDescriptor {
            points: Vec::new(),
            line_width: 2,
            line_color: Color::black(),
            dashes: Vec::new(),
            clip_area: None,
        }
    }
}

/// Describes text to be drawn.
#[derive(Clone, Debug)]
pub struct TextDescriptor {
    pub text: String,
    pub font: Font,
    pub position: Point,
    pub color: Color,
    /// Rotation in quarter turns, counterclockwise.
    pub rotation: u8,
    pub alignment: Alignment,
    pub clip_area: Option<Area>,
}

impl Default for TextDescriptor {
    /// Empty black text in the default font, centred on the origin.
    fn default() -> (r: Self)
        ensures
            r.text@.len() == 0,
            r.font == (Font {
                name: FontName::Arial,
                size: 12_000_000,
                slant: FontSlant::Normal,
                weight: FontWeight::Normal,
            }),
            r.position == (Point { x: 0, y: 0 }),
            r.color == (Color { r: 0, g: 0, b: 0, a: 1000 }),
            r.rotation == 0,
            r.alignment == Alignment::Center,
            r.clip_area.is_none(),
    {
        TextDescriptor {
            text: String::new(),
            font: Font::default(),
            position: Point { x: 0, y: 0 },
            color: Color::black(),
            rotation: 0,
            alignment: Alignment::Center,
            clip_area: None,
        }
    }
}

/// Describes a closed region to be filled.
#[derive(Clone, Debug)]
pub struct FillDescriptor {
    pub points: Vec<Point>,
    pub fill_color: Color,
    pub clip_area: Option<Area>,
}

/// Describes how to save an image to a file.
#[derive(Clone, Debug)]
pub struct SaveFileDescriptor {
    pub filename: String,
    pub format: FileFormat,
    pub dpi: u16,
}

/// One primitive for a canvas to draw.
#[derive(Clone, Debug)]
pub enum DrawCommand {
    Shape(ShapeDescriptor),
    Line(LineDescriptor),
    Curve(CurveDescriptor),
    Fill(FillDescriptor),
    Text(TextDescriptor),
}

} // verus!
