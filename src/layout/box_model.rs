//! Box model: rectangles, edge sizes, and the content, padding, border and
//! margin boxes of a laid-out element.
use vstd::prelude::*;

verus! {

/// Whether `v` fits in an `i32`.
pub open spec fn fits_i32(v: int) -> bool {
    i32::MIN <= v <= i32::MAX
}

#[derive(Clone, Copy, Debug, Default, PartialEq, Eq, Structural)]
pub struct Rect {
    pub x: i32,
    pub y: i32,
    pub width: i32,
    pub height: i32,
}

impl Rect {
    pub fn new(x: i32, y: i32, width: i32, height: i32) -> (r: Self)
        ensures
            r == (Rect { x, y, width, height }),
    {
        Rect { x, y, width, height }
    }

    /// The corner opposite the origin.
    pub fn bottom_right(&self) -> (r: (i32, i32))
        requires
            fits_i32(self.x + self.width),
            fits_i32(self.y + self.height),
    {
        (self.x + self.width, self.y + self.height)
    }

    pub open spec fn contains_spec(&self, x: int, y: int) -> bool {
        self.x <= x < self.x + self.width && self.y <= y < self.y + self.height
    }

    /// Whether the point lies inside (the far edges excluded).
    pub fn contains(&self, x: i32, y: i32) -> (r: bool)
        ensures
            r == self.contains_spec(x as int, y as int),
    {
        x as i64 >= self.x as i64 && (x as i64) < self.x as i64 + self.width as i64 && y as i64 >= self.y as i64
            && (y as i64) < self.y as i64 + self.height as i64
    }
}

#[derive(Clone, Copy, Debug, Default, PartialEq, Eq, Structural)]
pub struct EdgeSizes {
    pub left: i32,
    pub right: i32,
    pub top: i32,
    pub bottom: i32,
}

impl EdgeSizes {
    /// Edges in the order top, right, bottom, left.
    pub fn new(top: i32, right: i32, bottom: i32, left: i32) -> (r: Self)
        ensures
            r == (EdgeSizes { left, right, top, bottom }),
    {
        EdgeSizes { left, right, top, bottom }
    }

    /// The same size on all four edges.
    pub fn uniform(size: i32) -> (r: Self)
        ensures
            r == (EdgeSizes { left: size, right: size, top: size, bottom: size }),
    {
        EdgeSizes { left: size, right: size, top: size, bottom: size }
    }

    pub open spec fn horizontal_spec(&self) -> int {
        self.left + self.right
    }

    pub open spec fn vertical_spec(&self) -> int {
        self.top + self.bottom
    }

    /// Left plus right.
    pub fn horizontal(&self) -> (r: i32)
        requires
            fits_i32(self.horizontal_spec()),
        ensures
            r == self.horizontal_spec(),
    {
        self.left + self.right
    }

    /// Top plus bottom.
    pub fn vertical(&self) -> (r: i32)
        requires
            fits_i32(self.vertical_spec()),
        ensures
            r == self.vertical_spec(),
    {
        self.top + self.bottom
    }
}

#[derive(Clone, Copy, Debug, Default, PartialEq, Eq, Structural)]
pub struct Dimensions {
    /// Content area, relative to the document origin.
    pub content: Rect,
    pub padding: EdgeSizes,
    pub border: EdgeSizes,
    pub margin: EdgeSizes,
}

impl Dimensions {
    pub open spec fn padding_box_spec(&self) -> (int, int, int, int) {
        (
            self.content.x - self.padding.left,
            self.content.y - self.padding.top,
            self.content.width + self.padding.horizontal_spec(),
            self.content.height + self.padding.vertical_spec(),
        )
    }

    pub open spec fn border_box_spec(&self) -> (int, int, int, int) {
        let p = self.padding_box_spec();
        (p.0 - self.border.left, p.1 - self.border.top, p.2 + self.border.horizontal_spec(), p.3
            + self.border.vertical_spec())
    }

    pub open spec fn margin_box_spec(&self) -> (int, int, int, int) {
        let b = self.border_box_spec();
        (b.0 - self.margin.left, b.1 - self.margin.top, b.2 + self.margin.horizontal_spec(), b.3
            + self.margin.vertical_spec())
    }

    /// Every quantity of every box fits in an `i32`.
    pub open spec fn fits(&self) -> bool {
        let m = self.margin_box_spec();
        let b = self.border_box_spec();
        let p = self.padding_box_spec();
        &&& fits_i32(self.padding.horizontal_spec()) && fits_i32(self.padding.vertical_spec())
        &&& fits_i32(self.border.horizontal_spec()) && fits_i32(self.border.vertical_spec())
        &&& fits_i32(self.margin.horizontal_spec()) && fits_i32(self.margin.vertical_spec())
        &&& fits_i32(p.0) && fits_i32(p.1) && fits_i32(p.2) && fits_i32(p.3)
        &&& fits_i32(b.0) && fits_i32(b.1) && fits_i32(b.2) && fits_i32(b.3)
        &&& fits_i32(m.0) && fits_i32(m.1) && fits_i32(m.2) && fits_i32(m.3)
    }

    pub open spec fn new_spec() -> Dimensions {
        Dimensions {
            content: Rect { x: 0, y: 0, width: 0, height: 0 },
            padding: EdgeSizes { left: 0, right: 0, top: 0, bottom: 0 },
            border: EdgeSizes { left: 0, right: 0, top: 0, bottom: 0 },
            margin: EdgeSizes { left: 0, right: 0, top: 0, bottom: 0 },
        }
    }

    /// All sizes zero.
    pub fn new() -> (r: Self)
        ensures
            r == Dimensions::new_spec(),
            r.content == (Rect { x: 0, y: 0, width: 0, height: 0 }),
            r.padding == (EdgeSizes { left: 0, right: 0, top: 0, bottom: 0 }),
            r.border == (EdgeSizes { left: 0, right: 0, top: 0, bottom: 0 }),
            r.margin == (EdgeSizes { left: 0, right: 0, top: 0, bottom: 0 }),
    {
        let z = EdgeSizes::uniform(0);
        Dimensions { content: Rect::new(0, 0, 0, 0), padding: z, border: z, margin: z }
    }

    /// Content width plus padding and border.
    pub fn border_box_width(&self) -> (r: i32)
        requires
            self.fits(),
        ensures
            r == self.border_box_spec().2,
    {
        self.content.width + self.padding.horizontal() + self.border.horizontal()
    }

    /// Content height plus padding and border.
    pub fn border_box_height(&self) -> (r: i32)
        requires
            self.fits(),
        ensures
            r == self.border_box_spec().3,
    {
        self.content.height + self.padding.vertical() + self.border.vertical()
    }

    /// Border-box width plus margin.
    pub fn margin_box_width(&self) -> (r: i32)
        requires
            self.fits(),
        ensures
            r == self.margin_box_spec().2,
    {
        self.border_box_width() + self.margin.horizontal()
    }

    /// Border-box height plus margin.
    pub fn margin_box_height(&self) -> (r: i32)
        requires
            self.fits(),
        ensures
            r == self.margin_box_spec().3,
    {
        self.border_box_height() + self.margin.vertical()
    }

    /// The content area grown by the padding.
    pub fn padding_box(&self) -> (r: Rect)
        requires
            self.fits(),
        ensures
            (r.x as int, r.y as int, r.width as int, r.height as int) == self.padding_box_spec(),
    {
        Rect {
            x: self.content.x - self.padding.left,
            y: self.content.y - self.padding.top,
            width: self.content.width + self.padding.horizontal(),
            height: self.content.height + self.padding.vertical(),
        }
    }

    /// The padding box grown by the border.
    pub fn border_box(&self) -> (r: Rect)
        requires
            self.fits(),
        ensures
            (r.x as int, r.y as int, r.width as int, r.height as int) == self.border_box_spec(),
    {
        let p = self.padding_box();
        Rect {
            x: p.x - self.border.left,
            y: p.y - self.border.top,
            width: p.width + self.border.horizontal(),
            height: p.height + self.border.vertical(),
        }
    }

    /// The border box grown by the margin.
    pub fn margin_box(&self) -> (r: Rect)
        requires
            self.fits(),
        ensures
            (r.x as int, r.y as int, r.width as int, r.height as int) == self.margin_box_spec(),
    {
        let b = self.border_box();
        Rect {
            x: b.x - self.margin.left,
            y: b.y - self.margin.top,
            width: b.width + self.margin.horizontal(),
            height: b.height + self.margin.vertical(),
        }
    }
}

} // verus!
