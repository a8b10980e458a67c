use vstd::prelude::*;

verus! {

/// A position on the screen: the horizontal offset first, the vertical one second.
#[derive(Clone, Copy, PartialEq, Eq, Structural, Debug)]
pub struct Point(pub u32, pub u32);

/// The extent of a region of the screen.
#[derive(Clone, Copy, PartialEq, Eq, Structural, Debug)]
pub struct Dimensions {
    pub width: u32,
    pub height: u32,
}

impl Dimensions {
    pub fn new(width: u32, height: u32) -> (dimensions: Self)
        ensures
            dimensions == (Dimensions { width, height }),
    {
        Dimensions { width, height }
    }

    pub fn width(&self) -> (width: u32)
        ensures
            width == self.width,
    {
        self.width
    }

    pub fn height(&self) -> (height: u32)
        ensures
            height == self.height,
    {
        self.height
    }
}

/// The region a control occupied when it was last rendered.
#[derive(Clone, Copy, PartialEq, Eq, Structural, Debug)]
pub struct Rectangle {
    pub position: Point,
    pub dimensions: Dimensions,
}

impl Rectangle {
    /// Whether the coordinate `(x, y)` lies inside the rectangle. The far edges
    /// are exclusive, so a rectangle without width or height holds nothing.
    pub open spec fn covers(&self, x: int, y: int) -> bool {
        &&& self.position.0 <= x < self.position.0 + self.dimensions.width
        &&& self.position.1 <= y < self.position.1 + self.dimensions.height
    }

    /// Whether the far corner of the rectangle is still a representable position.
    pub open spec fn fits(&self) -> bool {
        &&& self.position.0 + self.dimensions.width <= u32::MAX
        &&& self.position.1 + self.dimensions.height <= u32::MAX
    }

    /// Whether every coordinate of `inner` is also a coordinate of `self`.
    pub open spec fn encloses(&self, inner: Rectangle) -> bool {
        forall|x: int, y: int| inner.covers(x, y) ==> self.covers(x, y)
    }

    pub fn new(position: Point, dimensions: Dimensions) -> (rectangle: Self)
        ensures
            rectangle == (Rectangle { position, dimensions }),
    {
        Rectangle { position, dimensions }
    }

    /// Whether `point` lies inside the rectangle.
    pub fn contains(&self, point: Point) -> (inside: bool)
        ensures
            inside == self.covers(point.0 as int, point.1 as int),
    {
        let x: u64 = point.0 as u64;
        let y: u64 = point.1 as u64;
        let left: u64 = self.position.0 as u64;
        let top: u64 = self.position.1 as u64;
        left <= x && x < left + self.dimensions.width as u64 && top <= y && y < top
            + self.dimensions.height as u64
    }
}

/// The axis along which a stack lays out its children.
#[derive(Clone, Copy, PartialEq, Eq, Structural, Debug)]
pub enum Orientation {
    Horizontal,
    Vertical,
}

/// How much of the stacking axis one child of a stack asks for.
#[derive(Clone, Copy, PartialEq, Eq, Structural, Debug)]
pub enum StackUnitDimension {
    /// Exactly this many units.
    Pixel(u32),
    /// An even share of what the fixed children leave over.
    Stretch,
}

/// Space kept free between the edge of a region and what is drawn inside it.
#[derive(Clone, Copy, PartialEq, Eq, Structural, Debug)]
pub struct Padding {
    pub top: u32,
    pub bottom: u32,
    pub left: u32,
    pub right: u32,
}

/// `a + b`, held at the largest `u32` where the sum would pass it.
pub open spec fn clamped_sum(a: u32, b: u32) -> u32 {
    if a + b > u32::MAX {
        u32::MAX
    } else {
        (a + b) as u32
    }
}

/// `a - b`, held at zero where `b` is the larger.
pub open spec fn clamped_difference(a: u32, b: u32) -> u32 {
    if a < b {
        0
    } else {
        (a - b) as u32
    }
}

impl Padding {
    pub fn new(top: u32, bottom: u32, left: u32, right: u32) -> (padding: Self)
        ensures
            padding == (Padding { top, bottom, left, right }),
    {
        Self { top, bottom, left, right }
    }

    /// No padding.
    pub fn zero() -> (padding: Self)
        ensures
            padding == (Padding { top: 0, bottom: 0, left: 0, right: 0 }),
    {
        Self { top: 0, bottom: 0, left: 0, right: 0 }
    }

    /// Padding above and below only.
    pub fn vertical(top: u32, bottom: u32) -> (padding: Self)
        ensures
            padding == (Padding { top, bottom, left: 0, right: 0 }),
    {
        Self { top, bottom, left: 0, right: 0 }
    }

    /// Padding to the left and to the right only.
    pub fn horizontal(left: u32, right: u32) -> (padding: Self)
        ensures
            padding == (Padding { top: 0, bottom: 0, left, right }),
    {
        Self { top: 0, bottom: 0, left, right }
    }

    /// Left and right padding together.
    pub open spec fn spec_total_horizontal(&self) -> u32 {
        clamped_sum(self.left, self.right)
    }

    /// Top and bottom padding together.
    pub open spec fn spec_total_vertical(&self) -> u32 {
        clamped_sum(self.top, self.bottom)
    }

    /// What is left of `dimensions` once the padding is taken off each side;
    /// an extent smaller than its padding shrinks to zero.
    pub open spec fn spec_adjust_dimensions(&self, dimensions: Dimensions) -> Dimensions {
        Dimensions {
            width: clamped_difference(dimensions.width, self.spec_total_horizontal()),
            height: clamped_difference(dimensions.height, self.spec_total_vertical()),
        }
    }

    /// `position` moved right by the left padding and down by the top padding.
    pub open spec fn spec_adjust_position(&self, position: Point) -> Point {
        Point(clamped_sum(position.0, self.left), clamped_sum(position.1, self.top))
    }

    /// Left and right padding together.
    #[verifier::when_used_as_spec(spec_total_horizontal)]
    pub fn total_horizontal(&self) -> (total: u32)
        ensures
            total == self.spec_total_horizontal(),
    {
        self.left.saturating_add(self.right)
    }

    /// Top and bottom padding together.
    #[verifier::when_used_as_spec(spec_total_vertical)]
    pub fn total_vertical(&self) -> (total: u32)
        ensures
            total == self.spec_total_vertical(),
    {
        self.top.saturating_add(self.bottom)
    }

    /// What is left of `dimensions` inside the padding.
    #[verifier::when_used_as_spec(spec_adjust_dimensions)]
    pub fn adjust_dimensions(&self, dimensions: Dimensions) -> (adjusted: Dimensions)
        ensures
            adjusted == self.spec_adjust_dimensions(dimensions),
    {
        Dimensions {
            width: dimensions.width.saturating_sub(self.total_horizontal()),
            height: dimensions.height.saturating_sub(self.total_vertical()),
        }
    }

    /// Where the region inside the padding starts, for a region at `position`.
    #[verifier::when_used_as_spec(spec_adjust_position)]
    pub fn adjust_position(&self, position: Point) -> (adjusted: Point)
        ensures
            adjusted == self.spec_adjust_position(position),
    {
        Point(position.0.saturating_add(self.left), position.1.saturating_add(self.top))
    }

    /// The padded region never reaches outside the region it was cut from.
    pub proof fn lemma_adjusted_region_is_enclosed(&self, position: Point, dimensions: Dimensions)
        requires
            (Rectangle { position, dimensions }).fits(),
        ensures
            (Rectangle { position, dimensions }).encloses(
                Rectangle {
                    position: self.spec_adjust_position(position),
                    dimensions: self.spec_adjust_dimensions(dimensions),
                },
            ),
            (Rectangle {
                position: self.spec_adjust_position(position),
                dimensions: self.spec_adjust_dimensions(dimensions),
            }).fits(),
    {
    }
}

} // verus!
