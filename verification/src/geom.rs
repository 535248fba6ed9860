//! Geometric value types: generic coordinate containers for positions,
//! sizes and rectangles, together with the marker traits that say which
//! numeric types may stand in them.

use vstd::prelude::*;

verus! {

/// A numeric type that may be used as a coordinate.
pub trait GeomUnit {}

impl GeomUnit for i32 {}

impl GeomUnit for u32 {}

/// A numeric type whose every value is non-negative, so that it may be
/// used as a dimension of a size.
pub trait NonNegativeGeomUnit: GeomUnit {}

impl NonNegativeGeomUnit for u32 {}

/// A position: a pair of coordinates.
#[derive(Copy, Clone, Debug)]
pub struct Point<T> {
    x: T,
    y: T,
}

impl<T: GeomUnit> Point<T> {
    pub closed spec fn spec_x(&self) -> T {
        self.x
    }

    pub closed spec fn spec_y(&self) -> T {
        self.y
    }

    pub fn new(x: T, y: T) -> (r: Self)
        ensures
            r.spec_x() == x,
            r.spec_y() == y,
    {
        Point { x, y }
    }

    pub fn x(self) -> (r: T)
        ensures
            r == self.spec_x(),
    {
        self.x
    }

    pub fn y(self) -> (r: T)
        ensures
            r == self.spec_y(),
    {
        self.y
    }
}

/// An extent: a width and a height, both non-negative by the constraint
/// on the coordinate type.
#[derive(Copy, Clone, Debug)]
pub struct Size<T> {
    width: T,
    height: T,
}

impl<T: NonNegativeGeomUnit> Size<T> {
    pub closed spec fn spec_width(&self) -> T {
        self.width
    }

    pub closed spec fn spec_height(&self) -> T {
        self.height
    }

    pub fn new(x: T, y: T) -> (r: Self)
        ensures
            r.spec_width() == x,
            r.spec_height() == y,
    {
        Size { width: x, height: y }
    }

    pub fn width(self) -> (r: T)
        ensures
            r == self.spec_width(),
    {
        self.width
    }

    pub fn height(self) -> (r: T)
        ensures
            r == self.spec_height(),
    {
        self.height
    }
}

/// A rectangle: a position together with an extent, owned by value.
#[derive(Copy, Clone, Debug)]
pub struct Rect<T, U> {
    position: Point<T>,
    size: Size<U>,
}

impl<T: GeomUnit, U: NonNegativeGeomUnit> Rect<T, U> {
    pub fn new(position: Point<T>, size: Size<U>) -> (r: Self)
        ensures
            r.spec_position() == position,
            r.spec_size() == size,
    {
        Rect { position, size }
    }
}

impl<T, U> Rect<T, U> {
    pub closed spec fn spec_position(&self) -> Point<T> {
        self.position
    }

    pub closed spec fn spec_size(&self) -> Size<U> {
        self.size
    }
}

impl<T: Copy, U> Rect<T, U> {
    pub fn position(&self) -> (r: Point<T>)
        ensures
            r == self.spec_position(),
    {
        self.position
    }
}

impl<T, U: Copy> Rect<T, U> {
    pub fn size(&self) -> (r: Size<U>)
        ensures
            r == self.spec_size(),
    {
        self.size
    }
}

pub type IntPoint = Point<i32>;

pub type IntSize = Size<u32>;

pub type IntRect = Rect<i32, u32>;

} // verus!
