//! Points, sizes and rectangles of single-precision coordinates, and formulas over them.
use vstd::prelude::*;

use crate::scalar::{Scalar, ZERO};

verus! {

/// A point, or an offset.
#[derive(Clone, Copy, Debug, PartialEq, Eq, Structural)]
pub struct Point {
    pub x: Scalar,
    pub y: Scalar,
}

/// A size.
#[derive(Clone, Copy, Debug, PartialEq, Eq, Structural)]
pub struct Size {
    pub width: Scalar,
    pub height: Scalar,
}

/// A rectangle, by its origin and its size.
#[derive(Clone, Copy, Debug, PartialEq, Eq, Structural)]
pub struct Rect {
    pub origin: Point,
    pub size: Size,
}

/// A size in whole device pixels.
#[derive(Clone, Copy, Debug, PartialEq, Eq, Structural)]
pub struct IntSize {
    pub width: i32,
    pub height: i32,
}

/// A rectangle in whole device pixels.
#[derive(Clone, Copy, Debug, PartialEq, Eq, Structural)]
pub struct IntRect {
    pub x: i32,
    pub y: i32,
    pub width: i32,
    pub height: i32,
}

/// A size in app units, sixtieths of a pixel.
#[derive(Clone, Copy, Debug, PartialEq, Eq, Structural)]
pub struct AuSize {
    pub width: i32,
    pub height: i32,
}

/// Four numbers, as one block of the GPU cache holds them.
#[derive(Clone, Copy, Debug, PartialEq, Eq, Structural)]
pub struct Block {
    pub x: Scalar,
    pub y: Scalar,
    pub z: Scalar,
    pub w: Scalar,
}

/// The radii of the four corners of a rounded rectangle.
#[derive(Clone, Copy, Debug, PartialEq, Eq, Structural)]
pub struct BorderRadius {
    pub top_left: Size,
    pub top_right: Size,
    pub bottom_left: Size,
    pub bottom_right: Size,
}

impl Size {
    /// Whether the size covers nothing: not both extents are above zero.
    pub open spec fn empty(self) -> bool {
        let zero = Scalar { bits: ZERO };
        !(zero.less(self.width) && zero.less(self.height))
    }

    /// Whether both extents are zero.
    pub open spec fn zero(self) -> bool {
        let zero = Scalar { bits: ZERO };
        self.width.same(zero) && self.height.same(zero)
    }

    /// Whether this size is at least `other` in both extents.
    pub open spec fn covers(self, other: Size) -> bool {
        other.width.at_most(self.width) && other.height.at_most(self.height)
    }

    /// Whether the size covers nothing.
    pub fn is_empty(self) -> (b: bool)
        ensures
            b == self.empty(),
    {
        let zero = Scalar { bits: ZERO };
        !(zero.is_less(self.width) && zero.is_less(self.height))
    }

    /// Whether both extents are zero.
    pub fn is_zero(self) -> (b: bool)
        ensures
            b == self.zero(),
    {
        let zero = Scalar { bits: ZERO };
        self.width.is_same(zero) && self.height.is_same(zero)
    }

    /// Whether this size is at least `other` in both extents.
    pub fn is_covering(self, other: Size) -> (b: bool)
        ensures
            b == self.covers(other),
    {
        other.width.is_at_most(self.width) && other.height.is_at_most(self.height)
    }
}

/// A formula over single-precision numbers. Each node is one operation, rounded on its own, so a
/// formula fixes its value.
#[derive(Debug, PartialEq, Eq)]
pub enum Expr {
    /// A number.
    Value(Scalar),
    /// The number nearest to an integer.
    Whole(i32),
    /// A sum.
    Plus(Box<Expr>, Box<Expr>),
    /// A difference.
    Minus(Box<Expr>, Box<Expr>),
    /// A product.
    Times(Box<Expr>, Box<Expr>),
    /// A quotient.
    Over(Box<Expr>, Box<Expr>),
    /// The negation of a number.
    Negate(Box<Expr>),
    /// The largest integer that is not above a number.
    Floor(Box<Expr>),
}

pub open spec fn value_spec(s: Scalar) -> Expr {
    Expr::Value(s)
}

pub open spec fn plus_spec(a: Expr, b: Expr) -> Expr {
    Expr::Plus(Box::new(a), Box::new(b))
}

pub open spec fn minus_spec(a: Expr, b: Expr) -> Expr {
    Expr::Minus(Box::new(a), Box::new(b))
}

pub open spec fn times_spec(a: Expr, b: Expr) -> Expr {
    Expr::Times(Box::new(a), Box::new(b))
}

pub open spec fn over_spec(a: Expr, b: Expr) -> Expr {
    Expr::Over(Box::new(a), Box::new(b))
}

pub open spec fn negate_spec(a: Expr) -> Expr {
    Expr::Negate(Box::new(a))
}

pub open spec fn floor_spec(a: Expr) -> Expr {
    Expr::Floor(Box::new(a))
}

/// The formula that is just a number.
#[verifier::when_used_as_spec(value_spec)]
pub fn value(s: Scalar) -> (e: Expr)
    ensures
        e == value_spec(s),
{
    Expr::Value(s)
}

/// `a + b`.
#[verifier::when_used_as_spec(plus_spec)]
pub fn plus(a: Expr, b: Expr) -> (e: Expr)
    ensures
        e == plus_spec(a, b),
{
    Expr::Plus(Box::new(a), Box::new(b))
}

/// `a - b`.
#[verifier::when_used_as_spec(minus_spec)]
pub fn minus(a: Expr, b: Expr) -> (e: Expr)
    ensures
        e == minus_spec(a, b),
{
    Expr::Minus(Box::new(a), Box::new(b))
}

/// `a * b`.
#[verifier::when_used_as_spec(times_spec)]
pub fn times(a: Expr, b: Expr) -> (e: Expr)
    ensures
        e == times_spec(a, b),
{
    Expr::Times(Box::new(a), Box::new(b))
}

/// `a / b`.
#[verifier::when_used_as_spec(over_spec)]
pub fn over(a: Expr, b: Expr) -> (e: Expr)
    ensures
        e == over_spec(a, b),
{
    Expr::Over(Box::new(a), Box::new(b))
}

/// `-a`.
#[verifier::when_used_as_spec(negate_spec)]
pub fn negate(a: Expr) -> (e: Expr)
    ensures
        e == negate_spec(a),
{
    Expr::Negate(Box::new(a))
}

/// `a`, rounded down to an integer.
#[verifier::when_used_as_spec(floor_spec)]
pub fn floor(a: Expr) -> (e: Expr)
    ensures
        e == floor_spec(a),
{
    Expr::Floor(Box::new(a))
}

} // verus!
