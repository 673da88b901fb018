//! Geometry primitives: integer positions, sizes, translation-only
//! transforms, and the parent-link component that expresses a child's offset
//! in a parent's local space.

use vstd::prelude::*;

verus! {

/// Screen-space position in pixels: origin at the top-left corner, y grows
/// downward. Coordinates may be negative.
#[derive(Debug, Copy, Clone, PartialEq, Eq, Structural)]
pub struct Pos(pub i32, pub i32);

/// Extent in pixels. A drawable entity is expected to carry a non-negative
/// width and height; zero yields a degenerate, empty rectangle.
#[derive(Debug, Copy, Clone, PartialEq, Eq, Structural)]
pub struct Size(pub i32, pub i32);

/// A pure 2D translation (dx, dy). Composition adds component-wise; each sum
/// wraps modulo 2^32, as two's-complement addition does.
#[derive(Debug, Copy, Clone, PartialEq, Eq, Structural)]
pub struct Transform(pub i32, pub i32);

/// A reference (not ownership) from a child entity to a parent entity, plus
/// the child's offset in the parent's local space. The identifier may dangle;
/// readers must check it at read time, never assume it.
#[derive(Debug, Copy, Clone, PartialEq, Eq, Structural)]
pub struct Parent {
    pub entity: u64,
    pub transform: Transform,
}

impl Default for Pos {
    fn default() -> (r: Self)
        ensures
            r == Pos(0, 0),
    {
        Pos(0, 0)
    }
}

impl Default for Size {
    fn default() -> (r: Self)
        ensures
            r == Size(0, 0),
    {
        Size(0, 0)
    }
}

impl Default for Transform {
    fn default() -> (r: Self)
        ensures
            r == Transform(0, 0),
    {
        Transform(0, 0)
    }
}

/// Two's-complement 32-bit addition: the mathematical sum brought back into
/// the i32 range by adding or subtracting one multiple of 2^32.
pub open spec fn wrap_add(a: i32, b: i32) -> i32 {
    vstd::wrapping::i32_specs::wrapping_add(a, b)
}

/// The composition of two translations: component-wise wrapping addition.
pub open spec fn composed(a: Transform, b: Transform) -> Transform {
    Transform(wrap_add(a.0, b.0), wrap_add(a.1, b.1))
}

/// A translation applied to a position: component-wise wrapping addition.
pub open spec fn applied(t: Transform, p: Pos) -> Pos {
    Pos(wrap_add(t.0, p.0), wrap_add(t.1, p.1))
}

impl Transform {
    /// Compose two translations into one.
    pub fn compose(self, rhs: Transform) -> (r: Transform)
        ensures
            r == composed(self, rhs),
    {
        Transform(self.0.wrapping_add(rhs.0), self.1.wrapping_add(rhs.1))
    }

    /// Translate a position by this transform.
    pub fn apply(self, p: Pos) -> (r: Pos)
        ensures
            r == applied(self, p),
    {
        Pos(self.0.wrapping_add(p.0), self.1.wrapping_add(p.1))
    }
}

/// Composition of translations is commutative.
pub proof fn lemma_compose_commutative(a: Transform, b: Transform)
    ensures
        composed(a, b) == composed(b, a),
{
}

/// Composition of translations is associative: wrapping addition is addition
/// modulo 2^32, which is associative.
pub proof fn lemma_compose_associative(a: Transform, b: Transform, c: Transform)
    ensures
        composed(composed(a, b), c) == composed(a, composed(b, c)),
{
}

/// Composing with the identity translation (0, 0), on either side, is a no-op.
pub proof fn lemma_compose_identity(a: Transform)
    ensures
        composed(a, Transform(0, 0)) == a,
        composed(Transform(0, 0), a) == a,
{
}

/// Composing two translations and then applying the result to a position
/// equals applying each translation sequentially.
pub proof fn lemma_compose_then_apply(a: Transform, b: Transform, p: Pos)
    ensures
        applied(composed(a, b), p) == applied(a, applied(b, p)),
{
}

} // verus!
