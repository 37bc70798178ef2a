//! Settings of the embeddable widget.

use vstd::prelude::*;

verus! {

/// Which built-in shape to render
#[derive(Debug, Clone, Copy, PartialEq, Eq, Hash, Structural)]
pub enum Shape {
    Torus,
    Cube,
    Sphere,
}

impl Default for Shape {
    fn default() -> (r: Self)
        ensures
            r == Shape::Torus,
    {
        Shape::Torus
    }
}

impl Shape {
    /// Position of the variant in the cycle `Torus, Cube, Sphere`.
    pub open spec fn position(self) -> nat {
        match self {
            Shape::Torus => 0,
            Shape::Cube => 1,
            Shape::Sphere => 2,
        }
    }

    pub open spec fn spec_next(self) -> Self {
        match self {
            Shape::Torus => Shape::Cube,
            Shape::Cube => Shape::Sphere,
            Shape::Sphere => Shape::Torus,
        }
    }

    /// The variant after this one, wrapping around after the last.
    pub fn next(self) -> (r: Self)
        ensures
            r == self.spec_next(),
            r.position() == (self.position() + 1) % 3,
    {
        match self {
            Shape::Torus => Shape::Cube,
            Shape::Cube => Shape::Sphere,
            Shape::Sphere => Shape::Torus,
        }
    }
}

impl Shape {
    /// The variant reached after `k` calls of `next`.
    pub open spec fn after(self, k: nat) -> Self
        decreases k,
    {
        if k == 0 {
            self
        } else {
            self.after((k - 1) as nat).spec_next()
        }
    }
}

/// Cycling with `next` visits every variant before coming back: after
/// 3 steps it returns to where it started, and never earlier.
pub proof fn lemma_shape_cycle(start: Shape)
    ensures
        start.after(3) == start,
        forall|k: nat| 0 < k < 3 ==> #[trigger] start.after(k) != start,
{
    lemma_shape_after_position(start, 3);
    assert forall|k: nat| 0 < k < 3 implies #[trigger] start.after(k) != start by {
        assert(start.after(k).position() == (start.position() + k) % 3) by {
            lemma_shape_after_position(start, k);
        }
    }
}

proof fn lemma_shape_after_position(start: Shape, k: nat)
    ensures
        start.after(k).position() == (start.position() + k) % 3,
    decreases k,
{
    if k > 0 {
        lemma_shape_after_position(start, (k - 1) as nat);
    }
}


/// Content a widget can show instead of its built-in shape.
#[derive(Debug, Clone, Copy, PartialEq, Eq, Structural)]
pub enum ContentKind {
    Mesh,
    Gif,
    Countdown,
    Custom,
}

/// Whether the widget animates this frame: rotating shapes (the built-in
/// ones and meshes) pause when auto-rotate is off; GIFs, countdowns and
/// custom scenes always animate.
pub fn animates(auto_rotate: bool, content: Option<ContentKind>) -> (r: bool)
    ensures
        r == (auto_rotate || !(content is None || content == Some(ContentKind::Mesh))),
{
    let rotating = match content {
        None => true,
        Some(ContentKind::Mesh) => true,
        Some(_) => false,
    };
    auto_rotate || !rotating
}

} // verus!
