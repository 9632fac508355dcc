//! Geometry and layout primitives: sizes, rectangles, sizing policies, limits
//! handed top-down, and the computed layout nodes handed back bottom-up.

use vstd::prelude::*;

verus! {

/// A width and a height in whole logical units.
#[derive(Clone, Copy, PartialEq, Eq, Structural, Debug)]
pub struct Size {
    pub width: u32,
    pub height: u32,
}

/// A position in whole logical units.
#[derive(Clone, Copy, PartialEq, Eq, Structural, Debug)]
pub struct Point {
    pub x: u32,
    pub y: u32,
}

/// An axis-aligned box: a position and a size.
#[derive(Clone, Copy, PartialEq, Eq, Structural, Debug)]
pub struct Rectangle {
    pub x: u32,
    pub y: u32,
    pub width: u32,
    pub height: u32,
}

/// How a widget wants to be sized along one axis.
#[derive(Clone, Copy, PartialEq, Eq, Structural, Debug)]
pub enum Length {
    /// Take all the space the parent offers.
    Fill,
    /// Take only the space the content needs.
    Shrink,
    /// Take a fixed number of units.
    Units(u16),
}

/// Cross-axis placement of a child inside its row.
#[derive(Clone, Copy, PartialEq, Eq, Structural, Debug)]
pub enum Align {
    Start,
    Center,
    End,
}

#[derive(Clone, Copy, PartialEq, Eq, Structural, Debug)]
pub enum HorizontalAlignment {
    Left,
    Center,
    Right,
}

#[derive(Clone, Copy, PartialEq, Eq, Structural, Debug)]
pub enum VerticalAlignment {
    Top,
    Center,
    Bottom,
}

pub open spec fn sat_add(a: u32, b: u32) -> u32 {
    if a + b > u32::MAX {
        u32::MAX
    } else {
        (a + b) as u32
    }
}

pub open spec fn sat_sub(a: u32, b: u32) -> u32 {
    if a > b {
        (a - b) as u32
    } else {
        0u32
    }
}

pub open spec fn clamp(v: u32, lo: u32, hi: u32) -> u32 {
    if v < lo {
        lo
    } else if v > hi {
        hi
    } else {
        v
    }
}

/// Addition that stops at the largest representable extent.
pub fn add_sat(a: u32, b: u32) -> (r: u32)
    ensures
        r == sat_add(a, b),
{
    if a <= u32::MAX - b {
        a + b
    } else {
        u32::MAX
    }
}

/// Subtraction that stops at zero.
pub fn sub_sat(a: u32, b: u32) -> (r: u32)
    ensures
        r == sat_sub(a, b),
{
    if a > b {
        a - b
    } else {
        0
    }
}

pub fn clamp_u32(v: u32, lo: u32, hi: u32) -> (r: u32)
    ensures
        r == clamp(v, lo, hi),
{
    if v < lo {
        lo
    } else if v > hi {
        hi
    } else {
        v
    }
}

impl Rectangle {
    /// Whether a point falls inside the box.
    pub open spec fn contains_spec(self, p: Point) -> bool {
        &&& self.x <= p.x
        &&& p.x - self.x < self.width
        &&& self.y <= p.y
        &&& p.y - self.y < self.height
    }

    pub fn contains(&self, p: Point) -> (r: bool)
        ensures
            r == self.contains_spec(p),
    {
        self.x <= p.x && p.x - self.x < self.width && self.y <= p.y && p.y - self.y < self.height
    }
}

/// The space offered to a widget: at least `min`, at most `max`, per axis.
#[derive(Clone, Copy, PartialEq, Eq, Structural, Debug)]
pub struct Limits {
    pub min: Size,
    pub max: Size,
}

impl Limits {
    pub open spec fn wf(self) -> bool {
        self.min.width <= self.max.width && self.min.height <= self.max.height
    }

    /// Malformed bounds are corrected by raising the maximum to the minimum.
    pub open spec fn corrected(min: Size, max: Size) -> Limits {
        Limits {
            min,
            max: Size {
                width: if max.width < min.width { min.width } else { max.width },
                height: if max.height < min.height { min.height } else { max.height },
            },
        }
    }

    pub fn new(min: Size, max: Size) -> (r: Self)
        ensures
            r == Self::corrected(min, max),
            r.wf(),
    {
        Limits {
            min,
            max: Size {
                width: if max.width < min.width { min.width } else { max.width },
                height: if max.height < min.height { min.height } else { max.height },
            },
        }
    }

    /// Applying a width policy: a filling widget raises the minimum to the
    /// maximum, a fixed width pins both to the clamped unit count, a shrinking
    /// widget leaves the limits alone.
    pub open spec fn apply_width(self, w: Length) -> Limits {
        match w {
            Length::Fill => Limits {
                min: Size { width: self.max.width, height: self.min.height },
                max: self.max,
            },
            Length::Shrink => self,
            Length::Units(u) => {
                let c = clamp(u as u32, self.min.width, self.max.width);
                Limits {
                    min: Size { width: c, height: self.min.height },
                    max: Size { width: c, height: self.max.height },
                }
            },
        }
    }

    pub open spec fn apply_height(self, h: Length) -> Limits {
        match h {
            Length::Fill => Limits {
                min: Size { width: self.min.width, height: self.max.height },
                max: self.max,
            },
            Length::Shrink => self,
            Length::Units(u) => {
                let c = clamp(u as u32, self.min.height, self.max.height);
                Limits {
                    min: Size { width: self.min.width, height: c },
                    max: Size { width: self.max.width, height: c },
                }
            },
        }
    }

    pub fn width(&self, w: Length) -> (r: Limits)
        ensures
            r == self.apply_width(w),
    {
        match w {
            Length::Fill => Limits {
                min: Size { width: self.max.width, height: self.min.height },
                max: self.max,
            },
            Length::Shrink => *self,
            Length::Units(u) => {
                let c = clamp_u32(u as u32, self.min.width, self.max.width);
                Limits {
                    min: Size { width: c, height: self.min.height },
                    max: Size { width: c, height: self.max.height },
                }
            },
        }
    }

    pub fn height(&self, h: Length) -> (r: Limits)
        ensures
            r == self.apply_height(h),
    {
        match h {
            Length::Fill => Limits {
                min: Size { width: self.min.width, height: self.max.height },
                max: self.max,
            },
            Length::Shrink => *self,
            Length::Units(u) => {
                let c = clamp_u32(u as u32, self.min.height, self.max.height);
                Limits {
                    min: Size { width: self.min.width, height: c },
                    max: Size { width: self.max.width, height: c },
                }
            },
        }
    }

    /// An intrinsic content size clamped into the limits.
    pub open spec fn resolve_spec(self, intrinsic: Size) -> Size {
        Size {
            width: clamp(intrinsic.width, self.min.width, self.max.width),
            height: clamp(intrinsic.height, self.min.height, self.max.height),
        }
    }

    pub fn resolve(&self, intrinsic: Size) -> (r: Size)
        ensures
            r == self.resolve_spec(intrinsic),
    {
        Size {
            width: clamp_u32(intrinsic.width, self.min.width, self.max.width),
            height: clamp_u32(intrinsic.height, self.min.height, self.max.height),
        }
    }
}

/// A computed layout: the widget's box, relative to its parent, and the boxes
/// of its children.
pub struct Node {
    pub bounds: Rectangle,
    pub children: Vec<Node>,
}

/// The mathematical shape of a layout tree.
#[verifier::ext_equal]
pub struct NodeSpec {
    pub bounds: Rectangle,
    pub children: Seq<NodeSpec>,
}

/// A childless placeholder shape.
pub open spec fn empty_node_spec() -> NodeSpec {
    NodeSpec {
        bounds: Rectangle { x: 0u32, y: 0u32, width: 0u32, height: 0u32 },
        children: Seq::empty(),
    }
}

pub open spec fn node_view(n: Node) -> NodeSpec
    decreases n,
{
    NodeSpec {
        bounds: n.bounds,
        children: Seq::new(
            n.children@.len(),
            |i: int| if 0 <= i < n.children@.len() {
                node_view(n.children@[i])
            } else {
                empty_node_spec()
            },
        ),
    }
}

impl View for Node {
    type V = NodeSpec;

    open spec fn view(&self) -> NodeSpec {
        node_view(*self)
    }
}

impl Node {
    /// A childless node of the given size at the origin.
    pub fn leaf(size: Size) -> (r: Self)
        ensures
            r@ == (NodeSpec {
                bounds: Rectangle { x: 0u32, y: 0u32, width: size.width, height: size.height },
                children: Seq::<NodeSpec>::empty(),
            }),
    {
        let r = Node {
            bounds: Rectangle { x: 0, y: 0, width: size.width, height: size.height },
            children: Vec::new(),
        };
        proof {
            assert(r@.children =~= Seq::<NodeSpec>::empty());
            assert(r@ =~= (NodeSpec {
                bounds: Rectangle { x: 0u32, y: 0u32, width: size.width, height: size.height },
                children: Seq::<NodeSpec>::empty(),
            }));
        }
        r
    }
}

impl NodeSpec {
    pub open spec fn size(self) -> Size {
        Size { width: self.bounds.width, height: self.bounds.height }
    }

    /// Every box of the subtree fits inside `max`.
    pub open spec fn within_max(self, max: Size) -> bool
        decreases self,
    {
        &&& self.bounds.width <= max.width
        &&& self.bounds.height <= max.height
        &&& forall|i: int| 0 <= i < self.children.len()
            ==> (#[trigger] self.children[i]).within_max(max)
    }

    /// The root's box honours the minimum, and the whole subtree honours the
    /// maximum.
    pub open spec fn in_limits(self, limits: Limits) -> bool {
        &&& limits.min.width <= self.bounds.width
        &&& limits.min.height <= self.bounds.height
        &&& self.within_max(limits.max)
    }
}

/// A subtree bounded by a smaller box is bounded by a larger one.
pub proof fn lemma_within_max_widens(n: NodeSpec, a: Size, b: Size)
    requires
        n.within_max(a),
        a.width <= b.width,
        a.height <= b.height,
    ensures
        n.within_max(b),
    decreases n,
{
    assert forall|i: int| 0 <= i < n.children.len()
        implies (#[trigger] n.children[i]).within_max(b) by {
        lemma_within_max_widens(n.children[i], a, b);
    }
}

} // verus!
