//! The widget set: text, rows and radio buttons, as one closed kind, with the
//! two-pass flex layout of rows and depth-first event dispatch.

use vstd::prelude::*;
use vstd::std_specs::cmp::PartialEqSpec;
use crate::event::{is_left_press, Event};
use crate::layout::{
    lemma_within_max_widens,
    clamp, clamp_u32, sat_add, sat_sub, add_sat, sub_sat, Align, HorizontalAlignment, Length,
    Limits, Node, NodeSpec, Point, Rectangle, Size, VerticalAlignment,
};
use crate::mouse;
use crate::renderer::Renderer;

verus! {

broadcast use vstd::string::to_string_from_display_ensures_for_str;

/// Relies on Default::default of the renderer's style type: the result is one
/// that implementation's own contract admits.
#[verifier::external_body]
fn default_style<S: Default>() -> (r: S)
    ensures
        S::default.ensures((), r),
{
    S::default()
}

/// A paragraph of text, shrinking to its measured content by default.
pub struct Text {
    pub content: String,
    pub size: Option<u32>,
    pub width: Length,
    pub height: Length,
}

impl Text {
    pub fn new(content: String) -> (r: Self)
        ensures
            r.content@ == content@,
            r.size is None,
            r.width == Length::Shrink,
            r.height == Length::Shrink,
    {
        Text { content, size: None, width: Length::Shrink, height: Length::Shrink }
    }
}

/// A horizontal container: children laid out left to right with a fixed gap.
pub struct Row<M, R: Renderer> {
    pub spacing: u16,
    pub width: Length,
    pub height: Length,
    pub align_items: Align,
    pub children: Vec<Element<M, R>>,
}

impl<M, R: Renderer> Row<M, R> {
    pub fn new() -> (r: Self)
        ensures
            r.spacing == 0u16,
            r.width == Length::Fill,
            r.height == Length::Shrink,
            r.align_items == Align::Start,
            r.children@ == Seq::<Element<M, R>>::empty(),
    {
        Row {
            spacing: 0,
            width: Length::Fill,
            height: Length::Shrink,
            align_items: Align::Start,
            children: Vec::new(),
        }
    }

    pub fn spacing(self, units: u16) -> (r: Self)
        ensures
            r == (Row { spacing: units, ..self }),
    {
        Row { spacing: units, ..self }
    }

    pub fn width(self, width: Length) -> (r: Self)
        ensures
            r == (Row { width, ..self }),
    {
        Row { width, ..self }
    }

    pub fn height(self, height: Length) -> (r: Self)
        ensures
            r == (Row { height, ..self }),
    {
        Row { height, ..self }
    }

    pub fn align_items(self, align: Align) -> (r: Self)
        ensures
            r == (Row { align_items: align, ..self }),
    {
        Row { align_items: align, ..self }
    }

    pub fn push(self, child: Element<M, R>) -> (r: Self)
        ensures
            r.spacing == self.spacing,
            r.width == self.width,
            r.height == self.height,
            r.align_items == self.align_items,
            r.children@ == self.children@.push(child),
    {
        let Row { spacing, width, height, align_items, mut children } = self;
        children.push(child);
        Row { spacing, width, height, align_items, children }
    }
}

/// Whether a candidate value is the currently selected one.
pub open spec fn selected_state<V: PartialEq>(value: V, selected: Option<V>) -> bool {
    match selected {
        Some(s) => value.eq_spec(&s),
        None => false,
    }
}

/// A circular button representing a choice: selected when its value is the
/// currently selected one, and emitting its message when clicked.
pub struct Radio<M, R: Renderer> {
    pub is_selected: bool,
    pub message: M,
    pub label: String,
    pub style: R::Style,
}

impl<M, R: Renderer> Radio<M, R> {
    /// Builds a radio button for `value`, labelled `label`, selected when
    /// `value` equals `selected`, whose click message is what `f` makes of
    /// `value`.
    pub fn new<F, V>(value: V, label: &str, selected: Option<V>, f: F) -> (r: Self) where
        V: Copy + PartialEq,
        F: Fn(V) -> M,

        requires
            f.requires((value,)),
        ensures
            V::obeys_eq_spec() ==> r.is_selected == selected_state(value, selected),
            f.ensures((value,), r.message),
            r.label@ == label@,
            <R::Style as Default>::default.ensures((), r.style),
    {
        let is_selected = match selected {
            Some(s) => value == s,
            None => false,
        };
        let message = f(value);
        Radio { is_selected, message, label: label.to_string(), style: default_style::<R::Style>() }
    }

    /// Sets the style of the radio button.
    pub fn style(self, style: R::Style) -> (r: Self)
        ensures
            r.is_selected == self.is_selected,
            r.message == self.message,
            r.label == self.label,
            r.style == style,
    {
        Radio { style, ..self }
    }

    pub fn width(&self) -> (r: Length)
        ensures
            r == Length::Fill,
    {
        Length::Fill
    }

    pub fn height(&self) -> (r: Length)
        ensures
            r == Length::Shrink,
    {
        Length::Shrink
    }
}

/// A widget: the closed set of elements a view can produce.
pub enum Element<M, R: Renderer> {
    Text(Text),
    Row(Row<M, R>),
    Radio(Radio<M, R>),
}

impl<M, R: Renderer> From<Radio<M, R>> for Element<M, R> {
    fn from(radio: Radio<M, R>) -> (r: Element<M, R>) {
        Element::Radio(radio)
    }
}

impl<M, R: Renderer> vstd::std_specs::convert::FromSpecImpl<Radio<M, R>> for Element<M, R> {
    open spec fn obeys_from_spec() -> bool {
        true
    }

    open spec fn from_spec(t: Radio<M, R>) -> Self {
        Element::Radio(t)
    }
}

/// Whether a widget fills the main axis of a row.
pub open spec fn is_fill_width<M, R: Renderer>(e: Element<M, R>) -> bool {
    match e {
        Element::Text(t) => t.width is Fill,
        Element::Row(w) => w.width is Fill,
        Element::Radio(_) => true,
    }
}

/// Loose limits handed to a child in the measuring pass.
pub open spec fn loose_limits(w: u32, h: u32) -> Limits {
    Limits { min: Size { width: 0u32, height: 0u32 }, max: Size { width: w, height: h } }
}

/// Limits that pin a fill child to its share of the main axis.
pub open spec fn exact_width_limits(w: u32, h: u32) -> Limits {
    Limits { min: Size { width: w, height: 0u32 }, max: Size { width: w, height: h } }
}

/// The gap a row inserts once per boundary between children.
pub open spec fn total_spacing(spacing: u16, n: int) -> u32 {
    if n <= 1 {
        0u32
    } else if spacing as int * (n - 1) > u32::MAX as int {
        u32::MAX
    } else {
        (spacing as int * (n - 1)) as u32
    }
}

/// How many of the first `n` children fill the main axis.
pub open spec fn fill_count<M, R: Renderer>(cs: Seq<Element<M, R>>, n: int) -> int
    decreases cs, 0int, n,
{
    if n <= 0 || cs.len() < n {
        0
    } else {
        fill_count(cs, n - 1) + if is_fill_width(cs[n - 1]) { 1int } else { 0int }
    }
}

/// The main-axis space left after the first `n` children of the measuring pass:
/// fill children reserve nothing yet, every other child is measured under the
/// space that remains.
pub open spec fn flex_rem<M, R: Renderer>(
    cs: Seq<Element<M, R>>,
    r: R,
    n: int,
    avail: u32,
    cross: u32,
) -> u32
    decreases cs, 0int, n,
{
    if n <= 0 || cs.len() < n {
        avail
    } else {
        let rem = flex_rem(cs, r, n - 1, avail, cross);
        if is_fill_width(cs[n - 1]) {
            rem
        } else {
            sat_sub(rem, layout_spec(cs[n - 1], r, loose_limits(rem, cross)).bounds.width)
        }
    }
}

/// The layout of child `i` of a row: a fill child gets its share of the space
/// left by the measuring pass (the first fill child also gets the division
/// remainder), any other child gets the loose limits the measuring pass gave
/// it.
pub open spec fn flex_child<M, R: Renderer>(
    cs: Seq<Element<M, R>>,
    r: R,
    i: int,
    avail: u32,
    cross: u32,
    per: u32,
    extra: u32,
) -> NodeSpec
    decreases cs, 1int, 0int,
{
    if i < 0 || cs.len() <= i {
        crate::layout::empty_node_spec()
    } else if is_fill_width(cs[i]) {
        let w = if fill_count(cs, i) == 0 { sat_add(per, extra) } else { per };
        layout_spec(cs[i], r, exact_width_limits(w, cross))
    } else {
        layout_spec(cs[i], r, loose_limits(flex_rem(cs, r, i, avail, cross), cross))
    }
}

/// The combined width of the first `n` laid-out children.
pub open spec fn flex_width_sum<M, R: Renderer>(
    cs: Seq<Element<M, R>>,
    r: R,
    n: int,
    avail: u32,
    cross: u32,
    per: u32,
    extra: u32,
) -> u32
    decreases cs, 2int, n,
{
    if n <= 0 || cs.len() < n {
        0u32
    } else {
        sat_add(
            flex_width_sum(cs, r, n - 1, avail, cross, per, extra),
            flex_child(cs, r, n - 1, avail, cross, per, extra).bounds.width,
        )
    }
}

/// The tallest of the first `n` laid-out children.
pub open spec fn flex_height_max<M, R: Renderer>(
    cs: Seq<Element<M, R>>,
    r: R,
    n: int,
    avail: u32,
    cross: u32,
    per: u32,
    extra: u32,
) -> u32
    decreases cs, 2int, n,
{
    if n <= 0 || cs.len() < n {
        0u32
    } else {
        let rest = flex_height_max(cs, r, n - 1, avail, cross, per, extra);
        let h = flex_child(cs, r, n - 1, avail, cross, per, extra).bounds.height;
        if h > rest {
            h
        } else {
            rest
        }
    }
}

/// The main-axis position of child `i`: the widths of the children before it,
/// plus one gap per boundary.
pub open spec fn flex_x<M, R: Renderer>(
    cs: Seq<Element<M, R>>,
    r: R,
    i: int,
    avail: u32,
    cross: u32,
    per: u32,
    extra: u32,
    spacing: u16,
) -> u32
    decreases cs, 2int, i,
{
    if i <= 0 || cs.len() < i {
        0u32
    } else {
        sat_add(
            flex_x(cs, r, i - 1, avail, cross, per, extra, spacing),
            sat_add(
                flex_child(cs, r, i - 1, avail, cross, per, extra).bounds.width,
                spacing as u32,
            ),
        )
    }
}

/// The cross-axis offset that places a child of height `child_h` inside a row
/// of height `row_h`.
pub open spec fn align_offset(align: Align, row_h: u32, child_h: u32) -> u32 {
    match align {
        Align::Start => 0u32,
        Align::Center => (sat_sub(row_h, child_h) / 2) as u32,
        Align::End => sat_sub(row_h, child_h),
    }
}

/// A laid-out child moved to its place in the row.
pub open spec fn placed(n: NodeSpec, x: u32, align: Align, row_h: u32) -> NodeSpec {
    NodeSpec {
        bounds: Rectangle {
            x,
            y: align_offset(align, row_h, n.bounds.height),
            width: n.bounds.width,
            height: n.bounds.height,
        },
        children: n.children,
    }
}

/// The two-pass row layout: children are measured left to right under the
/// space that remains, the leftover is split evenly among fill children with
/// the remainder going to the first, the row takes its clamped content size,
/// and children are placed with one gap per boundary and the cross-axis
/// alignment.
pub open spec fn row_layout_spec<M, R: Renderer>(
    cs: Seq<Element<M, R>>,
    spacing: u16,
    width: Length,
    height: Length,
    align: Align,
    r: R,
    limits: Limits,
) -> NodeSpec
    decreases cs, 3int, 0int,
{
    let limits1 = limits.apply_width(width).apply_height(height);
    let ts = total_spacing(spacing, cs.len() as int);
    let avail = sat_sub(limits1.max.width, ts);
    let cross = limits1.max.height;
    let n = cs.len() as int;
    let rem_all = flex_rem(cs, r, n, avail, cross);
    let k = fill_count(cs, n);
    let per = if k > 0 { (rem_all as int / k) as u32 } else { 0u32 };
    let extra = if k > 0 { (rem_all as int % k) as u32 } else { 0u32 };
    let content = Size {
        width: sat_add(flex_width_sum(cs, r, n, avail, cross, per, extra), ts),
        height: flex_height_max(cs, r, n, avail, cross, per, extra),
    };
    let own = limits1.resolve_spec(content);
    NodeSpec {
        bounds: Rectangle { x: 0u32, y: 0u32, width: own.width, height: own.height },
        children: Seq::new(
            cs.len(),
            |i: int| placed(
                flex_child(cs, r, i, avail, cross, per, extra),
                flex_x(cs, r, i, avail, cross, per, extra, spacing),
                align,
                own.height,
            ),
        ),
    }
}

/// The layout of a radio button: a row that fills the offered width, holding
/// the square marker at the renderer's default size and the label at the
/// default font size, separated by a fixed gap and centered on the cross axis.
pub open spec fn radio_layout_spec<R: Renderer>(label: Seq<char>, r: R, limits: Limits) -> NodeSpec {
    let size = r.default_size_spec();
    let limits1 = limits.apply_width(Length::Fill);
    let spacing = 15u32;
    let avail = sat_sub(limits1.max.width, spacing);
    let maxh = limits1.max.height;
    let mw = clamp(size, 0u32, avail);
    let mh = clamp(size, 0u32, maxh);
    let rem = sat_sub(avail, mw);
    let t = r.measured(label, r.default_text_size_spec());
    let tw = clamp(t.width, 0u32, rem);
    let th = clamp(t.height, 0u32, maxh);
    let content = Size {
        width: sat_add(sat_add(mw, spacing), tw),
        height: if mh > th { mh } else { th },
    };
    let own = limits1.resolve_spec(content);
    NodeSpec {
        bounds: Rectangle { x: 0u32, y: 0u32, width: own.width, height: own.height },
        children: seq![
            NodeSpec {
                bounds: Rectangle {
                    x: 0u32,
                    y: (sat_sub(own.height, mh) / 2) as u32,
                    width: mw,
                    height: mh,
                },
                children: Seq::empty(),
            },
            NodeSpec {
                bounds: Rectangle {
                    x: sat_add(mw, spacing),
                    y: (sat_sub(own.height, th) / 2) as u32,
                    width: tw,
                    height: th,
                },
                children: Seq::empty(),
            },
        ],
    }
}

/// The layout of a text widget: its measured size clamped into the limits.
pub open spec fn text_layout_spec<R: Renderer>(t: Text, r: R, limits: Limits) -> NodeSpec {
    let limits1 = limits.apply_width(t.width).apply_height(t.height);
    let size = match t.size {
        Some(s) => s,
        None => r.default_text_size_spec(),
    };
    let own = limits1.resolve_spec(r.measured(t.content@, size));
    NodeSpec {
        bounds: Rectangle { x: 0u32, y: 0u32, width: own.width, height: own.height },
        children: Seq::empty(),
    }
}

/// What laying out a widget under some limits yields.
pub open spec fn layout_spec<M, R: Renderer>(e: Element<M, R>, r: R, limits: Limits) -> NodeSpec
    decreases e, 4int, 0int,
{
    match e {
        Element::Text(t) => text_layout_spec(t, r, limits),
        Element::Row(w) => row_layout_spec(
            w.children@,
            w.spacing,
            w.width,
            w.height,
            w.align_items,
            r,
            limits,
        ),
        Element::Radio(rad) => radio_layout_spec(rad.label@, r, limits),
    }
}

impl Text {
    pub fn layout<R: Renderer>(&self, renderer: &R, limits: &Limits) -> (node: Node)
        requires
            limits.wf(),
        ensures
            node@ == text_layout_spec(*self, *renderer, *limits),
            node@.in_limits(*limits),
    {
        let limits1 = limits.width(self.width).height(self.height);
        let size = match self.size {
            Some(s) => s,
            None => renderer.default_text_size(),
        };
        let measured = renderer.measure_text(&self.content, size);
        let own = limits1.resolve(measured);
        let node = Node::leaf(own);
        proof {
            lemma_apply_bounds(*limits, self.width, self.height);
        }
        node
    }
}

/// Applying sizing policies to well-formed limits keeps them well formed,
/// never lowers the minimum, and never raises the maximum.
pub proof fn lemma_apply_bounds(l: Limits, w: Length, h: Length)
    requires
        l.wf(),
    ensures
        l.apply_width(w).apply_height(h).wf(),
        l.apply_width(w).apply_height(h).min.width >= l.min.width,
        l.apply_width(w).apply_height(h).min.height >= l.min.height,
        l.apply_width(w).apply_height(h).max.width <= l.max.width,
        l.apply_width(w).apply_height(h).max.height <= l.max.height,
{
}

impl<M, R: Renderer> Element<M, R> {
    pub fn is_fill(&self) -> (r: bool)
        ensures
            r == is_fill_width(*self),
    {
        match self {
            Element::Text(t) => matches!(t.width, Length::Fill),
            Element::Row(w) => matches!(w.width, Length::Fill),
            Element::Radio(_) => true,
        }
    }

    /// Lays the widget out under the given limits.
    pub fn layout(&self, renderer: &R, limits: &Limits) -> (node: Node)
        requires
            limits.wf(),
        ensures
            node@ == layout_spec(*self, *renderer, *limits),
            node@.in_limits(*limits),
        decreases *self, 5int, 0int,
    {
        match self {
            Element::Text(t) => t.layout(renderer, limits),
            Element::Row(w) => w.layout(renderer, limits),
            Element::Radio(rad) => rad.layout(renderer, limits),
        }
    }
}

impl<M, R: Renderer> Radio<M, R> {
    /// Lays the radio out: the square marker and the label side by side with a
    /// fixed gap, filling the offered width and centered on the cross axis.
    pub fn layout(&self, renderer: &R, limits: &Limits) -> (node: Node)
        requires
            limits.wf(),
        ensures
            node@ == radio_layout_spec(self.label@, *renderer, *limits),
            node@.in_limits(*limits),
    {
        let size = renderer.default_size();
        let limits1 = limits.width(Length::Fill);
        let spacing: u32 = 15;
        let avail = sub_sat(limits1.max.width, spacing);
        let maxh = limits1.max.height;
        let mw = clamp_u32(size, 0, avail);
        let mh = clamp_u32(size, 0, maxh);
        let rem = sub_sat(avail, mw);
        let t = renderer.measure_text(&self.label, renderer.default_text_size());
        let tw = clamp_u32(t.width, 0, rem);
        let th = clamp_u32(t.height, 0, maxh);
        let content = Size {
            width: add_sat(add_sat(mw, spacing), tw),
            height: if mh > th { mh } else { th },
        };
        let own = limits1.resolve(content);
        let marker = Node {
            bounds: Rectangle { x: 0, y: sub_sat(own.height, mh) / 2, width: mw, height: mh },
            children: Vec::new(),
        };
        let label = Node {
            bounds: Rectangle {
                x: add_sat(mw, spacing),
                y: sub_sat(own.height, th) / 2,
                width: tw,
                height: th,
            },
            children: Vec::new(),
        };
        let mut children: Vec<Node> = Vec::new();
        children.push(marker);
        children.push(label);
        let node = Node {
            bounds: Rectangle { x: 0, y: 0, width: own.width, height: own.height },
            children,
        };
        proof {
            let spec = radio_layout_spec(self.label@, *renderer, *limits);
            assert(node@.children.len() == 2);
            assert(node.children@[0] == marker);
            assert(node@.children[0] == crate::layout::node_view(marker));
            assert(crate::layout::node_view(marker).children =~= Seq::<NodeSpec>::empty());
            assert(spec.children.len() == 2);
            assert(spec.children[0].children == Seq::<NodeSpec>::empty());
            assert(crate::layout::node_view(marker).bounds == spec.children[0].bounds);
            assert(node@.children[0] =~~= spec.children[0]);
            assert(node.children@[1] == label);
            assert(node@.children[1] == crate::layout::node_view(label));
            assert(crate::layout::node_view(label).children =~= Seq::<NodeSpec>::empty());
            assert(crate::layout::node_view(label).bounds == spec.children[1].bounds);
            assert(node@.children[1] =~~= spec.children[1]);
            assert(node@.children =~= spec.children);
            assert(node@ =~= spec);
            assert(node@.children[0].within_max(limits.max));
            assert(node@.children[1].within_max(limits.max));
            assert forall|q: int| 0 <= q < node@.children.len()
                implies (#[trigger] node@.children[q]).within_max(limits.max) by {
                if q == 0 {
                    assert(node@.children[0].within_max(limits.max));
                } else {
                    assert(q == 1);
                }
            }
            assert(node@.within_max(limits.max));
        }
        node
    }
}

impl<M, R: Renderer> Row<M, R> {
    /// Lays the row out: the measuring pass walks the children left to right,
    /// the leftover space is shared among fill children, the row takes its
    /// clamped content size, and the children are placed.
    pub fn layout(&self, renderer: &R, limits: &Limits) -> (node: Node)
        requires
            limits.wf(),
        ensures
            node@ == row_layout_spec(
                self.children@,
                self.spacing,
                self.width,
                self.height,
                self.align_items,
                *renderer,
                *limits,
            ),
            node@.in_limits(*limits),
        decreases self.children@, 6int, 0int,
    {
        let ghost cs = self.children@;
        let ghost rr = *renderer;
        proof {
            lemma_apply_bounds(*limits, self.width, self.height);
        }
        let limits1 = limits.width(self.width).height(self.height);
        let n = self.children.len();
        let ts: u32 = if n <= 1 {
            0
        } else {
            proof {
                assert((self.spacing as int) * ((n - 1) as int)
                    <= 0xFFFF * 0xFFFF_FFFF_FFFF_FFFF) by (nonlinear_arith)
                    requires
                        self.spacing <= 0xFFFF,
                        0 <= (n - 1) as int <= 0xFFFF_FFFF_FFFF_FFFF,
                ;
            }
            let q: u128 = (self.spacing as u128) * ((n - 1) as u128);
            if q > (u32::MAX as u128) {
                u32::MAX
            } else {
                q as u32
            }
        };
        proof {
            assert(ts == total_spacing(self.spacing, n as int));
        }
        let avail = sub_sat(limits1.max.width, ts);
        let cross = limits1.max.height;

        // measuring pass: loose limits shrink as children take space
        let mut rem = avail;
        let mut fills: usize = 0;
        let mut i: usize = 0;
        while i < n
            invariant
                limits.wf(),
                limits1 == limits.apply_width(self.width).apply_height(self.height),
                limits1.wf(),
                cs == self.children@,
                rr == *renderer,
                n == cs.len(),
                avail == sat_sub(limits1.max.width, total_spacing(self.spacing, n as int)),
                cross == limits1.max.height,
                i <= n,
                fills == fill_count(cs, i as int),
                fills <= i,
                rem == flex_rem(cs, rr, i as int, avail, cross),
                rem <= avail,
            decreases n - i,
        {
            let c = &self.children[i];
            if c.is_fill() {
                fills = fills + 1;
            } else {
                let lim = Limits {
                    min: Size { width: 0, height: 0 },
                    max: Size { width: rem, height: cross },
                };
                let child = c.layout(renderer, &lim);
                rem = sub_sat(rem, child.bounds.width);
            }
            i += 1;
        }

        // the fill children's shares of what is left
        let per: u32;
        let extra: u32;
        if fills == 0 {
            per = 0;
            extra = 0;
        } else if (fills as u64) > (rem as u64) {
            per = 0;
            extra = rem;
            proof {
                assert(rem as int / (fills as int) == 0) by (nonlinear_arith)
                    requires 0 <= rem < fills;
                assert(rem as int % (fills as int) == rem as int) by (nonlinear_arith)
                    requires 0 <= rem < fills;
            }
        } else {
            per = rem / (fills as u32);
            extra = rem % (fills as u32);
        }
        proof {
            let k = fill_count(cs, n as int);
            if k > 0 {
                vstd::arithmetic::div_mod::lemma_fundamental_div_mod(rem as int, k);
                assert(k * (rem as int / k) == (k - 1) * (rem as int / k) + (rem as int / k))
                    by (nonlinear_arith);
                assert((k - 1) * (rem as int / k) >= 0) by (nonlinear_arith)
                    requires
                        k >= 1,
                        rem as int / k >= 0,
                ;
                assert(per + extra <= rem);
            }
            assert(sat_add(per, extra) <= rem);
        }

        // sizing and placing pass
        let ghost rem_all = rem;
        let mut placed_children: Vec<Node> = Vec::new();
        let mut sum: u32 = 0;
        let mut hmax: u32 = 0;
        let mut rem2 = avail;
        let mut fb: usize = 0;
        let mut j: usize = 0;
        while j < n
            invariant
                limits.wf(),
                limits1 == limits.apply_width(self.width).apply_height(self.height),
                limits1.wf(),
                cs == self.children@,
                rr == *renderer,
                n == cs.len(),
                avail == sat_sub(limits1.max.width, total_spacing(self.spacing, n as int)),
                cross == limits1.max.height,
                j <= n,
                fb == fill_count(cs, j as int),
                fb <= j,
                rem2 == flex_rem(cs, rr, j as int, avail, cross),
                rem2 <= avail,
                sat_add(per, extra) <= avail,
                per <= avail,
                per == (if fill_count(cs, n as int) > 0 {
                    (rem_all as int / fill_count(cs, n as int)) as u32
                } else {
                    0u32
                }),
                extra == (if fill_count(cs, n as int) > 0 {
                    (rem_all as int % fill_count(cs, n as int)) as u32
                } else {
                    0u32
                }),
                rem_all == flex_rem(cs, rr, n as int, avail, cross),
                placed_children@.len() == j,
                sum == flex_width_sum(cs, rr, j as int, avail, cross, per, extra),
                hmax == flex_height_max(cs, rr, j as int, avail, cross, per, extra),
                forall|q: int| 0 <= q < j ==> (#[trigger] placed_children@[q])@
                    == flex_child(cs, rr, q, avail, cross, per, extra),
                forall|q: int| 0 <= q < j
                    ==> ((#[trigger] placed_children@[q])@).within_max(limits.max),
            decreases n - j,
        {
            let c = &self.children[j];
            let child: Node;
            if c.is_fill() {
                let w = if fb == 0 { add_sat(per, extra) } else { per };
                let lim = Limits {
                    min: Size { width: w, height: 0 },
                    max: Size { width: w, height: cross },
                };
                child = c.layout(renderer, &lim);
                fb = fb + 1;
                proof {
                    assert(lim == exact_width_limits(w, cross));
                    assert(child@ == flex_child(cs, rr, j as int, avail, cross, per, extra));
                    lemma_within_max_widens(child@, lim.max, limits.max);
                }
            } else {
                let lim = Limits {
                    min: Size { width: 0, height: 0 },
                    max: Size { width: rem2, height: cross },
                };
                child = c.layout(renderer, &lim);
                proof {
                    assert(lim == loose_limits(rem2, cross));
                    assert(child@ == flex_child(cs, rr, j as int, avail, cross, per, extra));
                }
                rem2 = sub_sat(rem2, child.bounds.width);
                proof {
                    lemma_within_max_widens(child@, lim.max, limits.max);
                }
            }
            sum = add_sat(sum, child.bounds.width);
            hmax = if child.bounds.height > hmax { child.bounds.height } else { hmax };
            placed_children.push(child);
            j += 1;
        }

        let content = Size { width: add_sat(sum, ts), height: hmax };
        let own = limits1.resolve(content);

        // move every child to its slot: the running main-axis position, and
        // the cross-axis offset its alignment asks for
        let mut moved_children: Vec<Node> = Vec::new();
        let mut x: u32 = 0;
        let mut p: usize = 0;
        let ghost unplaced = placed_children@;
        while p < n
            invariant
                cs == self.children@,
                rr == *renderer,
                n == cs.len(),
                p <= n,
                placed_children@ == unplaced.skip(p as int),
                unplaced.len() == n,
                moved_children@.len() == p,
                forall|q: int| 0 <= q < n ==> (#[trigger] unplaced[q])@
                    == flex_child(cs, rr, q, avail, cross, per, extra),
                forall|q: int| 0 <= q < n ==> ((#[trigger] unplaced[q])@).within_max(limits.max),
                x == flex_x(cs, rr, p as int, avail, cross, per, extra, self.spacing),
                forall|q: int| 0 <= q < p ==> (#[trigger] moved_children@[q])@ == placed(
                    flex_child(cs, rr, q, avail, cross, per, extra),
                    flex_x(cs, rr, q, avail, cross, per, extra, self.spacing),
                    self.align_items,
                    own.height,
                ),
                forall|q: int| 0 <= q < p ==> ((#[trigger] moved_children@[q])@).within_max(limits.max),
            decreases n - p,
        {
            let nd = placed_children.remove(0);
            proof {
                assert(nd == unplaced[p as int]);
                assert(placed_children@ =~= unplaced.skip(p as int + 1));
            }
            let Node { bounds, children: sub } = nd;
            let y = match self.align_items {
                Align::Start => 0,
                Align::Center => sub_sat(own.height, bounds.height) / 2,
                Align::End => sub_sat(own.height, bounds.height),
            };
            let moved = Node {
                bounds: Rectangle { x, y, width: bounds.width, height: bounds.height },
                children: sub,
            };
            proof {
                assert(moved@.children =~= nd@.children);
                assert(moved@ =~= placed(
                    nd@,
                    flex_x(cs, rr, p as int, avail, cross, per, extra, self.spacing),
                    self.align_items,
                    own.height,
                ));
                assert(moved@.within_max(limits.max));
            }
            x = add_sat(x, add_sat(bounds.width, self.spacing as u32));
            moved_children.push(moved);
            p += 1;
        }

        let node = Node {
            bounds: Rectangle { x: 0, y: 0, width: own.width, height: own.height },
            children: moved_children,
        };
        proof {
            let spec = row_layout_spec(cs, self.spacing, self.width, self.height,
                self.align_items, rr, *limits);
            assert forall|q: int| 0 <= q < n
                implies node@.children[q] == spec.children[q] by {
                assert(node@.children[q] == node.children@[q]@);
            }
            assert(node@.children =~= spec.children);
            assert(node@ =~= spec);
            assert(node@.within_max(limits.max));
        }
        node
    }
}

/// The absolute box of a node placed relative to `origin`.
pub open spec fn abs_bounds(n: NodeSpec, origin: Point) -> Rectangle {
    Rectangle {
        x: sat_add(origin.x, n.bounds.x),
        y: sat_add(origin.y, n.bounds.y),
        width: n.bounds.width,
        height: n.bounds.height,
    }
}

/// Where a child's subtree starts, in absolute coordinates.
pub open spec fn child_origin(origin: Point, child: NodeSpec) -> Point {
    Point { x: sat_add(origin.x, child.bounds.x), y: sat_add(origin.y, child.bounds.y) }
}

/// Whether a layout tree structurally matches the widget that produced it, as
/// far as event dispatch walks it.
pub open spec fn fits<M, R: Renderer>(e: Element<M, R>, n: NodeSpec) -> bool
    decreases e, 0int, 0int,
{
    match e {
        Element::Text(_) => true,
        Element::Radio(_) => true,
        Element::Row(w) => n.children.len() == w.children@.len() && forall|i: int|
            0 <= i < w.children@.len() ==> fits(#[trigger] w.children@[i], n.children[i]),
    }
}

/// The messages one widget emits for one event: a radio emits its message on a
/// left press inside its box; a row forwards the event to every child in
/// order, without short-circuiting, so several descendants may answer one
/// event.
pub open spec fn emitted<M, R: Renderer>(
    e: Element<M, R>,
    n: NodeSpec,
    origin: Point,
    event: Event,
    cursor: Point,
) -> Seq<M>
    decreases e, 1int, 0int,
{
    match e {
        Element::Text(_) => Seq::empty(),
        Element::Radio(rad) => if is_left_press(event) && abs_bounds(n, origin).contains_spec(
            cursor,
        ) {
            seq![rad.message]
        } else {
            Seq::empty()
        },
        Element::Row(w) => emitted_children(
            w.children@,
            n.children,
            child_origin(origin, n),
            event,
            cursor,
            w.children@.len() as int,
        ),
    }
}

/// The messages of the first `k` children of a row, in child order.
pub open spec fn emitted_children<M, R: Renderer>(
    cs: Seq<Element<M, R>>,
    ns: Seq<NodeSpec>,
    origin: Point,
    event: Event,
    cursor: Point,
    k: int,
) -> Seq<M>
    decreases cs, 0int, k,
{
    if k <= 0 || cs.len() < k || ns.len() < k {
        Seq::empty()
    } else {
        emitted_children(cs, ns, origin, event, cursor, k - 1) + emitted(
            cs[k - 1],
            ns[k - 1],
            origin,
            event,
            cursor,
        )
    }
}

fn event_is_left_press(e: &Event) -> (r: bool)
    ensures
        r == is_left_press(*e),
{
    match e {
        Event::Mouse(mouse::Event::Input {
            state: mouse::ButtonState::Pressed,
            button: mouse::Button::Left,
        }) => true,
        _ => false,
    }
}

impl<M: Copy, R: Renderer> Radio<M, R> {
    /// Answers a left press inside the radio's box with exactly one copy of
    /// its message, appended to the sink; every other event leaves the sink
    /// alone.
    pub fn on_event(
        &self,
        event: &Event,
        layout: &Node,
        origin: Point,
        cursor: Point,
        messages: &mut Vec<M>,
    )
        ensures
            final(messages)@ == old(messages)@ + emitted(
                Element::<M, R>::Radio(*self),
                layout@,
                origin,
                *event,
                cursor,
            ),
    {
        let bounds = Rectangle {
            x: add_sat(origin.x, layout.bounds.x),
            y: add_sat(origin.y, layout.bounds.y),
            width: layout.bounds.width,
            height: layout.bounds.height,
        };
        if event_is_left_press(event) && bounds.contains(cursor) {
            messages.push(self.message);
        } else {
            proof {
                assert(old(messages)@ + Seq::<M>::empty() =~= old(messages)@);
            }
        }
    }
}

impl<M: Copy, R: Renderer> Element<M, R> {
    /// Hands the event to the widget tree: containers forward it depth first
    /// to every child, and whatever each widget synthesizes is appended to the
    /// sink in traversal order.
    pub fn on_event(
        &self,
        event: &Event,
        layout: &Node,
        origin: Point,
        cursor: Point,
        messages: &mut Vec<M>,
    )
        requires
            fits(*self, layout@),
        ensures
            final(messages)@ == old(messages)@ + emitted(*self, layout@, origin, *event, cursor),
        decreases *self, 7int, 0int,
    {
        match self {
            Element::Text(_) => {
                proof {
                    assert(messages@ + Seq::<M>::empty() =~= messages@);
                }
            },
            Element::Radio(rad) => {
                rad.on_event(event, layout, origin, cursor, messages);
            },
            Element::Row(w) => {
                let ghost cs = w.children@;
                let ghost ns = layout@.children;
                let n = w.children.len();
                proof {
                    assert(layout@.children.len() == n);
                }
                let rowpos = Point {
                    x: add_sat(origin.x, layout.bounds.x),
                    y: add_sat(origin.y, layout.bounds.y),
                };
                let mut i: usize = 0;
                while i < n
                    invariant
                        fits(*self, layout@),
                        *self == Element::<M, R>::Row(*w),
                        w.children@ == cs,
                        cs.len() == n,
                        ns == layout@.children,
                        ns.len() == n,
                        layout.children@.len() == n,
                        i <= n,
                        rowpos == child_origin(origin, layout@),
                        messages@ == old(messages)@ + emitted_children(
                            cs,
                            ns,
                            child_origin(origin, layout@),
                            *event,
                            cursor,
                            i as int,
                        ),
                    decreases n - i,
                {
                    let child_node = &layout.children[i];
                    proof {
                        assert(child_node@ == ns[i as int]);
                        assert(fits(cs[i as int], ns[i as int]));
                    }
                    w.children[i].on_event(event, child_node, rowpos, cursor, messages);
                    proof {
                        assert(messages@ =~= old(messages)@ + emitted_children(
                            cs,
                            ns,
                            child_origin(origin, layout@),
                            *event,
                            cursor,
                            i as int + 1,
                        ));
                    }
                    i += 1;
                }
            },
        }
    }
}

/// Layout-identity hashing: the strings a widget feeds the hasher decide
/// whether a cached layout can be reused across frames.
pub struct Hasher {
    pub parts: Vec<String>,
}

impl Hasher {
    pub fn new() -> (r: Self)
        ensures
            r.parts@ == Seq::<String>::empty(),
    {
        Hasher { parts: Vec::new() }
    }
}

impl<M, R: Renderer> Radio<M, R> {
    /// Feeds the radio's layout identity, its label, to the hasher.
    pub fn hash_layout(&self, state: &mut Hasher)
        ensures
            final(state).parts@.len() == old(state).parts@.len() + 1,
            final(state).parts@[old(state).parts@.len() as int]@ == self.label@,
            forall|i: int| 0 <= i < old(state).parts@.len()
                ==> final(state).parts@[i] == old(state).parts@[i],
    {
        let copy = self.label.clone();
        state.parts.push(copy);
    }

    /// Draws the radio: the label through the backend's text draw at the label
    /// child's box and the default font size, then the marker through the
    /// backend's radio draw with the selection and hover state. Drawing reads
    /// the cursor only for the hover flag and never synthesizes a message.
    pub fn draw(
        &self,
        renderer: &mut R,
        defaults: &R::Defaults,
        layout: &Node,
        origin: Point,
        cursor: Point,
    ) -> (out: R::Output)
        requires
            layout@.children.len() == 2,
        ensures
            ({
                let frame = child_origin(origin, layout@);
                let (mid, label_out) = old(renderer).draw_text_spec(
                    *defaults,
                    abs_bounds(layout@.children[1], frame),
                    self.label@,
                    old(renderer).default_text_size_spec(),
                    HorizontalAlignment::Left,
                    VerticalAlignment::Center,
                );
                let (post, output) = mid.draw_radio_spec(
                    abs_bounds(layout@.children[0], frame),
                    self.is_selected,
                    abs_bounds(layout@, origin).contains_spec(cursor),
                    label_out,
                    self.style,
                );
                *final(renderer) == post && out == output
            }),
    {
        proof {
            assert(layout.children@.len() == 2);
        }
        let bounds = Rectangle {
            x: add_sat(origin.x, layout.bounds.x),
            y: add_sat(origin.y, layout.bounds.y),
            width: layout.bounds.width,
            height: layout.bounds.height,
        };
        let marker = &layout.children[0];
        let label_node = &layout.children[1];
        proof {
            assert(marker@ == layout@.children[0]);
            assert(label_node@ == layout@.children[1]);
            assert(marker@.bounds == marker.bounds);
            assert(label_node@.bounds == label_node.bounds);
        }
        let radio_bounds = Rectangle {
            x: add_sat(bounds.x, marker.bounds.x),
            y: add_sat(bounds.y, marker.bounds.y),
            width: marker.bounds.width,
            height: marker.bounds.height,
        };
        let label_bounds = Rectangle {
            x: add_sat(bounds.x, label_node.bounds.x),
            y: add_sat(bounds.y, label_node.bounds.y),
            width: label_node.bounds.width,
            height: label_node.bounds.height,
        };
        let size = renderer.default_text_size();
        let label = renderer.draw_text(
            defaults,
            label_bounds,
            &self.label,
            size,
            HorizontalAlignment::Left,
            VerticalAlignment::Center,
        );
        let is_mouse_over = bounds.contains(cursor);
        proof {
            let frame = child_origin(origin, layout@);
            assert(bounds == abs_bounds(layout@, origin));
            assert(radio_bounds == abs_bounds(layout@.children[0], frame));
            assert(label_bounds == abs_bounds(layout@.children[1], frame));
        }
        renderer.draw_radio(radio_bounds, self.is_selected, is_mouse_over, label, &self.style)
    }
}

/// Among radio buttons built over pairwise distinct values with one shared
/// selected value, exactly the button whose value is the selected one reports
/// itself selected, provided the value type's equality agrees with
/// mathematical equality.
pub proof fn lemma_selection_unique<V: PartialEq>(values: Seq<V>, selected: V, j: int)
    requires
        forall|a: V, b: V| #[trigger] a.eq_spec(&b) <==> a == b,
        0 <= j < values.len(),
        values[j] == selected,
        forall|a: int, b: int| 0 <= a < b < values.len() ==> values[a] != values[b],
    ensures
        forall|i: int| 0 <= i < values.len()
            ==> (selected_state(values[i], Some(selected)) <==> i == j),
{
    assert forall|i: int| 0 <= i < values.len()
        implies (selected_state(values[i], Some(selected)) <==> i == j) by {
        assert(selected_state(values[i], Some(selected)) == values[i].eq_spec(&selected));
        if i < j {
            assert(values[i] != values[j]);
        }
        if j < i {
            assert(values[j] != values[i]);
        }
    }
}

/// Among radio buttons built over pairwise distinct values and one shared
/// selected value, at most one reports itself selected, whether or not the
/// selected value is among them.
pub proof fn lemma_selection_at_most_one<V: PartialEq>(values: Seq<V>, selected: V, i: int, j: int)
    requires
        forall|a: V, b: V| #[trigger] a.eq_spec(&b) <==> a == b,
        0 <= i < values.len(),
        0 <= j < values.len(),
        i != j,
        forall|a: int, b: int| 0 <= a < b < values.len() ==> values[a] != values[b],
        selected_state(values[i], Some(selected)),
    ensures
        !selected_state(values[j], Some(selected)),
{
    assert(values[i].eq_spec(&selected));
    if i < j {
        assert(values[i] != values[j]);
    } else {
        assert(values[j] != values[i]);
    }
}

} // verus!
