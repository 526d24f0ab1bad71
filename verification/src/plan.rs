//! The element plan: what one frame asks the toolkit to build.
//!
//! A plan is a value.  It names the toolkit calls to make, in order, and
//! holds nothing of the toolkit itself; it is thrown away after the frame.

use vstd::prelude::*;
use crate::custom_elements::anchored::AnchorCorner;
use crate::custom_elements::img::ImgObjectFit;

verus! {

broadcast use vstd::std_specs::vec::axiom_vec_index_decreases;

/// A size handed to the toolkit.
#[derive(Clone, Copy, Debug, PartialEq, Eq, Structural)]
pub enum Length {
    /// Pixels, in millionths.
    Pixels(i64),
    /// A fraction of the parent, in millionths.
    Fraction(i64),
    /// The whole of the parent.
    Full,
}

/// One styling call on a toolkit element.  Lengths are in millionths of a
/// pixel, colors are packed `0xRRGGBBAA`.
#[derive(Clone, Copy, Debug, PartialEq, Eq, Structural)]
pub enum StyleOp {
    Flex,
    FlexCol,
    FlexRow,
    FlexGrow,
    FlexShrink,
    ItemsCenter,
    ItemsStart,
    ItemsEnd,
    JustifyCenter,
    JustifyStart,
    JustifyEnd,
    JustifyBetween,
    JustifyAround,
    Gap(i64),
    Width(Length),
    Height(Length),
    MinWidth(Length),
    MinHeight(Length),
    MaxWidth(Length),
    MaxHeight(Length),
    Padding(i64),
    PaddingX(i64),
    PaddingY(i64),
    PaddingTop(i64),
    PaddingRight(i64),
    PaddingBottom(i64),
    PaddingLeft(i64),
    Margin(i64),
    MarginTop(i64),
    MarginRight(i64),
    MarginBottom(i64),
    MarginLeft(i64),
    Absolute,
    Relative,
    Top(i64),
    Right(i64),
    Bottom(i64),
    Left(i64),
    Background(u32),
    TextColor(u32),
    TextSize(i64),
    Rounded(i64),
    Border(i64),
    BorderColor(u32),
    /// Opacity, in millionths of the full opacity.
    Opacity(i64),
    CursorPointer,
    CursorDefault,
    OverflowHidden,
}

/// One subscription to a toolkit callback.
#[derive(Clone, Copy, Debug, PartialEq, Eq, Structural)]
pub enum Wire {
    /// A click, reported with position, modifiers, click count and the
    /// right-click flag.
    Click,
    /// A click, reported with position and modifiers only.
    ClickPosition,
    /// A button going down, for the left, middle and right buttons.
    MouseDown,
    /// A button going up, for the left, middle and right buttons.
    MouseUp,
    MouseMove,
    /// The pointer entering or leaving.  One subscription serves both
    /// kinds; `enter` and `leave` say which of them the driver listens for.
    Hover { enter: bool, leave: bool },
    MouseDownOutside,
    Scroll,
    KeyDown,
    KeyUp,
}

/// The stable identity that the toolkit tracks an element by across frames.
#[derive(Clone, Copy, Debug, PartialEq, Eq, Structural)]
pub enum ElementKey {
    /// No identity: the element holds no interactive state.
    Anonymous,
    /// The box of the node with this id.
    Node(u64),
    /// The input field of the node with this id.
    Input(u64),
}

/// A styled box.
pub struct BoxPlan {
    pub key: ElementKey,
    pub style: Vec<StyleOp>,
    /// Whether the node's focus handle is attached to the box.
    pub track_focus: bool,
    pub wires: Vec<Wire>,
    /// Inline text, placed before the children.
    pub text: Option<String>,
    pub children: Vec<ElementPlan>,
}

/// Content placed at window coordinates.
pub struct AnchoredPlan {
    pub x: i64,
    pub y: i64,
    pub corner: AnchorCorner,
    /// The margin kept to the window's edge, where the content snaps to the
    /// window.
    pub snap_margin: Option<i64>,
    /// The priority of the overlay layer, where the content is drawn in
    /// one.
    pub deferred: Option<usize>,
    pub content: BoxPlan,
}

/// An image loaded from a path.
pub struct ImagePlan {
    pub src: String,
    pub fit: ImgObjectFit,
    pub style: Vec<StyleOp>,
}

/// What to build for one node.
pub enum ElementPlan {
    /// Nothing.
    Empty,
    /// A bare string.
    Text(String),
    Box(BoxPlan),
    Anchored(AnchoredPlan),
    Image(ImagePlan),
}

pub struct BoxView {
    pub key: ElementKey,
    pub style: Seq<StyleOp>,
    pub track_focus: bool,
    pub wires: Seq<Wire>,
    pub text: Option<Seq<char>>,
    pub children: Seq<PlanView>,
}

pub struct AnchoredView {
    pub x: i64,
    pub y: i64,
    pub corner: AnchorCorner,
    pub snap_margin: Option<i64>,
    pub deferred: Option<usize>,
    pub content: BoxView,
}

pub struct ImageView {
    pub src: Seq<char>,
    pub fit: ImgObjectFit,
    pub style: Seq<StyleOp>,
}

/// A plan as a value.
pub enum PlanView {
    Empty,
    Text(Seq<char>),
    Box(BoxView),
    Anchored(AnchoredView),
    Image(ImageView),
}

/// An optional string as a value.
pub open spec fn text_view(text: Option<String>) -> Option<Seq<char>> {
    match text {
        Some(s) => Some(s@),
        None => None,
    }
}

/// A list of plans as a value.
pub open spec fn plans_view(plans: Vec<ElementPlan>) -> Seq<PlanView>
    decreases plans, 0nat,
{
    Seq::new(
        plans.len() as nat,
        |i: int|
            if 0 <= i < plans.len() {
                plan_view(plans[i])
            } else {
                PlanView::Empty
            },
    )
}

/// A box as a value.
pub open spec fn box_view(b: BoxPlan) -> BoxView
    decreases b, 1nat,
{
    BoxView {
        key: b.key,
        style: b.style@,
        track_focus: b.track_focus,
        wires: b.wires@,
        text: text_view(b.text),
        children: plans_view(b.children),
    }
}

/// A plan as a value.
pub open spec fn plan_view(plan: ElementPlan) -> PlanView
    decreases plan, 2nat,
{
    match plan {
        ElementPlan::Empty => PlanView::Empty,
        ElementPlan::Text(s) => PlanView::Text(s@),
        ElementPlan::Box(b) => PlanView::Box(box_view(b)),
        ElementPlan::Anchored(a) => PlanView::Anchored(
            AnchoredView {
                x: a.x,
                y: a.y,
                corner: a.corner,
                snap_margin: a.snap_margin,
                deferred: a.deferred,
                content: box_view(a.content),
            },
        ),
        ElementPlan::Image(i) => PlanView::Image(
            ImageView { src: i.src@, fit: i.fit, style: i.style@ },
        ),
    }
}

impl View for ElementPlan {
    type V = PlanView;

    open spec fn view(&self) -> PlanView {
        plan_view(*self)
    }
}

impl View for BoxPlan {
    type V = BoxView;

    open spec fn view(&self) -> BoxView {
        box_view(*self)
    }
}

/// Adding a plan to a list adds its value to the list's value.
pub proof fn lemma_plans_push(plans: Vec<ElementPlan>, longer: Vec<ElementPlan>, plan: ElementPlan)
    requires
        longer@ == plans@.push(plan),
    ensures
        plans_view(longer) == plans_view(plans).push(plan@),
{
    assert(plans_view(longer) =~= plans_view(plans).push(plan@)) by {
        assert forall|i: int| 0 <= i < longer.len() implies plans_view(longer)[i] == plans_view(
            plans,
        ).push(plan@)[i] by {
            if i < plans.len() {
                assert(longer@[i] == plans@[i]);
            } else {
                assert(longer@[i] == plan);
            }
        }
    }
}

} // verus!
