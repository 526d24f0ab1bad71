use gpuix::custom_elements::anchored::{AnchorCorner, AnchoredFactory};
use gpuix::custom_elements::img::{ImgFactory, ImgObjectFit};
use gpuix::custom_elements::input::InputFactory;
use gpuix::custom_elements::registry::{
    sync_props, CustomElementRegistry, CustomFactory, CustomInstance,
};
use gpuix::custom_elements::{CustomElement, CustomElementFactory, CustomRenderContext};
use gpuix::events::{EventKind, ListenerSet};
use gpuix::plan::{ElementKey, ElementPlan, Length, StyleOp, Wire};
use gpuix::retained_tree::RetainedTree;
use gpuix::string_map::StringMap;
use gpuix::style::StyleDesc;
use serde_json::Value;

fn parse(text: &str) -> Value {
    serde_json::from_str(text).expect("valid JSON")
}

fn text(s: &str) -> Value {
    Value::String(s.to_string())
}

fn context(id: u64, events: ListenerSet) -> CustomRenderContext<'static> {
    CustomRenderContext { id, events, focus_handle: false, style: None, children: Vec::new() }
}

fn listeners(kinds: &[EventKind]) -> ListenerSet {
    let mut set = ListenerSet::new();
    for kind in kinds {
        set.set(*kind, true);
    }
    set
}

fn prop(e: &impl CustomElement, key: &str) -> Option<Value> {
    e.get_prop(key)
}

#[test]
fn corner_names() {
    assert_eq!(AnchorCorner::from_str("topLeft"), AnchorCorner::TopLeft);
    assert_eq!(AnchorCorner::from_str("topRight"), AnchorCorner::TopRight);
    assert_eq!(AnchorCorner::from_str("bottomLeft"), AnchorCorner::BottomLeft);
    assert_eq!(AnchorCorner::from_str("bottomRight"), AnchorCorner::BottomRight);
    assert_eq!(AnchorCorner::from_str("middle"), AnchorCorner::TopLeft);
    assert_eq!(AnchorCorner::from_str(""), AnchorCorner::TopLeft);
    for corner in [
        AnchorCorner::TopLeft,
        AnchorCorner::TopRight,
        AnchorCorner::BottomLeft,
        AnchorCorner::BottomRight,
    ] {
        assert_eq!(AnchorCorner::from_str(corner.as_str()), corner);
    }
    assert_eq!(AnchorCorner::BottomRight.as_str(), "bottomRight");
}

#[test]
fn fit_names() {
    assert_eq!(ImgObjectFit::from_str("fill"), ImgObjectFit::Fill);
    assert_eq!(ImgObjectFit::from_str("contain"), ImgObjectFit::Contain);
    assert_eq!(ImgObjectFit::from_str("cover"), ImgObjectFit::Cover);
    assert_eq!(ImgObjectFit::from_str("scaleDown"), ImgObjectFit::ScaleDown);
    assert_eq!(ImgObjectFit::from_str("none"), ImgObjectFit::Natural);
    assert_eq!(ImgObjectFit::from_str("stretch"), ImgObjectFit::Contain);
    assert_eq!(ImgObjectFit::default(), ImgObjectFit::Contain);
    assert_eq!(ImgObjectFit::Natural.as_str(), "none");
    assert_eq!(ImgObjectFit::ScaleDown.as_str(), "scaleDown");
}

#[test]
fn factories_name_their_types() {
    assert_eq!(InputFactory.element_type(), "input");
    assert_eq!(AnchoredFactory.element_type(), "anchored");
    assert_eq!(ImgFactory.element_type(), "img");
    assert_eq!(CustomFactory::Input(InputFactory).element_type(), "input");
    assert_eq!(CustomFactory::Anchored(AnchoredFactory).element_type(), "anchored");
    assert_eq!(CustomFactory::Img(ImgFactory).element_type(), "img");
}

#[test]
fn input_starts_empty() {
    let e = InputFactory.create(1);
    assert_eq!(prop(&e, "value"), Some(text("")));
    assert_eq!(prop(&e, "placeholder"), Some(text("")));
    assert_eq!(prop(&e, "readOnly"), Some(Value::Bool(false)));
    assert_eq!(prop(&e, "other"), None);
    assert_eq!(e.supported_props(), vec!["value", "placeholder", "readOnly"]);
}

#[test]
fn input_props_are_set_and_reset() {
    let mut e = InputFactory.create(1);
    e.set_prop("value", text("hello"));
    e.set_prop("placeholder", text("type here"));
    e.set_prop("readOnly", Value::Bool(true));
    e.set_prop("shiny", Value::Bool(true));
    assert_eq!(prop(&e, "value"), Some(text("hello")));
    assert_eq!(prop(&e, "placeholder"), Some(text("type here")));
    assert_eq!(prop(&e, "readOnly"), Some(Value::Bool(true)));
    e.set_prop("value", Value::Null);
    e.set_prop("readOnly", text("yes"));
    assert_eq!(prop(&e, "value"), Some(text("")));
    assert_eq!(prop(&e, "readOnly"), Some(Value::Bool(false)));
    assert_eq!(prop(&e, "placeholder"), Some(text("type here")));
}

#[test]
fn input_supports_five_kinds() {
    let e = InputFactory.create(1);
    let events = e.supported_events();
    assert_eq!(
        events,
        listeners(&[
            EventKind::KeyDown,
            EventKind::KeyUp,
            EventKind::Click,
            EventKind::Focus,
            EventKind::Blur,
        ])
    );
}

fn input_box(plan: ElementPlan) -> gpuix::plan::BoxPlan {
    match plan {
        ElementPlan::Box(b) => b,
        _ => panic!("an input renders a box"),
    }
}

#[test]
fn input_shows_the_placeholder_while_empty() {
    let mut e = InputFactory.create(1);
    e.set_prop("placeholder", text("name"));
    let b = input_box(e.render(context(7, ListenerSet::new())));
    assert_eq!(b.key, ElementKey::Input(7));
    assert_eq!(b.text.as_deref(), Some("name"));
    assert_eq!(
        b.style,
        vec![
            StyleOp::Flex,
            StyleOp::ItemsCenter,
            StyleOp::OverflowHidden,
            StyleOp::PaddingX(8_000_000),
            StyleOp::PaddingY(4_000_000),
            StyleOp::MinHeight(Length::Pixels(28_000_000)),
            StyleOp::Border(1_000_000),
            StyleOp::BorderColor(0x555555ff),
            StyleOp::Background(0x1e1e2eff),
            StyleOp::Rounded(4_000_000),
            StyleOp::TextColor(0x888888ff),
        ]
    );
    assert!(b.children.is_empty());
    assert!(b.wires.is_empty());
    assert!(!b.track_focus);
}

#[test]
fn input_shows_the_value_when_it_has_one() {
    let mut e = InputFactory.create(1);
    e.set_prop("placeholder", text("name"));
    e.set_prop("value", text("Ada"));
    let b = input_box(e.render(context(7, ListenerSet::new())));
    assert_eq!(b.text.as_deref(), Some("Ada"));
    assert_eq!(b.style.last(), Some(&StyleOp::TextColor(0xe0e0e0ff)));
}

#[test]
fn input_puts_the_node_style_on_top() {
    let e = InputFactory.create(1);
    let mut style = StyleDesc::default();
    style.gap = Some(1);
    let ctx = CustomRenderContext {
        id: 2,
        events: ListenerSet::new(),
        focus_handle: true,
        style: Some(&style),
        children: Vec::new(),
    };
    let b = input_box(e.render(ctx));
    assert_eq!(b.style.len(), 12);
    assert_eq!(b.style[11], StyleOp::Gap(1));
    assert!(b.track_focus);
}

#[test]
fn input_wires_keys_unless_read_only() {
    let mut e = InputFactory.create(1);
    let events = listeners(&[
        EventKind::KeyDown,
        EventKind::KeyUp,
        EventKind::Click,
        EventKind::Focus,
    ]);
    let b = input_box(e.render(context(1, events)));
    assert_eq!(b.wires, vec![Wire::ClickPosition, Wire::KeyDown, Wire::KeyUp]);
    e.set_prop("readOnly", Value::Bool(true));
    let b = input_box(e.render(context(1, events)));
    assert_eq!(b.wires, vec![Wire::ClickPosition]);
}

#[test]
fn anchored_starts_with_its_defaults() {
    let e = AnchoredFactory.create(1);
    assert_eq!(prop(&e, "x"), Some(parse("0")));
    assert_eq!(prop(&e, "y"), Some(parse("0")));
    assert_eq!(prop(&e, "position"), Some(parse(r#"{"x": 0, "y": 0}"#)));
    assert_eq!(prop(&e, "anchor"), Some(text("topLeft")));
    assert_eq!(prop(&e, "snapToWindow"), Some(Value::Bool(true)));
    assert_eq!(prop(&e, "snapMargin"), Some(parse("8")));
    assert_eq!(prop(&e, "deferred"), Some(Value::Bool(true)));
    assert_eq!(prop(&e, "priority"), Some(parse("1")));
    assert_eq!(prop(&e, "z"), None);
    assert_eq!(
        e.supported_props(),
        vec![
            "x",
            "y",
            "position",
            "anchor",
            "snapToWindow",
            "snapMargin",
            "deferred",
            "priority",
        ]
    );
    assert!(e.supported_events().is_empty());
}

fn anchored_plan(plan: ElementPlan) -> gpuix::plan::AnchoredPlan {
    match plan {
        ElementPlan::Anchored(a) => a,
        _ => panic!("anchored renders an anchored plan"),
    }
}

#[test]
fn anchored_renders_its_defaults() {
    let e = AnchoredFactory.create(1);
    let a = anchored_plan(e.render(context(1, ListenerSet::new())));
    assert_eq!((a.x, a.y), (0, 0));
    assert_eq!(a.corner, AnchorCorner::TopLeft);
    assert_eq!(a.snap_margin, Some(8_000_000));
    assert_eq!(a.deferred, Some(1));
    assert_eq!(a.content.key, ElementKey::Anonymous);
    assert_eq!(a.content.style, vec![StyleOp::FlexCol]);
    assert!(a.content.children.is_empty());
}

#[test]
fn anchored_props_are_set() {
    let mut e = AnchoredFactory.create(1);
    e.set_prop("x", parse("12.5"));
    e.set_prop("y", parse("-3"));
    e.set_prop("anchor", text("bottomRight"));
    e.set_prop("snapMargin", parse("2"));
    e.set_prop("priority", parse("5"));
    let a = anchored_plan(e.render(context(1, ListenerSet::new())));
    assert_eq!((a.x, a.y), (12_500_000, -3_000_000));
    assert_eq!(a.corner, AnchorCorner::BottomRight);
    assert_eq!(a.snap_margin, Some(2_000_000));
    assert_eq!(a.deferred, Some(5));
    assert_eq!(prop(&e, "x"), Some(parse("12.5")));
    assert_eq!(prop(&e, "y"), Some(parse("-3")));
    assert_eq!(prop(&e, "position"), Some(parse(r#"{"x": 12.5, "y": -3}"#)));
    assert_eq!(prop(&e, "anchor"), Some(text("bottomRight")));
    assert_eq!(prop(&e, "priority"), Some(parse("5")));
}

#[test]
fn anchored_switches() {
    let mut e = AnchoredFactory.create(1);
    e.set_prop("snapToWindow", Value::Bool(false));
    e.set_prop("deferred", Value::Bool(false));
    let a = anchored_plan(e.render(context(1, ListenerSet::new())));
    assert_eq!(a.snap_margin, None);
    assert_eq!(a.deferred, None);
    e.set_prop("snapToWindow", Value::Null);
    e.set_prop("deferred", text("no"));
    let a = anchored_plan(e.render(context(1, ListenerSet::new())));
    assert_eq!(a.snap_margin, Some(8_000_000));
    assert_eq!(a.deferred, Some(1));
}

#[test]
fn anchored_position_moves_the_coordinates_it_names() {
    let mut e = AnchoredFactory.create(1);
    e.set_prop("x", parse("1"));
    e.set_prop("y", parse("2"));
    e.set_prop("position", parse(r#"{"x": 10}"#));
    let a = anchored_plan(e.render(context(1, ListenerSet::new())));
    assert_eq!((a.x, a.y), (10_000_000, 2_000_000));
    e.set_prop("position", parse(r#"{"x": "left", "y": 20.25}"#));
    let a = anchored_plan(e.render(context(1, ListenerSet::new())));
    assert_eq!((a.x, a.y), (10_000_000, 20_250_000));
    e.set_prop("position", Value::Null);
    e.set_prop("position", parse("[1, 2]"));
    let a = anchored_plan(e.render(context(1, ListenerSet::new())));
    assert_eq!((a.x, a.y), (10_000_000, 20_250_000));
}

#[test]
fn anchored_resets_on_values_it_cannot_read() {
    let mut e = AnchoredFactory.create(1);
    e.set_prop("x", parse("4"));
    e.set_prop("snapMargin", parse("3"));
    e.set_prop("priority", parse("9"));
    e.set_prop("anchor", text("topRight"));
    e.set_prop("x", Value::Null);
    e.set_prop("snapMargin", text("wide"));
    e.set_prop("priority", parse("-1"));
    e.set_prop("anchor", parse("3"));
    let a = anchored_plan(e.render(context(1, ListenerSet::new())));
    assert_eq!(a.x, 0);
    assert_eq!(a.snap_margin, Some(8_000_000));
    assert_eq!(a.deferred, Some(1));
    assert_eq!(a.corner, AnchorCorner::TopLeft);
    assert_eq!(prop(&e, "x"), Some(parse("0")));
    assert_eq!(prop(&e, "snapMargin"), Some(parse("8")));
    e.set_prop("priority", parse("2.5"));
    assert_eq!(prop(&e, "priority"), Some(parse("1")));
}

#[test]
fn anchored_hands_its_children_on() {
    let e = AnchoredFactory.create(1);
    let ctx = CustomRenderContext {
        id: 1,
        events: ListenerSet::new(),
        focus_handle: true,
        style: None,
        children: vec![ElementPlan::Text("a".to_string()), ElementPlan::Empty],
    };
    let a = anchored_plan(e.render(ctx));
    assert_eq!(a.content.children.len(), 2);
    assert!(matches!(&a.content.children[0], ElementPlan::Text(t) if t == "a"));
    assert!(matches!(&a.content.children[1], ElementPlan::Empty));
    assert!(!a.content.track_focus);
}

#[test]
fn img_without_a_source_says_so() {
    let mut e = ImgFactory.create(1);
    for src in [Value::Null, text(""), text("  \t")] {
        e.set_prop("src", src);
        match e.render(context(1, ListenerSet::new())) {
            ElementPlan::Box(b) => {
                assert_eq!(b.text.as_deref(), Some("img: no src"));
                assert_eq!(b.key, ElementKey::Anonymous);
                assert_eq!(
                    b.style,
                    vec![
                        StyleOp::Flex,
                        StyleOp::ItemsCenter,
                        StyleOp::JustifyCenter,
                        StyleOp::Background(0x1f2230ff),
                        StyleOp::Border(1_000_000),
                        StyleOp::BorderColor(0x5d6481ff),
                        StyleOp::TextColor(0xa4accdff),
                    ]
                );
            }
            _ => panic!("a box stands in for the image"),
        }
    }
}

#[test]
fn img_with_a_source_is_an_image() {
    let mut e = ImgFactory.create(1);
    e.set_prop("src", text("/tmp/a.png"));
    e.set_prop("objectFit", text("cover"));
    let mut style = StyleDesc::default();
    style.opacity = Some(500_000);
    let ctx = CustomRenderContext {
        id: 1,
        events: ListenerSet::new(),
        focus_handle: false,
        style: Some(&style),
        children: Vec::new(),
    };
    match e.render(ctx) {
        ElementPlan::Image(i) => {
            assert_eq!(i.src, "/tmp/a.png");
            assert_eq!(i.fit, ImgObjectFit::Cover);
            assert_eq!(i.style, vec![StyleOp::Opacity(500_000)]);
        }
        _ => panic!("an image"),
    }
    assert_eq!(prop(&e, "src"), Some(text("/tmp/a.png")));
    assert_eq!(prop(&e, "objectFit"), Some(text("cover")));
    e.set_prop("objectFit", Value::Null);
    assert_eq!(prop(&e, "objectFit"), Some(text("contain")));
    assert_eq!(e.supported_props(), vec!["src", "objectFit"]);
    assert!(e.supported_events().is_empty());
}

#[test]
fn an_instance_knows_its_type() {
    assert_eq!(CustomFactory::Input(InputFactory).create(1).element_type(), "input");
    assert_eq!(CustomFactory::Anchored(AnchoredFactory).create(1).element_type(), "anchored");
    assert_eq!(CustomFactory::Img(ImgFactory).create(1).element_type(), "img");
}

#[test]
fn sync_props_sets_known_props_and_resets_the_missing() {
    let mut instance = CustomFactory::Input(InputFactory).create(1);
    instance.set_prop("value", text("stale"));
    instance.set_prop("placeholder", text("stale too"));
    let mut props = StringMap::new();
    props.insert("placeholder".to_string(), text("fresh"));
    props.insert("unknown".to_string(), Value::Bool(true));
    sync_props(&mut instance, &props);
    assert_eq!(instance.get_prop("value"), Some(text("")));
    assert_eq!(instance.get_prop("placeholder"), Some(text("fresh")));
    assert_eq!(instance.get_prop("readOnly"), Some(Value::Bool(false)));
    assert_eq!(instance.get_prop("unknown"), None);
}

#[test]
fn a_new_registry_knows_no_type() {
    let registry = CustomElementRegistry::new();
    assert!(!registry.is_custom_type("input"));
    assert!(registry.instance(1).is_none());
}

#[test]
fn the_default_registry_knows_input_and_anchored() {
    let registry = CustomElementRegistry::with_defaults();
    assert!(registry.is_custom_type("input"));
    assert!(registry.is_custom_type("anchored"));
    assert!(!registry.is_custom_type("img"));
    assert!(!registry.is_custom_type("div"));
    assert!(!registry.is_custom_type("text"));
}

#[test]
fn register_adds_a_type() {
    let mut registry = CustomElementRegistry::new();
    registry.register(CustomFactory::Img(ImgFactory));
    assert!(registry.is_custom_type("img"));
    assert!(!registry.is_custom_type("input"));
    assert!(registry.get_or_create(3, "img"));
    assert!(matches!(registry.instance(3), Some(CustomInstance::Img(_))));
}

#[test]
fn get_or_create_makes_an_instance_once() {
    let mut registry = CustomElementRegistry::with_defaults();
    assert!(registry.get_or_create(1, "input"));
    match registry.instance(1) {
        Some(instance) => assert_eq!(instance.element_type(), "input"),
        None => panic!("an instance"),
    }
    assert!(registry.instance(2).is_none());
    assert!(registry.get_or_create(1, "input"));
    assert!(registry.instance(1).is_some());
}

#[test]
fn get_or_create_replaces_an_instance_of_another_type() {
    let mut registry = CustomElementRegistry::with_defaults();
    registry.get_or_create(1, "input");
    assert!(registry.get_or_create(1, "anchored"));
    assert!(matches!(registry.instance(1), Some(CustomInstance::Anchored(_))));
}

#[test]
fn get_or_create_of_an_unknown_type_leaves_no_instance() {
    let mut registry = CustomElementRegistry::with_defaults();
    assert!(!registry.get_or_create(1, "editor"));
    assert!(registry.instance(1).is_none());
    registry.get_or_create(1, "input");
    assert!(!registry.get_or_create(1, "editor"));
    assert!(registry.instance(1).is_none());
}

#[test]
fn destroy_removes_the_instance() {
    let mut registry = CustomElementRegistry::with_defaults();
    registry.get_or_create(1, "input");
    registry.get_or_create(2, "input");
    registry.destroy(1);
    registry.destroy(9);
    assert!(registry.instance(1).is_none());
    assert!(registry.instance(2).is_some());
}

#[test]
fn prune_missing_keeps_the_live() {
    let mut registry = CustomElementRegistry::with_defaults();
    for id in 1..=6 {
        registry.get_or_create(id, "input");
    }
    registry.prune_missing(|id| id % 2 == 0);
    for id in 1..=6 {
        assert_eq!(registry.instance(id).is_some(), id % 2 == 0);
    }
}

fn tree_of(nodes: &[(u64, &str)]) -> RetainedTree {
    let mut tree = RetainedTree::new();
    for (id, kind) in nodes {
        tree.create_element(*id, kind.to_string());
    }
    tree
}

#[test]
fn sync_makes_instances_for_custom_nodes_only() {
    let tree = tree_of(&[(1, "div"), (2, "input"), (3, "anchored"), (4, "editor"), (5, "text")]);
    let mut registry = CustomElementRegistry::with_defaults();
    registry.sync(&tree);
    assert!(registry.instance(1).is_none());
    assert!(matches!(registry.instance(2), Some(CustomInstance::Input(_))));
    assert!(matches!(registry.instance(3), Some(CustomInstance::Anchored(_))));
    assert!(registry.instance(4).is_none());
    assert!(registry.instance(5).is_none());
}

#[test]
fn sync_pushes_the_props_of_the_node() {
    let mut tree = tree_of(&[(1, "input")]);
    tree.set_custom_prop(1, "value".to_string(), text("hi"));
    let mut registry = CustomElementRegistry::with_defaults();
    registry.sync(&tree);
    assert_eq!(registry.instance(1).unwrap().get_prop("value"), Some(text("hi")));
    tree.set_custom_prop(1, "value".to_string(), Value::Null);
    tree.set_custom_prop(1, "placeholder".to_string(), text("p"));
    registry.sync(&tree);
    assert_eq!(registry.instance(1).unwrap().get_prop("value"), Some(text("")));
    assert_eq!(registry.instance(1).unwrap().get_prop("placeholder"), Some(text("p")));
}

#[test]
fn sync_destroys_the_instances_of_nodes_that_are_gone() {
    let mut tree = tree_of(&[(1, "input"), (2, "input")]);
    let mut registry = CustomElementRegistry::with_defaults();
    registry.sync(&tree);
    tree.destroy_element(1);
    registry.sync(&tree);
    assert!(registry.instance(1).is_none());
    assert!(registry.instance(2).is_some());
}

#[test]
fn sync_replaces_the_instance_when_the_type_changes() {
    let mut tree = tree_of(&[(1, "input")]);
    tree.set_custom_prop(1, "value".to_string(), text("hi"));
    let mut registry = CustomElementRegistry::with_defaults();
    registry.sync(&tree);
    tree.destroy_element(1);
    tree.create_element(1, "anchored".to_string());
    registry.sync(&tree);
    assert!(matches!(registry.instance(1), Some(CustomInstance::Anchored(_))));
    tree.destroy_element(1);
    tree.create_element(1, "div".to_string());
    registry.sync(&tree);
    assert!(registry.instance(1).is_none());
}

#[test]
fn sync_keeps_an_instance_across_frames() {
    let mut tree = tree_of(&[(1, "anchored")]);
    tree.set_custom_prop(1, "position".to_string(), parse(r#"{"x": 5, "y": 6}"#));
    let mut registry = CustomElementRegistry::with_defaults();
    registry.sync(&tree);
    registry.sync(&tree);
    let instance = registry.instance(1).unwrap();
    assert_eq!(instance.get_prop("position"), Some(parse(r#"{"x": 5, "y": 6}"#)));
}
