//! The bridge façade: the mutation interface that the driver calls.
//!
//! Every id crosses the boundary as the bits of a double and is validated
//! before anything else happens; an invalid id gives
//! [`BridgeError::InvalidId`] and changes nothing.  Mutations that name an
//! unknown node succeed and change nothing.
//!
//! The façade is a plain value.  All calls must come from one thread; the
//! owner wraps it in a lock where several threads hold it.

use vstd::prelude::*;
use vstd::string::StringExecFns;
use crate::events::EventKind;
use crate::ids::{element_id_of, to_element_id};
use crate::json::{json_content, json_error_text, json_parse, json_text, json_to_string, parse_json};
use crate::retained_tree::RetainedTree;
use crate::style::StyleDesc;
use crate::style_json::{decodes, is_style, style_from_json, StyleError};
use crate::tree_model::TreeView;

verus! {

/// What a call can fail with.
pub enum BridgeError {
    /// `tick` before `init`.
    NotInitialized,
    /// An id that is not a whole number from 0 to `2^53 - 1`.  Holds the
    /// bits of the number.
    InvalidId { bits: u64 },
    /// A JSON text that does not parse.  Holds the reason.
    ParseError { reason: String },
    /// `init` after `init`.
    AlreadyInitialized,
}

impl BridgeError {
    /// The reason in words, without the data of the error.
    pub fn message(&self) -> (s: &'static str)
        ensures
            s@ == match self {
                BridgeError::NotInitialized => "Renderer not initialized. Call init() first."@,
                BridgeError::InvalidId { .. } => "Invalid element id"@,
                BridgeError::ParseError { .. } => "Failed to parse"@,
                BridgeError::AlreadyInitialized => "Renderer is already initialized"@,
            },
    {
        match self {
            BridgeError::NotInitialized => "Renderer not initialized. Call init() first.",
            BridgeError::InvalidId { .. } => "Invalid element id",
            BridgeError::ParseError { .. } => "Failed to parse",
            BridgeError::AlreadyInitialized => "Renderer is already initialized",
        }
    }
}

/// The size of the window, in millionths of a pixel.
#[derive(Clone, Copy, Debug, PartialEq, Eq, Structural)]
pub struct WindowSize {
    pub width: i64,
    pub height: i64,
}

/// What the driver asks of the window.  A field that is `None` was not
/// given.  Lengths are in millionths of a pixel.
pub struct WindowOptions {
    pub title: Option<String>,
    pub width: Option<i64>,
    pub height: Option<i64>,
    pub min_width: Option<i64>,
    pub min_height: Option<i64>,
    pub resizable: Option<bool>,
    pub fullscreen: Option<bool>,
    pub transparent: Option<bool>,
}

/// The width of a window where none is given: 800 pixels.
pub const DEFAULT_WIDTH: i64 = 800_000_000;

/// The height of a window where none is given: 600 pixels.
pub const DEFAULT_HEIGHT: i64 = 600_000_000;

impl Default for WindowOptions {
    /// A resizable, opaque window of 800 by 600 pixels with the title
    /// `GPUIX`, not in full screen, without minimum sizes.
    fn default() -> (o: WindowOptions)
        ensures
            o.title matches Some(t) && t@ == "GPUIX"@,
            o.width == Some(DEFAULT_WIDTH),
            o.height == Some(DEFAULT_HEIGHT),
            o.min_width is None,
            o.min_height is None,
            o.resizable == Some(true),
            o.fullscreen == Some(false),
            o.transparent == Some(false),
    {
        WindowOptions {
            title: Some("GPUIX".to_owned()),
            width: Some(DEFAULT_WIDTH),
            height: Some(DEFAULT_HEIGHT),
            min_width: None,
            min_height: None,
            resizable: Some(true),
            fullscreen: Some(false),
            transparent: Some(false),
        }
    }
}

/// The window to open: the options with every default filled in.
pub struct WindowSettings {
    pub title: String,
    pub width: i64,
    pub height: i64,
    pub min_width: Option<i64>,
    pub min_height: Option<i64>,
    pub resizable: bool,
    pub fullscreen: bool,
    pub transparent: bool,
}

/// Whether `settings` is what the options resolve to.
pub open spec fn resolves_to(options: Option<WindowOptions>, settings: WindowSettings) -> bool {
    match options {
        Some(o) => {
            &&& settings.title@ == match o.title {
                Some(t) => t@,
                None => "GPUIX"@,
            }
            &&& settings.width == o.width.unwrap_or(DEFAULT_WIDTH)
            &&& settings.height == o.height.unwrap_or(DEFAULT_HEIGHT)
            &&& settings.min_width == o.min_width
            &&& settings.min_height == o.min_height
            &&& settings.resizable == o.resizable.unwrap_or(true)
            &&& settings.fullscreen == o.fullscreen.unwrap_or(false)
            &&& settings.transparent == o.transparent.unwrap_or(false)
        },
        None => {
            &&& settings.title@ == "GPUIX"@
            &&& settings.width == DEFAULT_WIDTH
            &&& settings.height == DEFAULT_HEIGHT
            &&& settings.min_width is None
            &&& settings.min_height is None
            &&& settings.resizable
            &&& !settings.fullscreen
            &&& !settings.transparent
        },
    }
}

/// Fills the defaults into the options.
pub fn resolve_window(options: Option<WindowOptions>) -> (settings: WindowSettings)
    ensures
        resolves_to(options, settings),
{
    let o = match options {
        Some(o) => o,
        None => WindowOptions::default(),
    };
    WindowSettings {
        title: match o.title {
            Some(t) => t,
            None => "GPUIX".to_owned(),
        },
        width: match o.width {
            Some(w) => w,
            None => DEFAULT_WIDTH,
        },
        height: match o.height {
            Some(h) => h,
            None => DEFAULT_HEIGHT,
        },
        min_width: o.min_width,
        min_height: o.min_height,
        resizable: match o.resizable {
            Some(b) => b,
            None => true,
        },
        fullscreen: match o.fullscreen {
            Some(b) => b,
            None => false,
        },
        transparent: match o.transparent {
            Some(b) => b,
            None => false,
        },
    }
}

/// The state of the bridge, as a value.
pub struct RendererView {
    pub tree: TreeView,
    pub initialized: bool,
    /// Whether a batch of mutations was committed since the last tick.
    pub needs_redraw: bool,
}

/// The bridge.
pub struct GpuixRenderer {
    tree: RetainedTree,
    initialized: bool,
    needs_redraw: bool,
}

impl View for GpuixRenderer {
    type V = RendererView;

    closed spec fn view(&self) -> RendererView {
        RendererView {
            tree: self.tree@,
            initialized: self.initialized,
            needs_redraw: self.needs_redraw,
        }
    }
}

/// The text that a property reads back as.
pub open spec fn prop_text(t: TreeView, id: u64, key: Seq<char>) -> Option<Seq<char>> {
    match t.get_custom_prop(id, key) {
        Some(v) => Some(json_text(v)),
        None => None,
    }
}

impl GpuixRenderer {
    /// A bridge with an empty tree, not initialised, whose first tick will
    /// force a render.
    pub fn new() -> (r: Self)
        ensures
            r@.tree == TreeView::empty(),
            !r@.initialized,
            r@.needs_redraw,
    {
        GpuixRenderer { tree: RetainedTree::new(), initialized: false, needs_redraw: true }
    }

    /// The tree, for the frame builder.
    pub fn tree(&self) -> (t: &RetainedTree)
        ensures
            t@ == self@.tree,
    {
        &self.tree
    }

    /// Says how to open the window, or that the bridge is initialised
    /// already.  The caller opens the window and then calls
    /// [`Self::finish_init`]; until then the bridge is not initialised.
    pub fn init(&self, options: Option<WindowOptions>) -> (r: Result<WindowSettings, BridgeError>)
        ensures
            match r {
                Ok(settings) => !self@.initialized && resolves_to(options, settings),
                Err(e) => self@.initialized && e is AlreadyInitialized,
            },
    {
        if self.initialized {
            return Err(BridgeError::AlreadyInitialized);
        }
        Ok(resolve_window(options))
    }

    /// Records that the window is open.
    pub fn finish_init(&mut self)
        ensures
            final(self)@ == (RendererView { initialized: true, ..old(self)@ }),
    {
        self.initialized = true;
    }

    pub fn is_initialized(&self) -> (b: bool)
        ensures
            b == self@.initialized,
    {
        self.initialized
    }

    pub fn create_element(&mut self, id: u64, element_type: String) -> (r: Result<(), BridgeError>)
        ensures
            match element_id_of(id) {
                Some(n) => r is Ok && final(self)@ == (RendererView {
                    tree: old(self)@.tree.create(n, element_type@),
                    ..old(self)@
                }),
                None => r == Err::<(), BridgeError>(BridgeError::InvalidId { bits: id })
                    && final(self)@ == old(self)@,
            },
            r is Ok ==> final(self)@.tree.wf(),
    {
        match to_element_id(id) {
            Some(n) => {
                self.tree.create_element(n, element_type);
                Ok(())
            },
            None => Err(BridgeError::InvalidId { bits: id }),
        }
    }

    /// Destroys a node and its descendants.  Returns the ids of all nodes
    /// that were destroyed, each once.
    pub fn destroy_element(&mut self, id: u64) -> (r: Result<Vec<u64>, BridgeError>)
        ensures
            match element_id_of(id) {
                Some(n) => r matches Ok(destroyed) && final(self)@ == (RendererView {
                    tree: old(self)@.tree.destroy(n),
                    ..old(self)@
                }) && destroyed@.no_duplicates() && (forall|x: u64|
                    destroyed@.contains(x) <==> old(self)@.tree.contains(n)
                        && old(self)@.tree.in_subtree(n, x)),
                None => r == Err::<Vec<u64>, BridgeError>(BridgeError::InvalidId { bits: id })
                    && final(self)@ == old(self)@,
            },
            r is Ok ==> final(self)@.tree.wf(),
    {
        match to_element_id(id) {
            Some(n) => Ok(self.tree.destroy_element(n)),
            None => Err(BridgeError::InvalidId { bits: id }),
        }
    }

    pub fn append_child(&mut self, parent_id: u64, child_id: u64) -> (r: Result<(), BridgeError>)
        ensures
            match (element_id_of(parent_id), element_id_of(child_id)) {
                (Some(p), Some(c)) => r is Ok && final(self)@ == (RendererView {
                    tree: old(self)@.tree.append(p, c),
                    ..old(self)@
                }),
                (None, _) => r == Err::<(), BridgeError>(BridgeError::InvalidId { bits: parent_id })
                    && final(self)@ == old(self)@,
                (Some(_), None) => r == Err::<(), BridgeError>(
                    BridgeError::InvalidId { bits: child_id },
                ) && final(self)@ == old(self)@,
            },
            r is Ok ==> final(self)@.tree.wf(),
    {
        let p = match to_element_id(parent_id) {
            Some(n) => n,
            None => {
                return Err(BridgeError::InvalidId { bits: parent_id });
            },
        };
        let c = match to_element_id(child_id) {
            Some(n) => n,
            None => {
                return Err(BridgeError::InvalidId { bits: child_id });
            },
        };
        self.tree.append_child(p, c);
        Ok(())
    }

    pub fn remove_child(&mut self, parent_id: u64, child_id: u64) -> (r: Result<(), BridgeError>)
        ensures
            match (element_id_of(parent_id), element_id_of(child_id)) {
                (Some(p), Some(c)) => r is Ok && final(self)@ == (RendererView {
                    tree: old(self)@.tree.remove(p, c),
                    ..old(self)@
                }),
                (None, _) => r == Err::<(), BridgeError>(BridgeError::InvalidId { bits: parent_id })
                    && final(self)@ == old(self)@,
                (Some(_), None) => r == Err::<(), BridgeError>(
                    BridgeError::InvalidId { bits: child_id },
                ) && final(self)@ == old(self)@,
            },
            r is Ok ==> final(self)@.tree.wf(),
    {
        let p = match to_element_id(parent_id) {
            Some(n) => n,
            None => {
                return Err(BridgeError::InvalidId { bits: parent_id });
            },
        };
        let c = match to_element_id(child_id) {
            Some(n) => n,
            None => {
                return Err(BridgeError::InvalidId { bits: child_id });
            },
        };
        self.tree.remove_child(p, c);
        Ok(())
    }

    pub fn insert_before(&mut self, parent_id: u64, child_id: u64, before_id: u64) -> (r: Result<
        (),
        BridgeError,
    >)
        ensures
            match (element_id_of(parent_id), element_id_of(child_id), element_id_of(before_id)) {
                (Some(p), Some(c), Some(b)) => r is Ok && final(self)@ == (RendererView {
                    tree: old(self)@.tree.insert_before(p, c, b),
                    ..old(self)@
                }),
                (None, _, _) => r == Err::<(), BridgeError>(
                    BridgeError::InvalidId { bits: parent_id },
                ) && final(self)@ == old(self)@,
                (Some(_), None, _) => r == Err::<(), BridgeError>(
                    BridgeError::InvalidId { bits: child_id },
                ) && final(self)@ == old(self)@,
                (Some(_), Some(_), None) => r == Err::<(), BridgeError>(
                    BridgeError::InvalidId { bits: before_id },
                ) && final(self)@ == old(self)@,
            },
            r is Ok ==> final(self)@.tree.wf(),
    {
        let p = match to_element_id(parent_id) {
            Some(n) => n,
            None => {
                return Err(BridgeError::InvalidId { bits: parent_id });
            },
        };
        let c = match to_element_id(child_id) {
            Some(n) => n,
            None => {
                return Err(BridgeError::InvalidId { bits: child_id });
            },
        };
        let b = match to_element_id(before_id) {
            Some(n) => n,
            None => {
                return Err(BridgeError::InvalidId { bits: before_id });
            },
        };
        self.tree.insert_before(p, c, b);
        Ok(())
    }

    pub fn set_text(&mut self, id: u64, content: String) -> (r: Result<(), BridgeError>)
        ensures
            match element_id_of(id) {
                Some(n) => r is Ok && final(self)@ == (RendererView {
                    tree: old(self)@.tree.set_text(n, content@),
                    ..old(self)@
                }),
                None => r == Err::<(), BridgeError>(BridgeError::InvalidId { bits: id })
                    && final(self)@ == old(self)@,
            },
            r is Ok ==> final(self)@.tree.wf(),
    {
        match to_element_id(id) {
            Some(n) => {
                self.tree.set_text(n, content);
                Ok(())
            },
            None => Err(BridgeError::InvalidId { bits: id }),
        }
    }

    /// Switches a listener on or off.  A name that is not an event kind
    /// changes nothing.
    pub fn set_event_listener(&mut self, id: u64, event_type: String, has_handler: bool) -> (r:
        Result<(), BridgeError>)
        ensures
            match element_id_of(id) {
                Some(n) => r is Ok && (forall|k: EventKind|
                    k.name() == event_type@ ==> final(self)@ == (RendererView {
                        tree: old(self)@.tree.set_listener(n, k, has_handler),
                        ..old(self)@
                    })) && (!EventKind::is_name(event_type@) ==> final(self)@ == old(self)@),
                None => r == Err::<(), BridgeError>(BridgeError::InvalidId { bits: id })
                    && final(self)@ == old(self)@,
            },
    {
        match to_element_id(id) {
            Some(n) => {
                match EventKind::from_name(event_type.as_str()) {
                    Some(kind) => {
                        self.tree.set_event_listener(n, kind, has_handler);
                        proof {
                            assert forall|k: EventKind| k.name() == event_type@ implies k == kind by {
                                crate::events::lemma_event_names_distinct(k, kind);
                            }
                        }
                    },
                    None => {},
                }
                Ok(())
            },
            None => Err(BridgeError::InvalidId { bits: id }),
        }
    }

    /// Records which node the frame is built from.
    pub fn set_root(&mut self, id: u64) -> (r: Result<(), BridgeError>)
        ensures
            match element_id_of(id) {
                Some(n) => r is Ok && final(self)@ == (RendererView {
                    tree: old(self)@.tree.set_root(n),
                    ..old(self)@
                }),
                None => r == Err::<(), BridgeError>(BridgeError::InvalidId { bits: id })
                    && final(self)@ == old(self)@,
            },
            r is Ok ==> final(self)@.tree.wf(),
    {
        match to_element_id(id) {
            Some(n) => {
                self.tree.set_root(n);
                Ok(())
            },
            None => Err(BridgeError::InvalidId { bits: id }),
        }
    }

    /// Replaces the style record of a node by the style that a JSON text
    /// spells.
    pub fn set_style(&mut self, id: u64, style_json: String) -> (r: Result<(), BridgeError>)
        ensures
            match element_id_of(id) {
                Some(n) => match json_parse(style_json@) {
                    Some(v) => if is_style(v) {
                        r is Ok && exists|style: StyleDesc|
                            decodes(v, style) && final(self)@ == (RendererView {
                                tree: old(self)@.tree.set_style(n, style),
                                ..old(self)@
                            })
                    } else {
                        r matches Err(e) && e is ParseError && final(self)@ == old(self)@
                    },
                    None => r matches Err(e) && e is ParseError && final(self)@ == old(self)@,
                },
                None => r == Err::<(), BridgeError>(BridgeError::InvalidId { bits: id })
                    && final(self)@ == old(self)@,
            },
            r is Ok ==> final(self)@.tree.wf(),
    {
        let n = match to_element_id(id) {
            Some(n) => n,
            None => {
                return Err(BridgeError::InvalidId { bits: id });
            },
        };
        let value = match parse_json(style_json.as_str()) {
            Ok(value) => value,
            Err(e) => {
                return Err(BridgeError::ParseError { reason: json_error_text(&e) });
            },
        };
        match style_from_json(&value) {
            Ok(style) => {
                self.tree.set_style(n, style);
                Ok(())
            },
            Err(StyleError::NotAnObject) => Err(
                BridgeError::ParseError { reason: "style is not an object".to_owned() },
            ),
            Err(StyleError::BadMember(name)) => Err(
                BridgeError::ParseError { reason: "invalid value for ".to_owned().concat(name) },
            ),
        }
    }

    /// Sets a property of a custom element from a JSON text.  JSON null
    /// deletes the property.
    pub fn set_custom_prop(&mut self, id: u64, key: String, value_json: String) -> (r: Result<
        (),
        BridgeError,
    >)
        ensures
            match element_id_of(id) {
                Some(n) => match json_parse(value_json@) {
                    Some(v) => r is Ok && final(self)@ == (RendererView {
                        tree: old(self)@.tree.set_custom_prop(n, key@, v),
                        ..old(self)@
                    }),
                    None => r matches Err(e) && e is ParseError && final(self)@ == old(self)@,
                },
                None => r == Err::<(), BridgeError>(BridgeError::InvalidId { bits: id })
                    && final(self)@ == old(self)@,
            },
            r is Ok ==> final(self)@.tree.wf(),
    {
        let n = match to_element_id(id) {
            Some(n) => n,
            None => {
                return Err(BridgeError::InvalidId { bits: id });
            },
        };
        match parse_json(value_json.as_str()) {
            Ok(value) => {
                self.tree.set_custom_prop(n, key, value);
                Ok(())
            },
            Err(e) => Err(BridgeError::ParseError { reason: json_error_text(&e) }),
        }
    }

    /// Reads a property of a custom element back as JSON text.
    pub fn get_custom_prop(&self, id: u64, key: String) -> (r: Result<Option<String>, BridgeError>)
        ensures
            match element_id_of(id) {
                Some(n) => r matches Ok(text) && crate::plan::text_view(text) == prop_text(
                    self@.tree,
                    n,
                    key@,
                ),
                None => r == Err::<Option<String>, BridgeError>(BridgeError::InvalidId { bits: id }),
            },
    {
        let n = match to_element_id(id) {
            Some(n) => n,
            None => {
                return Err(BridgeError::InvalidId { bits: id });
            },
        };
        match self.tree.get_custom_prop(n, key.as_str()) {
            Some(v) => Ok(Some(json_to_string(v))),
            None => Ok(None),
        }
    }

    /// Marks the end of a batch of mutations: the next tick forces a
    /// render.
    pub fn commit_mutations(&mut self) -> (r: Result<(), BridgeError>)
        ensures
            r is Ok,
            final(self)@ == (RendererView { needs_redraw: true, ..old(self)@ }),
    {
        self.needs_redraw = true;
        Ok(())
    }

    /// One tick of the host's loop.  Returns whether the toolkit must
    /// render even if it sees nothing dirty: it must where mutations were
    /// committed since the last tick.
    pub fn tick(&mut self) -> (r: Result<bool, BridgeError>)
        ensures
            match r {
                Ok(force_render) => old(self)@.initialized && force_render
                    == old(self)@.needs_redraw && final(self)@ == (RendererView {
                    needs_redraw: false,
                    ..old(self)@
                }),
                Err(e) => !old(self)@.initialized && e is NotInitialized && final(self)@
                    == old(self)@,
            },
    {
        if !self.initialized {
            return Err(BridgeError::NotInitialized);
        }
        let force_render = self.needs_redraw;
        self.needs_redraw = false;
        Ok(force_render)
    }

    /// The size of the window: 800 by 600 pixels.
    pub fn get_window_size(&self) -> (r: Result<WindowSize, BridgeError>)
        ensures
            r == Ok::<WindowSize, BridgeError>(
                WindowSize { width: DEFAULT_WIDTH, height: DEFAULT_HEIGHT },
            ),
    {
        Ok(WindowSize { width: DEFAULT_WIDTH, height: DEFAULT_HEIGHT })
    }

    /// Accepted and ignored.
    pub fn set_window_title(&self, _title: String) -> (r: Result<(), BridgeError>)
        ensures
            r is Ok,
    {
        Ok(())
    }

    /// Accepted and ignored.
    pub fn focus_element(&self, _element_id: u64) -> (r: Result<(), BridgeError>)
        ensures
            r is Ok,
    {
        Ok(())
    }

    /// Accepted and ignored.
    pub fn blur(&self) -> (r: Result<(), BridgeError>)
        ensures
            r is Ok,
    {
        Ok(())
    }
}

/// A property that was set from a JSON text other than `null` reads back
/// as the JSON text of the value that the text parsed to.
pub proof fn law_custom_prop_text_round_trip(
    t: TreeView,
    id: u64,
    key: Seq<char>,
    value_json: Seq<char>,
)
    requires
        t.contains(id),
        json_parse(value_json) matches Some(v) && !(json_content(v) is Null),
    ensures
        prop_text(t.set_custom_prop(id, key, json_parse(value_json).unwrap()), id, key) == Some(
            json_text(json_parse(value_json).unwrap()),
        ),
{
}

} // verus!
