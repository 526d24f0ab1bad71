//! Retained-tree bridge between a mutation-oriented UI driver and an
//! immediate-mode toolkit: the retained store, the per-frame element plan,
//! the event payloads, focus bookkeeping and the custom-element registry.

pub mod builder;
pub mod color;
pub mod custom_elements;
pub mod events;
pub mod focus;
pub mod ids;
pub mod json;
pub mod maps;
pub mod number;
pub mod payload;
pub mod renderer;
pub mod plan;
pub mod platform;
pub mod retained_tree;
pub mod seq_facts;
pub mod string_map;
pub mod style;
pub mod style_json;
pub mod style_ops;
pub mod test_renderer;
pub mod text;
pub mod tree_laws;
pub mod tree_lemmas;
pub mod tree_model;
pub mod view;
pub mod wiring;
