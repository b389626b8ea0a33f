//! fs-agent's verified core: the edit matching ladder and its inverse, the
//! wording layer, the draft editor, display-width arithmetic, and the small
//! tool-side value types.

pub mod error;
pub mod events;
pub mod severity;
pub mod bytes;
pub mod text;
pub mod tool_names;
pub mod tool;
pub mod registry;
pub mod todo;
pub mod transcript;
pub mod args;
pub mod observe;
pub mod headless;
pub mod speaker_colors;
pub mod highlight;
pub mod highlight_laws;
pub mod ladder_spec;
pub mod ladder_lemmas;
pub mod ladder;
pub mod edit;
pub mod edit_laws;
pub mod file_edit;
pub mod placeholder;
pub mod width;
pub mod wording;
pub mod editor;
pub mod layout;
pub mod input;
pub mod markdown_spec;
pub mod markdown;
pub mod keys;
pub mod questions;
pub mod panel;
pub mod style;
pub mod pane;
pub mod rail;
pub mod overlay;
pub mod paths;
pub mod paint;
pub mod plain;
pub mod question_rows;
pub mod store;
