//! Indexing of decompiled behaviour scripts into named state blocks, and the
//! decision logic of a hitbox viewer built around that index.
pub mod boxes;
pub mod lines;
pub mod loaders;
pub mod session;
pub mod states;
pub mod text;
pub mod window;

pub use boxes::{box_color, BoxColor, BoxType};
pub use lines::{classify_line, extract_selected_sprite_name, state_lines, LineStyle};
pub use loaders::{BBSAsset, BBSLoader, PacLoader, RonLoader};
pub use session::{char_script_path, character_list, ef_script_path, pac_path, MyApp};
pub use states::{build_index, ScriptError, StateBlock, StateIndex};
pub use window::BoxesWindow;
