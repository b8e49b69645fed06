//! What the configuration gives the program: key bindings and styles.

pub mod bindings;
pub mod key;
pub mod settings;
pub mod style;

pub use bindings::{
    merge_keybinding_maps, parse_binding_pairs, parse_global_keybindings, parse_page_keybindings,
    KeyBindings, PageKeyBindings, RawPageKeyBindings,
};
pub use key::{
    extract_modifiers, key_event_to_string, parse_key_code_with_modifiers, parse_key_event,
};
pub use settings::{AppConfig, Config, ModeStyles, RawStyles, Styles};
pub use style::{parse_color, parse_style, process_color_string};
