//! The logic of an embedded user-interface instance: text inputs, selects,
//! focus and pointer dispatch, frame capture and surface presentation.

pub mod a11y;
pub mod base_url;
pub mod capture;
pub mod clock;
pub mod dispatch_laws;
pub mod endings;
pub mod error;
pub mod events;
pub mod focus;
pub mod gesture_laws;
pub mod histories;
pub mod hit;
pub mod input;
pub mod instance;
pub mod key_laws;
pub mod keys;
pub mod laws;
pub mod lookup_laws;
pub mod paths;
pub mod plan;
pub mod press_laws;
pub mod protocol;
pub mod registry;
pub mod select;
pub mod select_laws;
pub mod source;
pub mod surface;
pub mod telling_laws;
pub mod text;
pub mod text_laws;
pub mod typing_laws;
pub mod value_laws;
