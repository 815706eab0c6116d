//! A local-first note store: notes with front-matter metadata, a tag
//! registry, and the bookkeeping that keeps both consistent with the files
//! of a synchronised directory.

pub mod acquire;
pub mod clock;
pub mod content;
pub mod date;
pub mod error;
pub mod front_matter;
pub mod key_index;
pub mod metadata;
pub mod note;
pub mod note_id;
pub mod note_manager;
pub mod pattern;
pub mod registry;
pub mod repository;
pub mod sidebar;
pub mod tag;
pub mod tag_list;
pub mod text;
pub mod yaml;
