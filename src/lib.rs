//! Discovery of Unified Kernel Images by file name, and the boot-menu
//! entries that chainload them.

pub mod entry;
pub mod info;
pub mod label;
pub mod path;

pub use entry::{render_entries, render_entry, select_entries, uki_entry, EntryConfig};
pub use info::{get_info_from_file_name, BuildToken, NamePattern, UKIInfo};
pub use label::get_os;
pub use path::{glob_pattern, join_path};
