//! Verified core of a folder synchroniser: it decides, from a remote
//! listing, a local walk and the rows recorded at the last sync, what has to
//! be copied, removed or left alone, and drives the input and output that
//! carries the decision out, one request at a time.

pub mod auth;
pub mod change_laws;
pub mod domain;
pub mod driver;
pub mod driver_laws;
pub mod editor_temp;
pub mod events;
pub mod ignore;
pub mod item_laws;
pub mod item_runs;
pub mod labels;
pub mod notices;
pub mod ops;
pub mod path_item;
pub mod path_laws;
pub mod path_map;
pub mod paths;
pub mod place_laws;
pub mod ports;
pub mod remote_lifecycle;
pub mod secrets;
pub mod should_sync;
pub mod sync;
pub mod sync_dir_ops;
pub mod sync_dir_pass;
pub mod sync_path;
pub mod test_support;
pub mod text;
pub mod text_laws;
pub mod theme;
pub mod tree;
pub mod util;
