//! The state of coding agents in the panes of a terminal multiplexer. Hooks push the
//! status of each agent; a watcher joins it with the panes and tabs of the session
//! and has the result written to a file; a viewer and a sidebar show it and take the
//! user to an agent's pane.

pub mod commands;
pub mod groups;
pub mod join;
pub mod json;
pub mod keys;
pub mod launch;
pub mod model;
pub mod order;
pub mod panes;
pub mod paths;
pub mod protocol;
pub mod screen;
pub mod sidebar;
pub mod sidebar_screen;
pub mod status;
pub mod text;
pub mod theme;
pub mod viewer;
pub mod viewer_screen;
pub mod watcher;

pub use crate::groups::{TabGroup, flat_rows, grouped_rows};
pub use crate::join::JoinState;
pub use crate::model::{PaneInfo, Row, Snapshot, StatusEntry, StatusPayload, TabInfo};
pub use crate::paths::{state_path, watcher_wasm_host_path};
pub use crate::protocol::{
    PING_PIPE_NAME, SESSION_NAME_KEY, SIDEBAR_PIPE_NAME, STATUS_PIPE_NAME, SYNC_PIPE_NAME,
};
pub use crate::status::Status;
