//! Scope-aware logging: hierarchical scopes, a swappable filter table, the
//! two-stage enablement decision and a duration-measuring timer.
pub mod env_filter;
pub mod filter;
pub mod keymap;
pub mod level;
pub mod logger;
pub mod scope;
pub mod timer;

pub use env_filter::{parse_env_filter, EnvFilter, FilterParseError};
pub use filter::{is_enabled, is_scope_enabled, FilterEntry, FilterTable};
pub use keymap::BaseKeymap;
pub use level::{is_possibly_enabled_level, Level};
pub use logger::{default_logger, Logger, Record, Zlog};
pub use scope::{
    extract_crate_name_from_module_path, scope_alloc_new, scope_new, scope_to_alloc, Scope,
    ScopeAlloc, SCOPE_DEPTH_MAX,
};
pub use timer::{Timer, TimerReport};
