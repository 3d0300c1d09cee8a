//! Building blocks of a hot-reloading page-template store: the rules behind template
//! naming, the entries bound into each catalog, the resolution of runtime values, the
//! render-time filters and the debounced reload cycle.

pub mod catalog;
pub mod config;
pub mod duration;
pub mod naming;
pub mod resolve;
pub mod text;
pub mod watch;

pub use catalog::{catalog_entries, registrations, ConstantValue, FilterKind, GlobalAlert, Registration};
pub use config::{resource_suffix_from, Pool, TestDatabase};
pub use duration::{format_magnitude, relative_phrase, timeformat, timeformat_at, FilterError, FilterValue};
pub use naming::{logical_name, logical_names, ScanError};
pub use resolve::{parse_resource_suffix, resolve_resource_suffix, ConfigValue};
pub use text::{dedent, push_decimal};
