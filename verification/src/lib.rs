//! Badges that tell the status of a monitor of Datadog: the status that a
//! monitor and its groups come to under a tag filter, the badge that shows
//! it, and the cache that keeps badges for a while.

pub mod badge;
pub mod cache;
pub mod datadog;
pub mod filter;
pub mod posix_date_format;
pub mod rfc3339_date_format;
pub mod service;
pub mod string_map;
pub mod text;
pub mod timestamp;
