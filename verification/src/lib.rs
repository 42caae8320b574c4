use vstd::prelude::*;

pub mod adapter;
pub mod capture;
pub mod errors;
pub mod frame;
pub mod lease;
pub mod macaddr;
pub mod report;
pub mod stats;
pub mod text;

pub use adapter::ReadEvent;
pub use adapter::ReadOutcome;
pub use adapter::StepAction;
pub use adapter::adapter_step;
pub use adapter::read_async_model;
pub use capture::can_count;
pub use capture::capture_step;
pub use capture::check_report_due;
pub use capture::validate_interface_name;
pub use errors::CapError;
pub use frame::Frame;
pub use frame::parse;
pub use lease::LeaseMap;
pub use lease::build_lease_map;
pub use lease::parse_lease_line;
pub use lease::resolve_lease;
pub use lease::split_spaces;
pub use macaddr::mac_format;
pub use macaddr::mac_parse;
pub use report::render_report;
pub use report::render_single_report;
pub use stats::SnapRow;
pub use stats::Stat;
pub use stats::StatTable;
pub use text::u64_to_dec;

verus! {

} // verus!
