//! Verified presentation logic of the marketplace back-office front end:
//! text helpers, date labels, GL turnover formulas, dashboard layout
//! manipulation, list state transitions and CSV rows.

pub mod text;
pub mod params;
pub mod layout;
pub mod gl_turnover;
pub mod sorting;
pub mod dashboard;
pub mod dates;
pub mod filters;
pub mod indicators;
pub mod drill;
pub mod view_context;
pub mod card;
pub mod query;
pub mod wb_documents;
pub mod missing_cost;
pub mod wb_supply;
pub mod text_order;
pub mod advert_daily;
pub mod advert_lines;
pub mod indicator_form;
pub mod indicator_list;
pub mod dashboard_list;
pub mod data_spec;
pub mod dashboard_view;
pub mod dashboard_doc;
