//! A small payments engine: client accounts driven by deposits, withdrawals,
//! disputes, resolutions and chargebacks, with every balance explained by the
//! operations recorded against it.

pub mod model;
pub mod reader;
