//! Regional weather-alert resolution and aggregation.
//!
//! Given a coordinate, the library classifies it into a jurisdiction,
//! normalizes the heterogeneous alert schemas of that jurisdiction's
//! provider into one unified model, filters by geometric containment or
//! administrative-region identity, deduplicates reissued alerts, and
//! suppresses expired or already-notified alerts.
//!
//! Coordinates are carried as microdegrees (`i64`, one millionth of a
//! degree) and instants as Unix epoch seconds (`i64`).

pub mod alert;
pub mod display;
pub mod eccc;
pub mod gate;
pub mod geo;
pub mod meteoalarm;
pub mod nws;
pub mod polygon;
pub mod severity;
pub mod text;
pub mod timestamp;
pub mod units;
