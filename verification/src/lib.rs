//! Core of a nearby-attraction recommender: spherical-geometry value types,
//! decimal parsing for the place directory's textual fields, the acceptance
//! predicate, and the discovery loop that accumulates qualifying places.
//!
//! All distances are held canonically as integer micrometers and all
//! coordinates as integer microdegrees, so every unit conversion in the
//! library is exact. Floating-point work (the haversine itself, the biased
//! random offset) is done by the caller that drives the discovery loop; the
//! library receives its outcomes as plain values and decides everything else.
use vstd::prelude::*;

pub mod decimal;
pub mod discovery;
pub mod geo;
pub mod settings;
pub mod trip_advisor;
