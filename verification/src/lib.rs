//! Leakage-controlled screening of groundwater contaminants: the
//! integer and text logic of the pipeline (fold construction, leakage
//! rules, feature tiers, target eligibility, CSV rendering), with
//! contracts proved by Verus.

pub mod cli;
pub mod text;
pub mod cv;
pub mod cv_laws;
pub mod io;
pub mod dataset;
pub mod leakage;
pub mod features;
pub mod thresholds;
pub mod thresholds_operational;
pub mod outline;
pub mod targets;
pub mod export;
pub mod digest;
pub mod pipeline;
pub mod validation;
pub mod messages;
