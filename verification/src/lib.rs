//! Domain core of an EMC laboratory: metrology records, quality rules,
//! project lifecycle, reporting, repository snapshots, service planning
//! and signal lineage.

pub mod audit;
pub mod calendar;
pub mod checksum;
pub mod datasets;
pub mod engineering_curves;
pub mod engineering_validation;
pub mod error;
pub mod execution_plan;
pub mod identifiers;
pub mod method_definition;
pub mod method_successor;
pub mod method_variables;
pub mod method_workflow;
pub mod measurement_engineering;
pub mod metrology;
pub mod metrology_characterization;
pub mod planned_test_preparation;
pub mod project;
pub mod quality;
pub mod regulation_profile;
pub mod reporting;
pub mod repositories;
pub mod service_planning;
pub mod signal;
pub mod sorting;
pub mod station_materials;
pub mod station_setup;
pub mod test_definitions;
pub mod text;

pub use error::DomainError;
pub use identifiers::{AuditActor, AuditReason, ProjectCode};
pub use method_workflow::{PortDirectionality, SignalDomain};
