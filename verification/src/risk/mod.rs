pub mod limits;
pub mod position;
pub mod reconcile;

pub use limits::{RiskDecision, RiskLimits, RiskState};
pub use position::PositionState;
pub use reconcile::Reconciler;
