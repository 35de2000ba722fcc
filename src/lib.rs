//! Local replay of CI workflow steps: the workflow model and its document
//! schema, step selection, `${{ env.NAME }}` interpolation, per-step launch
//! planning and the fail-fast run state machine. Launching processes, files
//! and YAML syntax are left to the caller.

pub mod emit;
pub mod interp;
pub mod launch;
pub mod machine;
pub mod model;
pub mod run;
pub mod schema;
pub mod select;
pub mod text;

pub use model::{Job, Node, Push, Step, Trigger, Workflow};
