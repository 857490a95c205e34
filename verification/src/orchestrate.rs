//! Decisions of the command orchestrator.
//!
//! The tool drives external processes — a build tool, a dev server, a
//! migration runner with a CLI fallback, a documentation exporter.  The
//! processes themselves run outside the library; what is modelled here is
//! the policy applied to their results: when a fallback is consulted, and
//! when a failure degrades to a warning instead of aborting.

use vstd::prelude::*;

verus! {

/// Outcome of running database migrations: the primary invocation, the
/// fallback CLI, or a tolerated failure of both.
#[derive(Clone, Copy, Debug, PartialEq, Eq, Structural)]
pub enum MigrateRunOutcome {
    /// The project's own migration binary succeeded.
    Primary,
    /// The primary invocation failed and the fallback CLI succeeded.
    Fallback,
    /// Both invocations failed; the operation still reports success at
    /// the process level, so optional tooling never blocks scaffolding.
    Degraded,
}

/// Classifies a migration run from the two invocation results.
///
/// The fallback counts only when the primary failed, and no combination
/// aborts the overall operation.
pub fn migrate_run_outcome(primary_ok: bool, fallback_ok: bool) -> (r: MigrateRunOutcome)
    ensures
        primary_ok ==> r == MigrateRunOutcome::Primary,
        !primary_ok && fallback_ok ==> r == MigrateRunOutcome::Fallback,
        !primary_ok && !fallback_ok ==> r == MigrateRunOutcome::Degraded,
{
    if primary_ok {
        MigrateRunOutcome::Primary
    } else if fallback_ok {
        MigrateRunOutcome::Fallback
    } else {
        MigrateRunOutcome::Degraded
    }
}

/// The API documentation artifact captured from the exporter's standard
/// output, pending persistence beside the generated project.
pub struct ApiDoc {
    /// The captured output, a JSON rendering of the API.
    pub body: Vec<char>,
}

/// Wraps the exporter's captured output.
///
/// A failed export yields no artifact: the operation degrades to a no-op
/// instead of aborting.
pub fn capture_docs(output: Option<Vec<char>>) -> (r: Option<ApiDoc>)
    ensures
        output is Some ==> r is Some && r->0.body@ == output->0@,
        output is None ==> r is None,
{
    match output {
        Some(body) => Some(ApiDoc { body }),
        None => None,
    }
}

} // verus!
