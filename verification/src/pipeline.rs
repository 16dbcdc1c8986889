//! The per-profile pipeline, as decisions over plain values.
//!
//! Each profile runs three stages in order, `List`, `Select`, `Delete`,
//! with no retries and no cycles.  The external snapshot manager is
//! driven by the caller, who hands each stage the command outcome as
//! plain values; the stages decide what follows.  Profiles fail in
//! isolation: [`first_failure`] folds the independent outcomes into the
//! overall result without undoing any of them.

use vstd::prelude::*;

use crate::generation::Generation;
use crate::generation::ParseError;
use crate::generation::spec_parse_many;
use crate::generation_set::GenerationSet;
use crate::generation_set::holds_first_occurrences;
use crate::generation_set::retained;
use crate::generation_set::sorted_by_id;
use crate::job::Job;

verus! {

/// The stages of one profile's pipeline, in order.  `Select` is pure
/// and cannot fail.
#[derive(Debug, Clone, Copy, PartialEq, Eq, Structural)]
pub enum Stage {
    List,
    Select,
    Delete,
}

/// What went wrong in a failing stage.
#[derive(Debug, PartialEq, Eq)]
pub enum FailureDetail {
    /// The enumeration output could not be parsed.
    ParseFailure(ParseError),
    /// The external command exited unsuccessfully; its diagnostic text
    /// is carried along.
    CollaboratorFailure(String),
}

/// The failure of one profile's pipeline: the profile path, the stage
/// that failed, the underlying diagnostic, and for a failed deletion
/// the ids whose deletion was attempted.
#[derive(Debug, PartialEq, Eq)]
pub struct PipelineError {
    pub path: String,
    pub stage: Stage,
    pub detail: FailureDetail,
    pub attempted_ids: Vec<u32>,
}

/// Completes the `List` stage from the enumeration command's outcome.
///
/// An unsuccessful exit fails the profile with the command's
/// diagnostic text; otherwise the output is parsed and the job carries
/// the resulting set forward.  Success is owed exactly when the
/// command succeeded and every non-blank line parses.
pub fn list_stage(job: Job<()>, exit_success: bool, stdout: &str, stderr: &str) -> (r: Result<
    Job<GenerationSet>,
    PipelineError,
>)
    ensures
        r is Ok <==> exit_success && spec_parse_many(stdout@) is Ok,
        r matches Ok(next) ==> {
            &&& next.spec_path() == job.spec_path()
            &&& next.spec_keep_since() == job.spec_keep_since()
            &&& next.spec_keep_at_least() == job.spec_keep_at_least()
            &&& sorted_by_id(next.spec_data()@)
            &&& holds_first_occurrences(next.spec_data()@, spec_parse_many(stdout@)->Ok_0)
        },
        r matches Err(e) ==> {
            &&& e.path@ == job.spec_path()
            &&& e.stage == Stage::List
            &&& e.attempted_ids@ == Seq::<u32>::empty()
            &&& !exit_success ==> (e.detail matches FailureDetail::CollaboratorFailure(t)
                && t@ == stderr@)
            &&& exit_success ==> e.detail == FailureDetail::ParseFailure(
                spec_parse_many(stdout@)->Err_0,
            )
        },
{
    if !exit_success {
        return Err(PipelineError {
            path: job.path().clone(),
            stage: Stage::List,
            detail: FailureDetail::CollaboratorFailure(String::from_str(stderr)),
            attempted_ids: Vec::new(),
        });
    }
    match Generation::parse_many(stdout) {
        Ok(gens) => {
            let set = GenerationSet::from_generations(gens);
            Ok(job.set_data(set))
        },
        Err(e) => Err(
            PipelineError {
                path: job.path().clone(),
                stage: Stage::List,
                detail: FailureDetail::ParseFailure(e),
                attempted_ids: Vec::new(),
            },
        ),
    }
}

/// Completes the `Select` stage: applies the retention algorithm to the
/// listed set under the job's configuration.  Pure; cannot fail.
pub fn select_stage(job: Job<GenerationSet>) -> (r: Job<GenerationSet>)
    requires
        sorted_by_id(job.spec_data()@),
    ensures
        r.spec_path() == job.spec_path(),
        r.spec_keep_since() == job.spec_keep_since(),
        r.spec_keep_at_least() == job.spec_keep_at_least(),
        sorted_by_id(r.spec_data()@),
        forall|g: Generation| #[trigger]
            r.spec_data()@.contains(g) <==> job.spec_data()@.contains(g) && !retained(
                job.spec_data()@,
                job.spec_keep_at_least() as int,
                job.spec_keep_since(),
                g,
            ),
{
    let keep_at_least = job.keep_at_least();
    let keep_since = job.keep_since();
    let to_delete = job.data().generations_to_delete(keep_at_least, keep_since);
    job.set_data(to_delete)
}

/// The ids whose deletion the `Delete` stage will request, in
/// ascending order.
pub fn delete_request(job: &Job<GenerationSet>) -> (r: Vec<u32>)
    ensures
        r@ == job.spec_data()@.map_values(|g: Generation| g.id),
{
    job.data().ids()
}

/// Completes the `Delete` stage from the deletion command's outcome.
///
/// On success the payload is emptied; an unsuccessful exit fails the
/// profile, carrying the diagnostic text and the attempted id list.
pub fn delete_stage(job: Job<GenerationSet>, exit_success: bool, stderr: &str) -> (r: Result<
    Job<()>,
    PipelineError,
>)
    ensures
        r is Ok <==> exit_success,
        r matches Ok(next) ==> {
            &&& next.spec_path() == job.spec_path()
            &&& next.spec_keep_since() == job.spec_keep_since()
            &&& next.spec_keep_at_least() == job.spec_keep_at_least()
        },
        r matches Err(e) ==> {
            &&& e.path@ == job.spec_path()
            &&& e.stage == Stage::Delete
            &&& e.detail matches FailureDetail::CollaboratorFailure(t) && t@ == stderr@
            &&& e.attempted_ids@ == job.spec_data()@.map_values(|g: Generation| g.id)
        },
{
    if exit_success {
        Ok(job.set_data(()))
    } else {
        let attempted_ids = delete_request(&job);
        Err(
            PipelineError {
                path: job.path().clone(),
                stage: Stage::Delete,
                detail: FailureDetail::CollaboratorFailure(String::from_str(stderr)),
                attempted_ids,
            },
        )
    }
}

/// The overall outcome of independent per-profile results: `Ok` only
/// when every profile succeeded, and otherwise the first failure in
/// the given order.
pub open spec fn spec_first_failure(rs: Seq<Result<(), PipelineError>>) -> Result<
    (),
    PipelineError,
>
    decreases rs.len(),
{
    if rs.len() == 0 {
        Ok(())
    } else if rs[0] is Err {
        rs[0]
    } else {
        spec_first_failure(rs.drop_first())
    }
}

/// Folds the per-profile outcomes into the overall result.
///
/// The result is `Ok` exactly when every profile succeeded; otherwise
/// the first failure in the given order is surfaced.  Outcomes of the
/// other profiles stand as they are: nothing is rolled back.
pub fn first_failure(results: Vec<Result<(), PipelineError>>) -> (r: Result<(), PipelineError>)
    ensures
        r == spec_first_failure(results@),
{
    let ghost full = results@;
    let mut rest = results;
    while rest.len() > 0
        invariant
            full == results@,
            spec_first_failure(full) == spec_first_failure(rest@),
        decreases rest@.len(),
    {
        let ghost pre = rest@;
        let head = rest.remove(0);
        proof {
            assert(pre.remove(0) =~= pre.drop_first());
        }
        match head {
            Ok(_) => {},
            Err(e) => {
                return Err(e);
            },
        }
    }
    Ok(())
}

} // verus!
