use vstd::prelude::*;

verus! {

/// The stages of a run, in the only order in which they are passed.
#[derive(PartialEq, Eq, Structural, Clone, Copy, Debug)]
pub enum Stage {
    Init,
    WalletsReady,
    Matured,
    Transferred,
    Confirmed,
    Reported,
    Failed,
}

/// Position of a stage along the run; `Failed` stands apart.
pub open spec fn rank(s: Stage) -> int {
    match s {
        Stage::Init => 0,
        Stage::WalletsReady => 1,
        Stage::Matured => 2,
        Stage::Transferred => 3,
        Stage::Confirmed => 4,
        Stage::Reported => 5,
        Stage::Failed => -1,
    }
}

/// The stage after `s` once its work succeeded or failed. Any failure ends
/// the run in `Failed`; the two ends of the run are final.
pub open spec fn next_stage(s: Stage, succeeded: bool) -> Stage {
    match s {
        Stage::Reported => Stage::Reported,
        Stage::Failed => Stage::Failed,
        _ => if !succeeded {
            Stage::Failed
        } else {
            match s {
                Stage::Init => Stage::WalletsReady,
                Stage::WalletsReady => Stage::Matured,
                Stage::Matured => Stage::Transferred,
                Stage::Transferred => Stage::Confirmed,
                _ => Stage::Reported,
            }
        },
    }
}

/// Moves a run on from `stage` after its work succeeded or failed.
pub fn advance(stage: Stage, succeeded: bool) -> (r: Stage)
    ensures
        r == next_stage(stage, succeeded),
{
    match stage {
        Stage::Reported => Stage::Reported,
        Stage::Failed => Stage::Failed,
        _ => {
            if !succeeded {
                Stage::Failed
            } else {
                match stage {
                    Stage::Init => Stage::WalletsReady,
                    Stage::WalletsReady => Stage::Matured,
                    Stage::Matured => Stage::Transferred,
                    Stage::Transferred => Stage::Confirmed,
                    _ => Stage::Reported,
                }
            }
        },
    }
}

/// The run is strictly linear: a step either moves one stage forward, fails
/// the run, or leaves a final stage as it is; it never goes back.
pub proof fn lemma_stages_linear(s: Stage, succeeded: bool)
    ensures
        next_stage(s, succeeded) == Stage::Failed || s == Stage::Reported || rank(
            next_stage(s, succeeded),
        ) == rank(s) + 1,
        s == Stage::Failed ==> next_stage(s, succeeded) == Stage::Failed,
        s != Stage::Reported && s != Stage::Failed && !succeeded ==> next_stage(s, succeeded)
            == Stage::Failed,
{
}

/// The hash of the block that confirmed the transfer: the first of the hashes
/// that the mining request returned; `None` when it returned none.
pub fn confirmation_block_hash(hashes: &Vec<String>) -> (r: Option<String>)
    ensures
        hashes@.len() == 0 ==> r is None,
        hashes@.len() > 0 ==> (r matches Some(h) && h@ == hashes@[0]@),
{
    if hashes.len() == 0 {
        None
    } else {
        Some(hashes[0].clone())
    }
}

} // verus!
