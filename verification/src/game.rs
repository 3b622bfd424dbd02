//! Small game-state vocabularies shared by both conversion directions.

use vstd::prelude::*;

verus! {

/// A RocketSim team.
#[derive(Clone, Copy, Debug, PartialEq, Eq, Hash, Structural)]
pub enum Team {
    Blue,
    Orange,
}

/// RLBot's description of which jump or dodge forces act on a car.
#[derive(Clone, Copy, Debug, PartialEq, Eq, Hash, Structural)]
pub enum AirState {
    OnGround,
    Jumping,
    DoubleJumping,
    Dodging,
    InAir,
}

/// RLBot's match phase.
#[derive(Clone, Copy, Debug, PartialEq, Eq, Hash, Structural)]
pub enum MatchPhase {
    Inactive,
    Countdown,
    Kickoff,
    Active,
    GoalScored,
    Replay,
    Paused,
    Ended,
}

/// RLBot's team number of a RocketSim team.
pub open spec fn team_number(team: Team) -> u32 {
    match team {
        Team::Blue => 0,
        Team::Orange => 1,
    }
}

/// Whether the simulation runs during a match phase.
pub open spec fn spec_phase_advances(phase: MatchPhase) -> bool {
    phase == MatchPhase::Kickoff || phase == MatchPhase::Active
}

/// RLBot's team number of a RocketSim team.
pub fn team_index(team: Team) -> (number: u32)
    ensures
        number == team_number(team),
{
    match team {
        Team::Blue => 0,
        Team::Orange => 1,
    }
}

/// Whether the simulation runs during a match phase (kickoff or active play).
pub fn phase_advances(phase: MatchPhase) -> (advances: bool)
    ensures
        advances == spec_phase_advances(phase),
        advances <==> (phase == MatchPhase::Kickoff || phase == MatchPhase::Active),
{
    match phase {
        MatchPhase::Kickoff | MatchPhase::Active => true,
        _ => false,
    }
}

/// The simulation runs only during kickoff and active play: it is halted while
/// the match is inactive, counting down, celebrating a goal, replaying,
/// paused or ended.
pub proof fn lemma_only_kickoff_and_play_advance(phase: MatchPhase)
    ensures
        spec_phase_advances(phase) <==> (phase == MatchPhase::Kickoff || phase == MatchPhase::Active),
        phase == MatchPhase::Inactive || phase == MatchPhase::Countdown || phase == MatchPhase::GoalScored
            || phase == MatchPhase::Replay || phase == MatchPhase::Paused || phase == MatchPhase::Ended
            ==> !spec_phase_advances(phase),
{
}

} // verus!
