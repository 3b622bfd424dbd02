//! The discrete state of packet enrichment: which simulated car stands for
//! which RLBot participant, which packets are accepted, when the simulated
//! arena must be rebuilt, when history is discarded, and when the simulation
//! advances.

use vstd::prelude::*;

use crate::body::CarBodyKind;
use crate::game::{phase_advances, spec_phase_advances, AirState, MatchPhase, Team};
use crate::to_rlbot::{spec_air_state, CarStateFlags};
use crate::match_context::{
    packet_body_spec, HitboxMatches, MatchContext, MatchContextError, MatchContextView, SimGameMode,
};

verus! {

/// The collision shape of an RLBot ball.
#[derive(Clone, Copy, Debug, PartialEq, Eq, Hash, Structural)]
pub enum BallShapeKind {
    Sphere,
    Cylinder,
    Box,
}

/// Which simulated car stands for a player of the latest packet.
#[derive(Clone, Copy, Debug, PartialEq, Eq, Structural)]
pub struct EnrichedPlayer {
    pub player_index: usize,
    pub car_index: usize,
}

/// Reasons a packet cannot be enriched.
#[derive(Clone, Copy, Debug, PartialEq, Eq, Structural)]
pub enum EnrichmentError {
    MatchContext(MatchContextError),
    InvalidTeam { player_index: usize, team: u32 },
    DuplicatePlayerId { player_id: i32 },
    BallCount { count: usize },
    BallShape { shape: BallShapeKind, mode: SimGameMode },
    /// The spherical ball's diameter differs from the arena ball's by more
    /// than the accepted tolerance.
    BallSize,
}

/// What the enrichment rules read of one RLBot packet player.
#[derive(Clone, Copy, Debug, PartialEq, Eq, Structural)]
pub struct PacketPlayer {
    pub player_id: i32,
    pub team: u32,
    pub hitbox: HitboxMatches,
    pub air_state: AirState,
    pub has_jumped: bool,
    pub has_double_jumped: bool,
    pub has_dodged: bool,
}

/// What the enrichment rules read of one RLBot ball.
#[derive(Clone, Copy, Debug, PartialEq, Eq, Structural)]
pub struct PacketBall {
    pub shape: BallShapeKind,
    /// Whether a spherical ball's diameter is within tolerance of the arena's.
    pub diameter_matches: bool,
}

/// What the enrichment rules read of one RLBot game packet.
#[derive(Clone, Debug, PartialEq, Eq)]
pub struct PacketSummary {
    pub frame: u32,
    pub phase: MatchPhase,
    pub players: Vec<PacketPlayer>,
    pub balls: Vec<PacketBall>,
    pub boost_pad_count: usize,
}

/// What the enrichment rules read of the simulated arena.
#[derive(Clone, Copy, Debug, PartialEq, Eq, Structural)]
pub struct ArenaSummary {
    pub game_mode: SimGameMode,
    pub boost_pad_count: usize,
    pub car_count: usize,
}

/// A participant followed by a simulated car.
#[derive(Clone, Copy, Debug, PartialEq, Eq, Structural)]
pub struct TrackedPlayer {
    pub car_index: usize,
    pub player_id: i32,
    pub team: Team,
    /// The car's body; `None` is the enricher's default body.
    pub body: Option<CarBodyKind>,
    /// Whether the latest packet showed the participant double jumping.
    pub double_jump_active: bool,
    /// Whether the latest packet showed the participant holding a flip reset.
    pub flip_reset_available: bool,
}

/// The car that stands for one packet player in an update.
#[derive(Clone, Copy, Debug, PartialEq, Eq, Structural)]
pub struct ResolvedPlayer {
    pub car_index: usize,
    /// The participant's position in the layout before the update, if it was
    /// already followed; `None` for a car that must be added.
    pub previous_slot: Option<usize>,
    pub team: Team,
    pub body: Option<CarBodyKind>,
    /// Whether the participant held a flip reset before this packet.
    pub flip_reset_available: bool,
}

/// What the arena owner must do for one packet.
#[derive(Clone, Debug, PartialEq, Eq)]
pub struct UpdatePlan {
    /// Replace the arena by a fresh one before adding cars.
    pub rebuild: bool,
    /// Discard history carried over from earlier packets.
    pub reset_history: bool,
    /// Advance the simulation by one tick before restoring packet values.
    pub step: bool,
    /// One entry per packet player, in packet order. Entries without a
    /// previous slot need a new car, added in this order.
    pub players: Vec<ResolvedPlayer>,
}

/// The mathematical content of an [`UpdatePlan`].
pub struct UpdatePlanView {
    pub rebuild: bool,
    pub reset_history: bool,
    pub step: bool,
    pub players: Seq<ResolvedPlayer>,
}

impl View for UpdatePlan {
    type V = UpdatePlanView;

    open spec fn view(&self) -> UpdatePlanView {
        UpdatePlanView {
            rebuild: self.rebuild,
            reset_history: self.reset_history,
            step: self.step,
            players: self.players@,
        }
    }
}

/// The participants followed by the enricher, in the order of the latest
/// packet, with the frame and phase of the latest completed update.
pub struct PlayerLayout {
    context: Option<MatchContext>,
    players: Vec<TrackedPlayer>,
    last_frame: Option<u32>,
    last_phase: Option<MatchPhase>,
}

/// The mathematical content of a [`PlayerLayout`].
pub struct PlayerLayoutView {
    pub context: Option<MatchContextView>,
    pub players: Seq<TrackedPlayer>,
    pub last_frame: Option<u32>,
    pub last_phase: Option<MatchPhase>,
}

impl View for PlayerLayout {
    type V = PlayerLayoutView;

    closed spec fn view(&self) -> PlayerLayoutView {
        PlayerLayoutView {
            context: match self.context {
                Some(c) => Some(c@),
                None => None,
            },
            players: self.players@,
            last_frame: self.last_frame,
            last_phase: self.last_phase,
        }
    }
}

// ---------------------------------------------------------------------------
// Packet validation
// ---------------------------------------------------------------------------

/// The RocketSim team of an RLBot team number.
pub open spec fn spec_team(player_index: usize, team: u32) -> Result<Team, EnrichmentError> {
    if team == 0 {
        Ok(Team::Blue)
    } else if team == 1 {
        Ok(Team::Orange)
    } else {
        Err(EnrichmentError::InvalidTeam { player_index, team })
    }
}

/// The body a packet player's car must have (`None`: the default body).
pub open spec fn spec_player_body(
    ctx: Option<MatchContextView>,
    player_index: usize,
    player: PacketPlayer,
) -> Result<Option<CarBodyKind>, EnrichmentError> {
    match ctx {
        None => Ok(None),
        Some(c) => match packet_body_spec(
            c,
            player_index,
            player.player_id,
            player.team,
            player.hitbox,
        ) {
            Ok(body) => Ok(Some(body)),
            Err(e) => Err(EnrichmentError::MatchContext(e)),
        },
    }
}

/// The team of a packet player whose team number is valid.
pub open spec fn player_team(player: PacketPlayer) -> Team {
    if player.team == 0 {
        Team::Blue
    } else {
        Team::Orange
    }
}

/// The body of a packet player whose body is valid.
pub open spec fn player_body(ctx: Option<MatchContextView>, player_index: int, player: PacketPlayer) -> Option<
    CarBodyKind,
> {
    match spec_player_body(ctx, player_index as usize, player) {
        Ok(body) => body,
        Err(_) => None,
    }
}

/// The problem with packet player `i`, given the players before it.
pub open spec fn player_error(ctx: Option<MatchContextView>, players: Seq<PacketPlayer>, i: int) -> Option<
    EnrichmentError,
> {
    if exists|j: int| 0 <= j < i && players[j].player_id == players[i].player_id {
        Some(EnrichmentError::DuplicatePlayerId { player_id: players[i].player_id })
    } else {
        match spec_team(i as usize, players[i].team) {
            Err(e) => Some(e),
            Ok(_) => match spec_player_body(ctx, i as usize, players[i]) {
                Err(e) => Some(e),
                Ok(_) => None,
            },
        }
    }
}

/// The problem with the first faulty packet player among the first `n`.
pub open spec fn first_player_error(
    ctx: Option<MatchContextView>,
    players: Seq<PacketPlayer>,
    n: nat,
) -> Option<EnrichmentError>
    decreases n,
{
    if n == 0 {
        None
    } else {
        match first_player_error(ctx, players, (n - 1) as nat) {
            Some(e) => Some(e),
            None => player_error(ctx, players, n - 1),
        }
    }
}

/// Whether a ball's shape (and a sphere's size) suits the arena's mode:
/// Snowday uses a cylindrical puck, every other mode a sphere.
pub open spec fn ball_shape_error(ball: PacketBall, mode: SimGameMode) -> Option<EnrichmentError> {
    match ball.shape {
        BallShapeKind::Sphere => if mode == SimGameMode::Snowday {
            Some(EnrichmentError::BallShape { shape: BallShapeKind::Sphere, mode })
        } else if !ball.diameter_matches {
            Some(EnrichmentError::BallSize)
        } else {
            None
        },
        BallShapeKind::Cylinder => if mode == SimGameMode::Snowday {
            None
        } else {
            Some(EnrichmentError::BallShape { shape: BallShapeKind::Cylinder, mode })
        },
        BallShapeKind::Box => Some(EnrichmentError::BallShape { shape: BallShapeKind::Box, mode }),
    }
}

/// Why a packet is rejected, checked in order: the ball count (exactly one
/// ball when a match context is used), the shape of a single ball, the boost
/// pad count (equal to the arena's when a match context is used), then each
/// player in packet order.
pub open spec fn packet_error(
    ctx: Option<MatchContextView>,
    packet: PacketSummary,
    arena: ArenaSummary,
) -> Option<EnrichmentError> {
    let balls = packet.balls@;
    if ctx is Some && balls.len() != 1 {
        Some(EnrichmentError::BallCount { count: balls.len() as usize })
    } else if balls.len() == 1 && ball_shape_error(balls[0], arena.game_mode) is Some {
        ball_shape_error(balls[0], arena.game_mode)
    } else if ctx is Some && packet.boost_pad_count != arena.boost_pad_count {
        Some(
            EnrichmentError::MatchContext(
                MatchContextError::BoostPadCountMismatch {
                    packet: packet.boost_pad_count,
                    arena: arena.boost_pad_count,
                },
            ),
        )
    } else {
        first_player_error(ctx, packet.players@, packet.players@.len())
    }
}

// ---------------------------------------------------------------------------
// Layout changes and resolution
// ---------------------------------------------------------------------------

/// The first index below `n` of a followed participant with `player_id`.
pub open spec fn find_tracked(followed: Seq<TrackedPlayer>, player_id: i32, n: nat) -> Option<int>
    decreases n,
{
    if n == 0 {
        None
    } else {
        match find_tracked(followed, player_id, (n - 1) as nat) {
            Some(k) => Some(k),
            None => if followed[n - 1].player_id == player_id {
                Some(n - 1)
            } else {
                None
            },
        }
    }
}

/// The followed participant with `player_id`, if any.
pub open spec fn tracked_slot(followed: Seq<TrackedPlayer>, player_id: i32) -> Option<int> {
    find_tracked(followed, player_id, followed.len())
}

/// Whether some packet player has `player_id`.
pub open spec fn packet_has_id(players: Seq<PacketPlayer>, player_id: i32) -> bool {
    exists|i: int| 0 <= i < players.len() && #[trigger] players[i].player_id == player_id
}

/// Whether packet player `i` is followed with another team or body.
pub open spec fn player_changed(
    ctx: Option<MatchContextView>,
    followed: Seq<TrackedPlayer>,
    players: Seq<PacketPlayer>,
    i: int,
) -> bool {
    match tracked_slot(followed, players[i].player_id) {
        Some(k) => followed[k].team != player_team(players[i]) || followed[k].body != player_body(
            ctx,
            i,
            players[i],
        ),
        None => false,
    }
}

/// Whether the packet's players cannot be followed by the existing cars:
/// a followed participant left, or one changed team or body.
pub open spec fn spec_layout_changed(
    ctx: Option<MatchContextView>,
    followed: Seq<TrackedPlayer>,
    players: Seq<PacketPlayer>,
) -> bool {
    &&& followed.len() > 0
    &&& {
        ||| players.len() < followed.len()
        ||| exists|k: int| 0 <= k < followed.len() && !packet_has_id(players, #[trigger] followed[k].player_id)
        ||| exists|i: int| 0 <= i < players.len() && #[trigger] player_changed(ctx, followed, players, i)
    }
}

/// How many of the first `i` packet players are not followed yet.
pub open spec fn new_before(followed: Seq<TrackedPlayer>, players: Seq<PacketPlayer>, i: nat) -> nat
    decreases i,
{
    if i == 0 {
        0
    } else {
        new_before(followed, players, (i - 1) as nat) + if tracked_slot(
            followed,
            players[i - 1].player_id,
        ) is None {
            1nat
        } else {
            0nat
        }
    }
}

/// The car for packet player `i`: the car of the participant with the same ID
/// if it is followed, otherwise the next car added after `base` cars.
pub open spec fn resolved_slot(
    ctx: Option<MatchContextView>,
    followed: Seq<TrackedPlayer>,
    players: Seq<PacketPlayer>,
    base: nat,
    i: int,
) -> ResolvedPlayer {
    match tracked_slot(followed, players[i].player_id) {
        Some(k) => ResolvedPlayer {
            car_index: followed[k].car_index,
            previous_slot: Some(k as usize),
            team: followed[k].team,
            body: followed[k].body,
            flip_reset_available: followed[k].flip_reset_available,
        },
        None => ResolvedPlayer {
            car_index: (base + new_before(followed, players, i as nat)) as usize,
            previous_slot: None,
            team: player_team(players[i]),
            body: player_body(ctx, i, players[i]),
            flip_reset_available: false,
        },
    }
}

/// Whether a packet player holds a flip reset: airborne without having
/// jumped, double jumped or dodged.
pub open spec fn holds_flip_reset(player: PacketPlayer) -> bool {
    player.air_state == AirState::InAir && !player.has_jumped && !player.has_double_jumped
        && !player.has_dodged
}

/// The followed participant after an update.
pub open spec fn tracked_after(slot: ResolvedPlayer, player: PacketPlayer) -> TrackedPlayer {
    TrackedPlayer {
        car_index: slot.car_index,
        player_id: player.player_id,
        team: slot.team,
        body: slot.body,
        double_jump_active: player.air_state == AirState::DoubleJumping,
        flip_reset_available: holds_flip_reset(player),
    }
}

/// A followed participant with its history flags discarded.
pub open spec fn without_history(t: TrackedPlayer) -> TrackedPlayer {
    TrackedPlayer {
        car_index: t.car_index,
        player_id: t.player_id,
        team: t.team,
        body: t.body,
        double_jump_active: false,
        flip_reset_available: false,
    }
}

// ---------------------------------------------------------------------------
// Frame and phase decisions
// ---------------------------------------------------------------------------

/// Whether the packet's frame lies before the latest completed frame.
pub open spec fn spec_rollback(layout: PlayerLayoutView, frame: u32) -> bool {
    match layout.last_frame {
        Some(last) => frame < last,
        None => false,
    }
}

/// Whether the arena must be rebuilt: the frame went back, the layout
/// changed, or the packet's gravity differs from the arena's.
pub open spec fn spec_rebuild(
    layout: PlayerLayoutView,
    packet: PacketSummary,
    gravity_changed: bool,
) -> bool {
    spec_rollback(layout, packet.frame) || spec_layout_changed(
        layout.context,
        layout.players,
        packet.players@,
    ) || gravity_changed
}

/// The layout after an optional rebuild, which forgets all participants and
/// the latest frame and phase.
pub open spec fn after_rebuild(layout: PlayerLayoutView, rebuild: bool) -> PlayerLayoutView {
    if rebuild {
        PlayerLayoutView {
            context: layout.context,
            players: Seq::empty(),
            last_frame: None,
            last_phase: None,
        }
    } else {
        layout
    }
}

/// Whether play resumes: the packet's phase advances after one that did not.
pub open spec fn spec_resumed(layout: PlayerLayoutView, phase: MatchPhase) -> bool {
    spec_phase_advances(phase) && match layout.last_phase {
        Some(last) => !spec_phase_advances(last),
        None => false,
    }
}

/// Whether history is discarded: no completed frame to continue from
/// (first packet or rebuilt arena), or play resumes.
pub open spec fn spec_reset_history(layout: PlayerLayoutView, phase: MatchPhase) -> bool {
    layout.last_frame is None || spec_resumed(layout, phase)
}

/// Whether the simulation advances one tick: the phase advances and the
/// packet's frame is newer than the latest completed frame.
pub open spec fn spec_step(layout: PlayerLayoutView, packet: PacketSummary) -> bool {
    spec_phase_advances(packet.phase) && match layout.last_frame {
        Some(last) => packet.frame > last,
        None => false,
    }
}

/// The followed participants after optionally discarding their history.
pub open spec fn history_kept(followed: Seq<TrackedPlayer>, reset: bool) -> Seq<TrackedPlayer> {
    if reset {
        followed.map_values(|t: TrackedPlayer| without_history(t))
    } else {
        followed
    }
}

/// The plan for an accepted packet and the layout after it.
pub open spec fn spec_plan(
    layout: PlayerLayoutView,
    packet: PacketSummary,
    arena: ArenaSummary,
    gravity_changed: bool,
) -> (UpdatePlanView, PlayerLayoutView) {
    let rebuild = spec_rebuild(layout, packet, gravity_changed);
    let kept = after_rebuild(layout, rebuild);
    let reset = spec_reset_history(kept, packet.phase);
    let followed = history_kept(kept.players, reset);
    let players = packet.players@;
    let base: nat = if rebuild {
        0
    } else {
        arena.car_count as nat
    };
    let slots = Seq::new(
        players.len(),
        |i: int| resolved_slot(layout.context, followed, players, base, i),
    );
    (
        UpdatePlanView { rebuild, reset_history: reset, step: spec_step(kept, packet), players: slots },
        PlayerLayoutView {
            context: layout.context,
            players: Seq::new(players.len(), |i: int| tracked_after(slots[i], players[i])),
            last_frame: kept.last_frame,
            last_phase: kept.last_phase,
        },
    )
}

// ---------------------------------------------------------------------------
// Lemmas
// ---------------------------------------------------------------------------

proof fn lemma_first_player_error_step(ctx: Option<MatchContextView>, players: Seq<PacketPlayer>, n: nat)
    requires
        n < players.len(),
        first_player_error(ctx, players, n) is None,
    ensures
        first_player_error(ctx, players, n + 1) == player_error(ctx, players, n as int),
        first_player_error(ctx, players, n + 1) is Some ==> first_player_error(
            ctx,
            players,
            players.len(),
        ) == first_player_error(ctx, players, n + 1),
{
    if first_player_error(ctx, players, n + 1) is Some {
        lemma_first_player_error_stable(ctx, players, n + 1);
    }
}

proof fn lemma_first_player_error_stable(
    ctx: Option<MatchContextView>,
    players: Seq<PacketPlayer>,
    n: nat,
)
    requires
        n <= players.len(),
        first_player_error(ctx, players, n) is Some,
    ensures
        first_player_error(ctx, players, players.len()) == first_player_error(ctx, players, n),
    decreases players.len() - n,
{
    if n < players.len() {
        lemma_first_player_error_stable(ctx, players, n + 1);
    }
}

proof fn lemma_find_tracked_extends(followed: Seq<TrackedPlayer>, player_id: i32, n: nat)
    requires
        n <= followed.len(),
        find_tracked(followed, player_id, n) is Some,
    ensures
        tracked_slot(followed, player_id) == find_tracked(followed, player_id, n),
    decreases followed.len() - n,
{
    if n < followed.len() {
        lemma_find_tracked_extends(followed, player_id, n + 1);
    }
}

/// The first match found by `find_tracked` has the ID and lies in range, and
/// no earlier entry has the ID.
proof fn lemma_find_tracked_spec(followed: Seq<TrackedPlayer>, player_id: i32, n: nat)
    requires
        n <= followed.len(),
    ensures
        find_tracked(followed, player_id, n) matches Some(k) ==> 0 <= k < n && followed[k].player_id
            == player_id && forall|j: int| 0 <= j < k ==> followed[j].player_id != player_id,
        find_tracked(followed, player_id, n) is None ==> forall|j: int|
            0 <= j < n ==> followed[j].player_id != player_id,
    decreases n,
{
    if n > 0 {
        lemma_find_tracked_spec(followed, player_id, (n - 1) as nat);
    }
}

/// Discarding history keeps IDs, cars, teams and bodies, so lookups agree.
proof fn lemma_history_kept_find(followed: Seq<TrackedPlayer>, reset: bool, player_id: i32, n: nat)
    requires
        n <= followed.len(),
    ensures
        find_tracked(history_kept(followed, reset), player_id, n) == find_tracked(
            followed,
            player_id,
            n,
        ),
    decreases n,
{
    if n > 0 {
        lemma_history_kept_find(followed, reset, player_id, (n - 1) as nat);
    }
}

// ---------------------------------------------------------------------------
// Executable rules
// ---------------------------------------------------------------------------

/// The RocketSim team of an RLBot team number (0 is blue, 1 is orange).
pub fn team_from_rlbot(player_index: usize, team: u32) -> (r: Result<Team, EnrichmentError>)
    ensures
        r == spec_team(player_index, team),
{
    if team == 0 {
        Ok(Team::Blue)
    } else if team == 1 {
        Ok(Team::Orange)
    } else {
        Err(EnrichmentError::InvalidTeam { player_index, team })
    }
}

/// Checks a ball's shape (and a sphere's size) against the arena's mode.
pub fn check_ball_shape(ball: &PacketBall, mode: SimGameMode) -> (r: Result<(), EnrichmentError>)
    ensures
        r is Ok <==> ball_shape_error(*ball, mode) is None,
        r matches Err(e) ==> ball_shape_error(*ball, mode) == Some(e),
{
    match ball.shape {
        BallShapeKind::Sphere => if matches!(mode, SimGameMode::Snowday) {
            Err(EnrichmentError::BallShape { shape: BallShapeKind::Sphere, mode })
        } else if !ball.diameter_matches {
            Err(EnrichmentError::BallSize)
        } else {
            Ok(())
        },
        BallShapeKind::Cylinder => if matches!(mode, SimGameMode::Snowday) {
            Ok(())
        } else {
            Err(EnrichmentError::BallShape { shape: BallShapeKind::Cylinder, mode })
        },
        BallShapeKind::Box => Err(EnrichmentError::BallShape { shape: BallShapeKind::Box, mode }),
    }
}

/// Whether the ball of a packet is copied into the arena: exactly one ball
/// is copied; no ball is accepted only without a match context; any other
/// count is rejected.
pub fn ball_sync(has_context: bool, ball_count: usize) -> (r: Result<bool, EnrichmentError>)
    ensures
        ball_count == 1 ==> r == Ok::<bool, EnrichmentError>(true),
        ball_count == 0 && !has_context ==> r == Ok::<bool, EnrichmentError>(false),
        (ball_count > 1 || (ball_count == 0 && has_context)) ==> r == Err::<bool, EnrichmentError>(
            EnrichmentError::BallCount { count: ball_count },
        ),
{
    if ball_count == 1 {
        Ok(true)
    } else if ball_count == 0 && !has_context {
        Ok(false)
    } else {
        Err(EnrichmentError::BallCount { count: ball_count })
    }
}

/// Whether a packet's boost pad states are copied into the arena: a packet
/// without pad states leaves the pads alone, one with as many states as the
/// arena has pads is copied, any other count is rejected.
pub fn boost_pad_sync(packet_pads: usize, arena_pads: usize) -> (r: Result<bool, EnrichmentError>)
    ensures
        packet_pads == 0 ==> r == Ok::<bool, EnrichmentError>(false),
        packet_pads != 0 && packet_pads == arena_pads ==> r == Ok::<bool, EnrichmentError>(true),
        packet_pads != 0 && packet_pads != arena_pads ==> r == Err::<bool, EnrichmentError>(
            EnrichmentError::MatchContext(
                MatchContextError::BoostPadCountMismatch { packet: packet_pads, arena: arena_pads },
            ),
        ),
{
    if packet_pads == 0 {
        Ok(false)
    } else if packet_pads == arena_pads {
        Ok(true)
    } else {
        Err(
            EnrichmentError::MatchContext(
                MatchContextError::BoostPadCountMismatch { packet: packet_pads, arena: arena_pads },
            ),
        )
    }
}

/// Whether a packet player holds a flip reset.
pub fn flip_reset_available(player: &PacketPlayer) -> (holds: bool)
    ensures
        holds == holds_flip_reset(*player),
        holds ==> player.air_state == AirState::InAir,
        holds <==> (player.air_state == AirState::InAir && !player.has_jumped
            && !player.has_double_jumped && !player.has_dodged),
{
    matches!(player.air_state, AirState::InAir) && !player.has_jumped && !player.has_double_jumped
        && !player.has_dodged
}

/// Whether some packet player has `player_id`.
fn packet_contains_id(players: &Vec<PacketPlayer>, player_id: i32) -> (found: bool)
    ensures
        found == packet_has_id(players@, player_id),
{
    let mut i: usize = 0;
    while i < players.len()
        invariant
            i <= players@.len(),
            forall|j: int| 0 <= j < i ==> players@[j].player_id != player_id,
        decreases players@.len() - i,
    {
        if players[i].player_id == player_id {
            return true;
        }
        i += 1;
    }
    false
}

/// The position of the followed participant with `player_id`.
fn find_tracked_index(followed: &Vec<TrackedPlayer>, player_id: i32) -> (r: Option<usize>)
    ensures
        r matches Some(k) ==> k < followed@.len() && followed@[k as int].player_id == player_id,
        match r {
            Some(k) => tracked_slot(followed@, player_id) == Some(k as int),
            None => tracked_slot(followed@, player_id) is None,
        },
{
    let mut i: usize = 0;
    while i < followed.len()
        invariant
            i <= followed@.len(),
            find_tracked(followed@, player_id, i as nat) is None,
        decreases followed@.len() - i,
    {
        if followed[i].player_id == player_id {
            assert(find_tracked(followed@, player_id, (i + 1) as nat) == Some(i as int));
            proof {
                lemma_find_tracked_extends(followed@, player_id, (i + 1) as nat);
            }
            return Some(i);
        }
        i += 1;
    }
    None
}

/// The jump, dodge, ground and demolition flags a car takes from a packet
/// player: RLBot's jump and dodge flags and air state are authoritative (a
/// double jump ends any jump or dodge and counts as double jumped), while
/// ground contact comes from the simulation and a demolished car has none.
pub open spec fn spec_restored_flags(player: PacketPlayer, demolished: bool, simulated_on_ground: bool) -> CarStateFlags {
    let double_jumping = player.air_state == AirState::DoubleJumping;
    CarStateFlags {
        is_jumping: player.air_state == AirState::Jumping,
        is_flipping: player.air_state == AirState::Dodging,
        has_jumped: player.has_jumped,
        has_double_jumped: player.has_double_jumped || double_jumping,
        has_flipped: player.has_dodged,
        is_on_ground: !demolished && simulated_on_ground,
        is_demoed: demolished,
    }
}

/// The flags a car takes from a packet player (see [`spec_restored_flags`]);
/// `demolished` tells whether the packet reports a demolition timer, and
/// `simulated_on_ground` whether the simulation has the car on its wheels.
pub fn restored_car_flags(player: &PacketPlayer, demolished: bool, simulated_on_ground: bool) -> (flags: CarStateFlags)
    ensures
        flags == spec_restored_flags(*player, demolished, simulated_on_ground),
{
    let double_jumping = matches!(player.air_state, AirState::DoubleJumping);
    CarStateFlags {
        is_jumping: matches!(player.air_state, AirState::Jumping),
        is_flipping: matches!(player.air_state, AirState::Dodging),
        has_jumped: player.has_jumped,
        has_double_jumped: player.has_double_jumped || double_jumping,
        has_flipped: player.has_dodged,
        is_on_ground: !demolished && simulated_on_ground,
        is_demoed: demolished,
    }
}

/// Which value a car's previous controls take after an update.
#[derive(Clone, Copy, Debug, PartialEq, Eq, Structural)]
pub enum PreviousControls {
    /// The controls the simulation recorded during the tick it just ran.
    Simulated,
    /// The packet's own controls (history was discarded).
    Packet,
    /// The packet controls retained from the previous update.
    Retained,
}

/// How the retained initial-jump duration changes with a packet.
#[derive(Clone, Copy, Debug, PartialEq, Eq, Structural)]
pub enum InitialJumpRule {
    /// The car is in its initial jump: measure the (bounded) jump time.
    Measure,
    /// The car has not jumped: no duration is retained.
    Clear,
    /// Keep the duration measured earlier.
    Keep,
}

/// Where a restored car's time since its jump comes from.
#[derive(Clone, Copy, Debug, PartialEq, Eq, Structural)]
pub enum AirTimeSource {
    /// Zero: the car is jumping, has not jumped, or holds a flip reset.
    Zero,
    /// Reconstructed from RLBot's dodge timeout and the retained jump duration.
    DodgeTimeout,
    /// The whole double-jump window has elapsed.
    WindowElapsed,
}

/// Which previous controls a car takes: the simulated ones after a tick, the
/// packet's own after history was discarded, and otherwise the ones retained
/// from the previous packet.
pub open spec fn spec_previous_controls(stepped: bool, reset_history: bool) -> PreviousControls {
    if stepped {
        PreviousControls::Simulated
    } else if reset_history {
        PreviousControls::Packet
    } else {
        PreviousControls::Retained
    }
}

/// How the retained initial-jump duration changes for a packet player.
pub open spec fn spec_initial_jump_rule(player: PacketPlayer) -> InitialJumpRule {
    if player.air_state == AirState::Jumping {
        InitialJumpRule::Measure
    } else if !player.has_jumped {
        InitialJumpRule::Clear
    } else {
        InitialJumpRule::Keep
    }
}

/// Where a restored car's time since its jump comes from; `timeout_reported`
/// tells whether the packet's dodge timeout is non-negative, and
/// `flip_reset_available` whether the player held a flip reset before.
pub open spec fn spec_air_time_source(
    player: PacketPlayer,
    timeout_reported: bool,
    flip_reset_available: bool,
) -> AirTimeSource {
    if player.air_state == AirState::Jumping || !player.has_jumped {
        AirTimeSource::Zero
    } else if timeout_reported {
        AirTimeSource::DodgeTimeout
    } else if flip_reset_available {
        AirTimeSource::Zero
    } else {
        AirTimeSource::WindowElapsed
    }
}

/// RocketSim's Dropshot charge level for RLBot's ball charge level: none for
/// a negative level, otherwise the level (as a byte) plus one, capped to 1..=3.
pub open spec fn spec_charge_level(charge_level: i32) -> Option<u8> {
    if charge_level < 0 {
        None
    } else {
        let byte: int = charge_level as int % 256;
        Some(if byte + 1 > 3 { 3u8 } else { (byte + 1) as u8 })
    }
}

/// Which previous controls a car takes (see [`spec_previous_controls`]).
pub fn previous_controls_source(stepped: bool, reset_history: bool) -> (source: PreviousControls)
    ensures
        source == spec_previous_controls(stepped, reset_history),
{
    if stepped {
        PreviousControls::Simulated
    } else if reset_history {
        PreviousControls::Packet
    } else {
        PreviousControls::Retained
    }
}

/// How the retained initial-jump duration changes (see [`spec_initial_jump_rule`]).
pub fn initial_jump_rule(player: &PacketPlayer) -> (rule: InitialJumpRule)
    ensures
        rule == spec_initial_jump_rule(*player),
{
    if matches!(player.air_state, AirState::Jumping) {
        InitialJumpRule::Measure
    } else if !player.has_jumped {
        InitialJumpRule::Clear
    } else {
        InitialJumpRule::Keep
    }
}

/// Where a restored car's time since its jump comes from (see [`spec_air_time_source`]).
pub fn air_time_source(player: &PacketPlayer, timeout_reported: bool, flip_reset_available: bool) -> (source: AirTimeSource)
    ensures
        source == spec_air_time_source(*player, timeout_reported, flip_reset_available),
{
    if matches!(player.air_state, AirState::Jumping) || !player.has_jumped {
        AirTimeSource::Zero
    } else if timeout_reported {
        AirTimeSource::DodgeTimeout
    } else if flip_reset_available {
        AirTimeSource::Zero
    } else {
        AirTimeSource::WindowElapsed
    }
}

/// Whether a car stands on the ground: at least three wheels touch a surface.
pub fn wheels_support_car(wheels_in_contact: usize) -> (on_ground: bool)
    ensures
        on_ground == (wheels_in_contact >= 3),
{
    wheels_in_contact >= 3
}

/// RocketSim's Dropshot charge level for RLBot's (see [`spec_charge_level`]).
pub fn dropshot_charge_level(charge_level: i32) -> (level: Option<u8>)
    ensures
        level == spec_charge_level(charge_level),
{
    if charge_level < 0 {
        None
    } else {
        let byte: u32 = (charge_level as u32) % 256;
        if byte + 1 > 3 {
            Some(3)
        } else {
            Some((byte + 1) as u8)
        }
    }
}

/// The RLBot team number of a RocketSim team is accepted back as that team.
pub proof fn lemma_team_round_trip(player_index: usize, team: Team)
    ensures
        spec_team(player_index, crate::game::team_number(team)) == Ok::<Team, EnrichmentError>(team),
{
}

/// Departures and car changes rebuild the arena: when a followed participant
/// is missing from the packet, or a packet player is followed with another
/// team or body, the arena is rebuilt (RocketSim cars cannot be removed or
/// changed in place).
pub proof fn lemma_departures_and_changes_rebuild(
    layout: PlayerLayoutView,
    packet: PacketSummary,
    gravity_changed: bool,
)
    requires
        (exists|k: int| 0 <= k < layout.players.len() && !packet_has_id(packet.players@, #[trigger] layout.players[k].player_id))
        || (exists|i: int| 0 <= i < packet.players@.len() && #[trigger] player_changed(layout.context, layout.players, packet.players@, i)),
    ensures
        spec_rebuild(layout, packet, gravity_changed),
{
    if exists|i: int| 0 <= i < packet.players@.len() && #[trigger] player_changed(layout.context, layout.players, packet.players@, i) {
        let i: int = choose|i: int| 0 <= i < packet.players@.len() && #[trigger] player_changed(layout.context, layout.players, packet.players@, i);
        lemma_find_tracked_spec(layout.players, packet.players@[i].player_id, layout.players.len());
    }
}

/// Player additions keep the layout: when every followed participant is in
/// the packet with the same team and body, the frame does not go back and the
/// gravity is unchanged, the arena is not rebuilt (new players only add cars).
pub proof fn lemma_additions_keep_the_arena(
    layout: PlayerLayoutView,
    packet: PacketSummary,
    gravity_changed: bool,
)
    requires
        !gravity_changed,
        !spec_rollback(layout, packet.frame),
        packet.players@.len() >= layout.players.len(),
        forall|k: int| 0 <= k < layout.players.len() ==> packet_has_id(packet.players@, #[trigger] layout.players[k].player_id),
        forall|i: int| 0 <= i < packet.players@.len() ==> !#[trigger] player_changed(layout.context, layout.players, packet.players@, i),
    ensures
        !spec_rebuild(layout, packet, gravity_changed),
{
}

// ---------------------------------------------------------------------------
// Laws
// ---------------------------------------------------------------------------

/// Air state round trip: a packet player's air state, restored into a car
/// and reported back with the double-jump flag the update records, is the
/// same air state, as long as the simulated ground contact agrees with
/// RLBot's ground/air distinction (RLBot's air state is not contact data).
pub proof fn lemma_air_state_round_trip(player: PacketPlayer, demolished: bool, simulated_on_ground: bool)
    requires
        player.air_state == AirState::OnGround ==> !demolished && simulated_on_ground,
        player.air_state == AirState::InAir ==> demolished || !simulated_on_ground,
    ensures
        spec_air_state(
            spec_restored_flags(player, demolished, simulated_on_ground),
            player.air_state == AirState::DoubleJumping,
        ) == player.air_state,
        spec_restored_flags(player, demolished, simulated_on_ground).has_jumped == player.has_jumped,
        spec_restored_flags(player, demolished, simulated_on_ground).has_flipped == player.has_dodged,
        player.air_state != AirState::DoubleJumping ==> spec_restored_flags(
            player,
            demolished,
            simulated_on_ground,
        ).has_double_jumped == player.has_double_jumped,
{
}

/// The simulation advances only for a packet in an advancing phase whose
/// frame is newer than the latest completed frame, and never when the arena
/// is rebuilt; in particular never for the first packet, a repeated frame,
/// or a paused phase.
pub proof fn lemma_step_only_on_new_advancing_frame(
    layout: PlayerLayoutView,
    packet: PacketSummary,
    arena: ArenaSummary,
    gravity_changed: bool,
)
    ensures
        spec_plan(layout, packet, arena, gravity_changed).0.step <==> {
            &&& spec_phase_advances(packet.phase)
            &&& !spec_rebuild(layout, packet, gravity_changed)
            &&& layout.last_frame matches Some(last) && packet.frame > last
        },
        layout.last_frame is None ==> !spec_plan(layout, packet, arena, gravity_changed).0.step,
        layout.last_frame == Some(packet.frame) ==> !spec_plan(layout, packet, arena, gravity_changed).0.step,
        !spec_phase_advances(packet.phase) ==> !spec_plan(layout, packet, arena, gravity_changed).0.step,
{
}

/// A rebuilt arena discards all history, does not advance, and gives every
/// packet player a new car, numbered from zero in packet order.
pub proof fn lemma_rebuild_starts_over(
    layout: PlayerLayoutView,
    packet: PacketSummary,
    arena: ArenaSummary,
    gravity_changed: bool,
)
    requires
        spec_rebuild(layout, packet, gravity_changed),
    ensures
        spec_plan(layout, packet, arena, gravity_changed).0.rebuild,
        spec_plan(layout, packet, arena, gravity_changed).0.reset_history,
        !spec_plan(layout, packet, arena, gravity_changed).0.step,
        forall|i: int|
            0 <= i < packet.players@.len() ==> {
                let slot = #[trigger] spec_plan(layout, packet, arena, gravity_changed).0.players[i];
                slot.previous_slot is None && slot.car_index == i
            },
{
    let plan = spec_plan(layout, packet, arena, gravity_changed).0;
    let ps = packet.players@;
    let kept = after_rebuild(layout, true);
    let followed = history_kept(kept.players, spec_reset_history(kept, packet.phase));
    assert(followed =~= Seq::<TrackedPlayer>::empty());
    assert forall|i: int| 0 <= i < ps.len() implies {
        let slot = #[trigger] plan.players[i];
        slot.previous_slot is None && slot.car_index == i
    } by {
        lemma_new_before_empty(ps, i as nat);
        assert(plan.players[i] == resolved_slot(layout.context, followed, ps, 0, i));
        assert(tracked_slot(followed, ps[i].player_id) is None);
        assert(new_before(followed, ps, i as nat) == i);
        assert(i < packet.players.len());
    }
}

proof fn lemma_new_before_empty(players: Seq<PacketPlayer>, i: nat)
    requires
        i <= players.len(),
    ensures
        new_before(Seq::<TrackedPlayer>::empty(), players, i) == i,
    decreases i,
{
    if i > 0 {
        lemma_new_before_empty(players, (i - 1) as nat);
    }
}

/// History is discarded for the first packet, after a rebuild, and when play
/// resumes after a phase in which the simulation did not run.
pub proof fn lemma_history_reset_cases(
    layout: PlayerLayoutView,
    packet: PacketSummary,
    arena: ArenaSummary,
    gravity_changed: bool,
)
    ensures
        spec_plan(layout, packet, arena, gravity_changed).0.reset_history <==> {
            ||| layout.last_frame is None
            ||| spec_rebuild(layout, packet, gravity_changed)
            ||| spec_resumed(layout, packet.phase)
        },
{
}

/// What one packet player's entry of a plan is, in terms of the followed
/// participants after the optional rebuild and history reset.
proof fn lemma_slot_facts(
    layout: PlayerLayoutView,
    packet: PacketSummary,
    arena: ArenaSummary,
    gravity_changed: bool,
    a: int,
)
    requires
        0 <= a < packet.players@.len(),
        arena.car_count + packet.players@.len() <= usize::MAX,
    ensures
        ({
            let rebuild = spec_rebuild(layout, packet, gravity_changed);
            let kept = after_rebuild(layout, rebuild);
            let followed = history_kept(kept.players, spec_reset_history(kept, packet.phase));
            let base: nat = if rebuild {
                0
            } else {
                arena.car_count as nat
            };
            let ps = packet.players@;
            let result = spec_plan(layout, packet, arena, gravity_changed);
            let slot = result.0.players[a];
            let after = result.1.players[a];
            &&& followed.len() == kept.players.len()
            &&& after.player_id == ps[a].player_id
            &&& after.car_index == slot.car_index
            &&& match tracked_slot(kept.players, ps[a].player_id) {
                Some(k) => {
                    &&& 0 <= k < kept.players.len()
                    &&& slot.previous_slot == Some(k as usize)
                    &&& kept.players[k].player_id == ps[a].player_id
                    &&& slot.car_index == kept.players[k].car_index
                },
                None => {
                    &&& slot.previous_slot is None
                    &&& slot.team == player_team(ps[a])
                    &&& slot.body == player_body(layout.context, a, ps[a])
                    &&& slot.car_index == base + new_before(followed, ps, a as nat)
                    &&& new_before(followed, ps, (a + 1) as nat) == new_before(followed, ps, a as nat) + 1
                    &&& forall|j: int| 0 <= j < kept.players.len() ==> kept.players[j].player_id != ps[a].player_id
                },
            }
        }),
{
    let rebuild = spec_rebuild(layout, packet, gravity_changed);
    let kept = after_rebuild(layout, rebuild);
    let reset = spec_reset_history(kept, packet.phase);
    let followed = history_kept(kept.players, reset);
    let base: nat = if rebuild {
        0
    } else {
        arena.car_count as nat
    };
    let ps = packet.players@;
    let result = spec_plan(layout, packet, arena, gravity_changed);
    assert(result.0.players[a] == resolved_slot(layout.context, followed, ps, base, a));
    assert(result.1.players[a] == tracked_after(result.0.players[a], ps[a]));
    lemma_history_kept_find(kept.players, reset, ps[a].player_id, kept.players.len());
    lemma_find_tracked_spec(kept.players, ps[a].player_id, kept.players.len());
    lemma_new_before_monotone(followed, ps, a as nat, ps.len());
    lemma_new_before_monotone(followed, ps, 0, a as nat);
    assert(followed.len() == kept.players.len());
    if let Some(k) = tracked_slot(kept.players, ps[a].player_id) {
        assert(followed[k].car_index == kept.players[k].car_index);
    } else {
        assert(tracked_slot(followed, ps[a].player_id) is None);
        assert(new_before(followed, ps, (a + 1) as nat) == new_before(followed, ps, a as nat) + 1);
    }
}

/// Identity by participant ID: without a rebuild, a packet player whose ID
/// was followed keeps that participant's car (whatever its packet position),
/// and a player whose ID was not followed gets a car appended after the
/// arena's existing cars, with the player's own team and body.
pub proof fn lemma_participants_keep_their_cars(
    layout: PlayerLayoutView,
    packet: PacketSummary,
    arena: ArenaSummary,
    gravity_changed: bool,
    i: int,
)
    requires
        !spec_rebuild(layout, packet, gravity_changed),
        0 <= i < packet.players@.len(),
        arena.car_count + packet.players@.len() <= usize::MAX,
    ensures
        ({
            let slot = spec_plan(layout, packet, arena, gravity_changed).0.players[i];
            match tracked_slot(layout.players, packet.players@[i].player_id) {
                Some(k) => {
                    &&& slot.previous_slot == Some(k as usize)
                    &&& layout.players[k].player_id == packet.players@[i].player_id
                    &&& slot.car_index == layout.players[k].car_index
                },
                None => {
                    &&& slot.previous_slot is None
                    &&& slot.car_index >= arena.car_count
                    &&& slot.team == player_team(packet.players@[i])
                    &&& slot.body == player_body(layout.context, i, packet.players@[i])
                },
            }
        }),
        spec_plan(layout, packet, arena, gravity_changed).1.players[i].player_id
            == packet.players@[i].player_id,
        spec_plan(layout, packet, arena, gravity_changed).1.players[i].car_index == spec_plan(
            layout,
            packet,
            arena,
            gravity_changed,
        ).0.players[i].car_index,
{
    lemma_slot_facts(layout, packet, arena, gravity_changed, i);
}

/// The history an update records follows the packet: each followed
/// participant is double jumping exactly when its packet player's air state
/// is a double jump, and holds a flip reset exactly when its packet player is
/// airborne without having jumped, double jumped or dodged.
pub proof fn lemma_history_flags_follow_the_packet(
    layout: PlayerLayoutView,
    packet: PacketSummary,
    arena: ArenaSummary,
    gravity_changed: bool,
    i: int,
)
    requires
        0 <= i < packet.players@.len(),
    ensures
        spec_plan(layout, packet, arena, gravity_changed).1.players.len() == packet.players@.len(),
        spec_plan(layout, packet, arena, gravity_changed).1.players[i].double_jump_active == (
        packet.players@[i].air_state == AirState::DoubleJumping),
        spec_plan(layout, packet, arena, gravity_changed).1.players[i].flip_reset_available
            == holds_flip_reset(packet.players@[i]),
{
}

/// A flip reset is held only in the air: a player on the ground, jumping,
/// double jumping or dodging never holds one, nor does a player who has
/// jumped, double jumped or dodged; an airborne player who has done none of
/// these holds one.
pub proof fn lemma_flip_reset_only_in_the_air(player: PacketPlayer)
    ensures
        holds_flip_reset(player) ==> player.air_state == AirState::InAir,
        player.air_state != AirState::InAir ==> !holds_flip_reset(player),
        player.has_jumped || player.has_double_jumped || player.has_dodged ==> !holds_flip_reset(player),
        player.air_state == AirState::InAir && !player.has_jumped && !player.has_double_jumped
            && !player.has_dodged ==> holds_flip_reset(player),
{
}

/// After an update, each followed participant is the packet player at the
/// same position, with that player's own team and body and the history flags
/// its packet state shows: double jumping exactly in a double jump, and
/// holding a flip reset only when airborne without having jumped, double
/// jumped or dodged.
pub proof fn lemma_followed_players_match_the_packet(
    layout: PlayerLayoutView,
    packet: PacketSummary,
    arena: ArenaSummary,
    gravity_changed: bool,
    i: int,
)
    requires
        0 <= i < packet.players@.len(),
    ensures
        ({
            let p = packet.players@[i];
            let t = spec_plan(layout, packet, arena, gravity_changed).1.players[i];
            &&& spec_plan(layout, packet, arena, gravity_changed).1.players.len()
                == packet.players@.len()
            &&& t.player_id == p.player_id
            &&& t.team == (if p.team == 0 { Team::Blue } else { Team::Orange })
            &&& t.body == player_body(layout.context, i, p)
            &&& t.double_jump_active <==> p.air_state == AirState::DoubleJumping
            &&& t.flip_reset_available <==> (p.air_state == AirState::InAir && !p.has_jumped
                && !p.has_double_jumped && !p.has_dodged)
        }),
{
    let rebuild = spec_rebuild(layout, packet, gravity_changed);
    let kept = after_rebuild(layout, rebuild);
    let reset = spec_reset_history(kept, packet.phase);
    let followed = history_kept(kept.players, reset);
    let base: nat = if rebuild {
        0
    } else {
        arena.car_count as nat
    };
    let ps = packet.players@;
    let result = spec_plan(layout, packet, arena, gravity_changed);
    let id = ps[i].player_id;
    assert(result.0.players[i] == resolved_slot(layout.context, followed, ps, base, i));
    assert(result.1.players[i] == tracked_after(result.0.players[i], ps[i]));
    lemma_history_kept_find(kept.players, reset, id, kept.players.len());
    lemma_find_tracked_spec(kept.players, id, kept.players.len());
    assert(followed.len() == kept.players.len());
    if let Some(k) = tracked_slot(kept.players, id) {
        assert(kept.players.len() > 0);
        assert(!rebuild);
        assert(kept == layout);
        assert(!spec_layout_changed(layout.context, layout.players, ps));
        assert(!player_changed(layout.context, layout.players, ps, i));
        assert(followed[k].team == kept.players[k].team);
        assert(followed[k].body == kept.players[k].body);
    }
}

/// The same players again: once an update is completed, a later packet of
/// the same phase with the same players (IDs, teams, hitboxes) and unchanged
/// gravity keeps the layout: no rebuild, no history reset, every player keeps
/// its car, and the simulation advances exactly when the frame is newer and
/// the phase is kickoff or active play.
pub proof fn lemma_same_players_keep_the_layout(
    layout: PlayerLayoutView,
    first: PacketSummary,
    arena: ArenaSummary,
    gravity_changed: bool,
    next: PacketSummary,
    next_arena: ArenaSummary,
)
    requires
        packet_error(layout.context, first, arena) is None,
        next.players@ == first.players@,
        next.frame >= first.frame,
        next.phase == first.phase,
    ensures
        ({
            let done = completed_layout(layout, first, arena, gravity_changed);
            let plan = spec_plan(done, next, next_arena, false).0;
            &&& !plan.rebuild
            &&& !plan.reset_history
            &&& plan.step <==> (next.frame > first.frame && (next.phase == MatchPhase::Kickoff
                || next.phase == MatchPhase::Active))
            &&& forall|i: int|
                0 <= i < next.players@.len() ==> (#[trigger] plan.players[i]).previous_slot == Some(
                    i as usize,
                ) && plan.players[i].car_index == done.players[i].car_index
        }),
{
    let done = completed_layout(layout, first, arena, gravity_changed);
    let ps = first.players@;
    lemma_no_duplicate_ids(layout.context, ps);
    assert(done.players.len() == ps.len());
    assert forall|i: int| 0 <= i < ps.len() implies tracked_slot(done.players, #[trigger] ps[i].player_id)
        == Some(i) by {
        lemma_followed_players_match_the_packet(layout, first, arena, gravity_changed, i);
        lemma_find_tracked_spec(done.players, ps[i].player_id, done.players.len());
        if let Some(k) = tracked_slot(done.players, ps[i].player_id) {
            lemma_followed_players_match_the_packet(layout, first, arena, gravity_changed, k);
            if k != i {
                assert(ps[k].player_id == ps[i].player_id);
                if k < i {
                    assert(ps[k].player_id != ps[i].player_id);
                } else {
                    assert(ps[i].player_id != ps[k].player_id);
                }
            }
        } else {
            assert(done.players[i].player_id == ps[i].player_id);
        }
    }
    assert forall|i: int| 0 <= i < ps.len() implies !#[trigger] player_changed(
        done.context,
        done.players,
        ps,
        i,
    ) by {
        lemma_followed_players_match_the_packet(layout, first, arena, gravity_changed, i);
    }
    assert forall|k: int| 0 <= k < done.players.len() implies packet_has_id(
        ps,
        #[trigger] done.players[k].player_id,
    ) by {
        lemma_followed_players_match_the_packet(layout, first, arena, gravity_changed, k);
        assert(ps[k].player_id == done.players[k].player_id);
    }
    assert(!spec_layout_changed(done.context, done.players, next.players@));
    let kept = after_rebuild(done, false);
    let followed = history_kept(kept.players, false);
    assert forall|i: int| 0 <= i < ps.len() implies (#[trigger] spec_plan(
        done,
        next,
        next_arena,
        false,
    ).0.players[i]).previous_slot == Some(i as usize) && spec_plan(done, next, next_arena, false).0.players[i].car_index
        == done.players[i].car_index by {
        assert(spec_plan(done, next, next_arena, false).0.players[i] == resolved_slot(
            done.context,
            followed,
            ps,
            next_arena.car_count as nat,
            i,
        ));
    }
}

/// The simulation never advances outside kickoff and active play, and play
/// resuming from a halted phase (such as the kickoff countdown) into kickoff
/// or active play discards history.
pub proof fn lemma_halted_phases_never_step(
    layout: PlayerLayoutView,
    packet: PacketSummary,
    arena: ArenaSummary,
    gravity_changed: bool,
)
    ensures
        spec_plan(layout, packet, arena, gravity_changed).0.step ==> (packet.phase == MatchPhase::Kickoff
            || packet.phase == MatchPhase::Active),
        (packet.phase == MatchPhase::Kickoff || packet.phase == MatchPhase::Active) && (
        layout.last_phase == Some(MatchPhase::Countdown) || layout.last_phase == Some(MatchPhase::Paused)
            || layout.last_phase == Some(MatchPhase::GoalScored) || layout.last_phase == Some(
            MatchPhase::Replay,
        )) ==> spec_plan(layout, packet, arena, gravity_changed).0.reset_history,
{
}

/// Whether the followed participants have distinct IDs and distinct cars,
/// all among the first `car_count` cars of the arena.
pub open spec fn layout_well_formed(players: Seq<TrackedPlayer>, car_count: nat) -> bool {
    &&& forall|a: int, b: int|
        0 <= a < b < players.len() ==> #[trigger] players[a].player_id != #[trigger] players[b].player_id
    &&& forall|a: int, b: int|
        0 <= a < b < players.len() ==> #[trigger] players[a].car_index != #[trigger] players[b].car_index
    &&& forall|a: int| 0 <= a < players.len() ==> #[trigger] players[a].car_index < car_count
}

/// At most `i` of the first `i` packet players are new.
pub proof fn lemma_new_before_bounded(followed: Seq<TrackedPlayer>, players: Seq<PacketPlayer>, i: nat)
    requires
        i <= players.len(),
    ensures
        new_before(followed, players, i) <= i,
    decreases i,
{
    if i > 0 {
        lemma_new_before_bounded(followed, players, (i - 1) as nat);
    }
}

proof fn lemma_new_before_monotone(followed: Seq<TrackedPlayer>, players: Seq<PacketPlayer>, a: nat, b: nat)
    requires
        a <= b <= players.len(),
    ensures
        new_before(followed, players, a) <= new_before(followed, players, b),
        new_before(followed, players, b) <= new_before(followed, players, a) + (b - a),
    decreases b - a,
{
    if a < b {
        lemma_new_before_monotone(followed, players, a, (b - 1) as nat);
    }
}

/// The followed participants stay well formed: after an accepted packet they
/// have distinct IDs and distinct cars, all among the cars the arena has once
/// the plan's new cars are added.
pub proof fn lemma_layout_stays_well_formed(
    layout: PlayerLayoutView,
    packet: PacketSummary,
    arena: ArenaSummary,
    gravity_changed: bool,
)
    requires
        packet_error(layout.context, packet, arena) is None,
        layout_well_formed(layout.players, arena.car_count as nat),
        arena.car_count + packet.players@.len() <= usize::MAX,
    ensures
        ({
            let rebuild = spec_rebuild(layout, packet, gravity_changed);
            let kept = after_rebuild(layout, rebuild);
            let followed = history_kept(kept.players, spec_reset_history(kept, packet.phase));
            let base: nat = if rebuild {
                0
            } else {
                arena.car_count as nat
            };
            layout_well_formed(
                spec_plan(layout, packet, arena, gravity_changed).1.players,
                base + new_before(followed, packet.players@, packet.players@.len()),
            )
        }),
{
    let rebuild = spec_rebuild(layout, packet, gravity_changed);
    let kept = after_rebuild(layout, rebuild);
    let reset = spec_reset_history(kept, packet.phase);
    let followed = history_kept(kept.players, reset);
    let base: nat = if rebuild {
        0
    } else {
        arena.car_count as nat
    };
    let ps = packet.players@;
    let n: nat = ps.len();
    let total: nat = base + new_before(followed, ps, n);
    let result = spec_plan(layout, packet, arena, gravity_changed);
    let plan = result.0;
    let after = result.1.players;
    lemma_no_duplicate_ids(layout.context, ps);
    assert(layout_well_formed(kept.players, base));
    assert forall|a: int| 0 <= a < n implies #[trigger] after[a].car_index < total by {
        lemma_slot_facts(layout, packet, arena, gravity_changed, a);
        lemma_new_before_monotone(followed, ps, (a + 1) as nat, n);
    }
    assert forall|a: int, b: int| 0 <= a < b < n implies #[trigger] after[a].car_index
        != #[trigger] after[b].car_index by {
        lemma_slot_facts(layout, packet, arena, gravity_changed, a);
        lemma_slot_facts(layout, packet, arena, gravity_changed, b);
        lemma_new_before_monotone(followed, ps, (a + 1) as nat, b as nat);
        assert(ps[a].player_id != ps[b].player_id);
        match (tracked_slot(kept.players, ps[a].player_id), tracked_slot(kept.players, ps[b].player_id)) {
            (Some(ka), Some(kb)) => {
                assert(ka != kb);
                if ka < kb {
                    assert(kept.players[ka].car_index != kept.players[kb].car_index);
                } else {
                    assert(kept.players[kb].car_index != kept.players[ka].car_index);
                }
            },
            (None, Some(kb)) => {
                assert(kept.players[kb].car_index < base);
            },
            (Some(ka), None) => {
                assert(kept.players[ka].car_index < base);
            },
            (None, None) => {},
        }
    }
    assert forall|a: int, b: int| 0 <= a < b < n implies #[trigger] after[a].player_id
        != #[trigger] after[b].player_id by {
        lemma_slot_facts(layout, packet, arena, gravity_changed, a);
        lemma_slot_facts(layout, packet, arena, gravity_changed, b);
    }
}

/// An accepted packet has no two players with the same ID.
/// The layout once an update's plan is carried out and the update completed.
pub open spec fn completed_layout(
    layout: PlayerLayoutView,
    packet: PacketSummary,
    arena: ArenaSummary,
    gravity_changed: bool,
) -> PlayerLayoutView {
    PlayerLayoutView {
        last_frame: Some(packet.frame),
        last_phase: Some(packet.phase),
        ..spec_plan(layout, packet, arena, gravity_changed).1
    }
}

/// The number of cars the arena has once an update's plan is carried out:
/// the cars kept (none after a rebuild) and one per new participant.
pub open spec fn planned_car_count(
    layout: PlayerLayoutView,
    packet: PacketSummary,
    arena: ArenaSummary,
    gravity_changed: bool,
) -> nat {
    let rebuild = spec_rebuild(layout, packet, gravity_changed);
    let kept = after_rebuild(layout, rebuild);
    let followed = history_kept(kept.players, spec_reset_history(kept, packet.phase));
    let base: nat = if rebuild {
        0
    } else {
        arena.car_count as nat
    };
    base + new_before(followed, packet.players@, packet.players@.len())
}

/// The layout after a sequence of completed updates, each given by its
/// packet, the arena it was planned against, and whether gravity changed.
pub open spec fn run_updates(
    layout: PlayerLayoutView,
    updates: Seq<(PacketSummary, ArenaSummary, bool)>,
) -> PlayerLayoutView
    decreases updates.len(),
{
    if updates.len() == 0 {
        layout
    } else {
        let u = updates.last();
        completed_layout(run_updates(layout, updates.drop_last()), u.0, u.1, u.2)
    }
}

/// Whether every update of a sequence is accepted, and each one after the
/// first is planned against the arena the previous plan left (its car count
/// is the previous plan's [`planned_car_count`]).
pub open spec fn updates_follow_the_arena(
    layout: PlayerLayoutView,
    updates: Seq<(PacketSummary, ArenaSummary, bool)>,
) -> bool
    decreases updates.len(),
{
    if updates.len() == 0 {
        true
    } else {
        let earlier = updates.drop_last();
        let u = updates.last();
        &&& updates_follow_the_arena(layout, earlier)
        &&& packet_error(run_updates(layout, earlier).context, u.0, u.1) is None
        &&& u.1.car_count + u.0.players@.len() <= usize::MAX
        &&& earlier.len() > 0 ==> {
            let p = earlier.last();
            u.1.car_count == planned_car_count(run_updates(layout, earlier.drop_last()), p.0, p.1, p.2)
        }
    }
}

/// The followed participants stay well formed across any sequence of
/// accepted updates whose arena follows the plans: after each update they
/// have distinct IDs and distinct cars, all among the cars the arena has once
/// that update's plan is carried out. A new layout follows nobody, so the
/// requirement on the starting layout holds for it.
pub proof fn lemma_layout_well_formed_across_updates(
    layout: PlayerLayoutView,
    updates: Seq<(PacketSummary, ArenaSummary, bool)>,
)
    requires
        updates.len() > 0,
        layout_well_formed(layout.players, updates[0].1.car_count as nat),
        updates_follow_the_arena(layout, updates),
    ensures
        layout_well_formed(
            run_updates(layout, updates).players,
            planned_car_count(
                run_updates(layout, updates.drop_last()),
                updates.last().0,
                updates.last().1,
                updates.last().2,
            ),
        ),
    decreases updates.len(),
{
    let earlier = updates.drop_last();
    let u = updates.last();
    if earlier.len() > 0 {
        assert(earlier[0] == updates[0]);
        lemma_layout_well_formed_across_updates(layout, earlier);
    }
    let prev = run_updates(layout, earlier);
    lemma_layout_stays_well_formed(prev, u.0, u.1, u.2);
}

proof fn lemma_no_duplicate_ids(ctx: Option<MatchContextView>, players: Seq<PacketPlayer>)
    requires
        first_player_error(ctx, players, players.len()) is None,
    ensures
        forall|a: int, b: int|
            0 <= a < b < players.len() ==> #[trigger] players[a].player_id != #[trigger] players[b].player_id,
{
    assert forall|a: int, b: int| 0 <= a < b < players.len() implies #[trigger] players[a].player_id
        != #[trigger] players[b].player_id by {
        lemma_first_player_error_prefix(ctx, players, (b + 1) as nat, players.len());
        assert(first_player_error(ctx, players, (b + 1) as nat) is None);
        assert(player_error(ctx, players, b) is None);
    }
}

proof fn lemma_first_player_error_prefix(ctx: Option<MatchContextView>, players: Seq<PacketPlayer>, m: nat, n: nat)
    requires
        m <= n <= players.len(),
        first_player_error(ctx, players, n) is None,
    ensures
        first_player_error(ctx, players, m) is None,
    decreases n - m,
{
    if m < n {
        lemma_first_player_error_prefix(ctx, players, m, (n - 1) as nat);
    }
}

impl PlayerLayout {
    /// A layout that follows nobody yet, using `context` (if any) to decide
    /// each participant's body.
    pub fn new(context: Option<MatchContext>) -> (layout: PlayerLayout)
        ensures
            layout@.context == (match context {
                Some(c) => Some(c@),
                None => None::<MatchContextView>,
            }),
            layout@.players == Seq::<TrackedPlayer>::empty(),
            layout@.last_frame is None,
            layout@.last_phase is None,
    {
        PlayerLayout { context, players: Vec::new(), last_frame: None, last_phase: None }
    }

    /// Whether a match context decides bodies and ball and pad counts.
    pub fn has_context(&self) -> (has: bool)
        ensures
            has == self@.context is Some,
    {
        self.context.is_some()
    }

    /// The number of followed participants.
    pub fn num_players(&self) -> (n: usize)
        ensures
            n == self@.players.len(),
    {
        self.players.len()
    }

    /// The followed participant at a packet position of the latest update.
    pub fn tracked_player(&self, packet_player_index: usize) -> (t: Option<TrackedPlayer>)
        ensures
            packet_player_index < self@.players.len() ==> t == Some(
                self@.players[packet_player_index as int],
            ),
            packet_player_index >= self@.players.len() ==> t is None,
    {
        if packet_player_index < self.players.len() {
            Some(self.players[packet_player_index])
        } else {
            None
        }
    }

    /// The packet position of the followed participant with `player_id`.
    pub fn position_of_player_id(&self, player_id: i32) -> (r: Option<usize>)
        ensures
            match r {
                Some(k) => tracked_slot(self@.players, player_id) == Some(k as int),
                None => tracked_slot(self@.players, player_id) is None,
            },
    {
        find_tracked_index(&self.players, player_id)
    }

    /// The car of the participant at a packet position of the latest update.
    pub fn car_index(&self, packet_player_index: usize) -> (r: Option<usize>)
        ensures
            packet_player_index < self@.players.len() ==> r == Some(
                self@.players[packet_player_index as int].car_index,
            ),
            packet_player_index >= self@.players.len() ==> r is None,
    {
        if packet_player_index < self.players.len() {
            Some(self.players[packet_player_index].car_index)
        } else {
            None
        }
    }

    /// The car of the participant with `player_id`.
    pub fn car_index_by_player_id(&self, player_id: i32) -> (r: Option<usize>)
        ensures
            match tracked_slot(self@.players, player_id) {
                Some(k) => r == Some(self@.players[k].car_index),
                None => r is None,
            },
    {
        match find_tracked_index(&self.players, player_id) {
            Some(k) => Some(self.players[k].car_index),
            None => None,
        }
    }

    /// The body a packet player's car must have (`None`: the default body).
    fn body_for_player(&self, player_index: usize, player: &PacketPlayer) -> (r: Result<
        Option<CarBodyKind>,
        EnrichmentError,
    >)
        ensures
            r == spec_player_body(self@.context, player_index, *player),
    {
        match &self.context {
            None => Ok(None),
            Some(context) => match context.body_config_for_packet_player(
                player_index,
                player.player_id,
                player.team,
                player.hitbox,
            ) {
                Ok(body) => Ok(Some(body)),
                Err(e) => Err(EnrichmentError::MatchContext(e)),
            },
        }
    }

    /// Checks a packet (see [`packet_error`]) and returns each player's team
    /// and body.
    fn validate_packet(&self, packet: &PacketSummary, arena: &ArenaSummary) -> (r: Result<
        Vec<(Team, Option<CarBodyKind>)>,
        EnrichmentError,
    >)
        ensures
            match r {
                Ok(tb) => {
                    &&& packet_error(self@.context, *packet, *arena) is None
                    &&& tb@.len() == packet.players@.len()
                    &&& forall|i: int|
                        0 <= i < tb@.len() ==> #[trigger] tb@[i] == (
                            player_team(packet.players@[i]),
                            player_body(self@.context, i, packet.players@[i]),
                        )
                },
                Err(e) => packet_error(self@.context, *packet, *arena) == Some(e),
            },
    {
        let has_context = self.context.is_some();
        let ball_count: usize = packet.balls.len();
        if has_context && ball_count != 1 {
            return Err(EnrichmentError::BallCount { count: ball_count });
        }
        if ball_count == 1 {
            match check_ball_shape(&packet.balls[0], arena.game_mode) {
                Ok(()) => {},
                Err(e) => return Err(e),
            }
        }
        if has_context && packet.boost_pad_count != arena.boost_pad_count {
            return Err(
                EnrichmentError::MatchContext(
                    MatchContextError::BoostPadCountMismatch {
                        packet: packet.boost_pad_count,
                        arena: arena.boost_pad_count,
                    },
                ),
            );
        }
        let players = &packet.players;
        let ghost ps = players@;
        let ghost ctx = self@.context;
        let mut out: Vec<(Team, Option<CarBodyKind>)> = Vec::new();
        let mut i: usize = 0;
        while i < players.len()
            invariant
                ps == players@,
                ps == packet.players@,
                ctx == self@.context,
                i <= ps.len(),
                first_player_error(ctx, ps, i as nat) is None,
                packet_error(ctx, *packet, *arena) == first_player_error(ctx, ps, ps.len()),
                out@.len() == i,
                forall|k: int|
                    0 <= k < i ==> #[trigger] out@[k] == (player_team(ps[k]), player_body(ctx, k, ps[k])),
            decreases ps.len() - i,
        {
            let player = &players[i];
            let mut j: usize = 0;
            while j < i
                invariant
                    ps == players@,
                    ps == packet.players@,
                    ctx == self@.context,
                    i < ps.len(),
                    j <= i,
                    *player == ps[i as int],
                    first_player_error(ctx, ps, i as nat) is None,
                    packet_error(ctx, *packet, *arena) == first_player_error(ctx, ps, ps.len()),
                    forall|k: int| 0 <= k < j ==> ps[k].player_id != ps[i as int].player_id,
                decreases i - j,
            {
                if players[j].player_id == player.player_id {
                    proof {
                        assert(ps[j as int].player_id == ps[i as int].player_id);
                        lemma_first_player_error_step(ctx, ps, i as nat);
                    }
                    return Err(EnrichmentError::DuplicatePlayerId { player_id: player.player_id });
                }
                j += 1;
            }
            assert(!exists|k: int| 0 <= k < i && ps[k].player_id == ps[i as int].player_id);
            let team = match team_from_rlbot(i, player.team) {
                Ok(team) => team,
                Err(e) => {
                    proof {
                        lemma_first_player_error_step(ctx, ps, i as nat);
                    }
                    return Err(e);
                },
            };
            let body = match self.body_for_player(i, player) {
                Ok(body) => body,
                Err(e) => {
                    proof {
                        lemma_first_player_error_step(ctx, ps, i as nat);
                    }
                    return Err(e);
                },
            };
            proof {
                lemma_first_player_error_step(ctx, ps, i as nat);
            }
            out.push((team, body));
            i += 1;
        }
        Ok(out)
    }

    /// Whether the packet's players cannot be followed by the existing cars
    /// (see [`spec_layout_changed`]); `tb` holds each player's team and body.
    fn layout_changed(&self, players: &Vec<PacketPlayer>, tb: &Vec<(Team, Option<CarBodyKind>)>) -> (changed: bool)
        requires
            tb@.len() == players@.len(),
            forall|i: int|
                0 <= i < tb@.len() ==> #[trigger] tb@[i] == (
                    player_team(players@[i]),
                    player_body(self@.context, i, players@[i]),
                ),
        ensures
            changed == spec_layout_changed(self@.context, self@.players, players@),
    {
        let ghost ctx = self@.context;
        let ghost followed = self@.players;
        let ghost ps = players@;
        if self.players.len() == 0 {
            return false;
        }
        if players.len() < self.players.len() {
            return true;
        }
        let mut k: usize = 0;
        while k < self.players.len()
            invariant
                followed == self@.players,
                ps == players@,
                k <= followed.len(),
                forall|m: int| 0 <= m < k ==> packet_has_id(ps, #[trigger] followed[m].player_id),
            decreases followed.len() - k,
        {
            if !packet_contains_id(players, self.players[k].player_id) {
                return true;
            }
            k += 1;
        }
        let mut i: usize = 0;
        while i < players.len()
            invariant
                followed == self@.players,
                ps == players@,
                ctx == self@.context,
                followed.len() > 0,
                ps.len() >= followed.len(),
                forall|m: int| 0 <= m < followed.len() ==> packet_has_id(ps, #[trigger] followed[m].player_id),
                tb@.len() == ps.len(),
                forall|n: int|
                    0 <= n < tb@.len() ==> #[trigger] tb@[n] == (player_team(ps[n]), player_body(ctx, n, ps[n])),
                i <= ps.len(),
                forall|n: int| 0 <= n < i ==> !#[trigger] player_changed(ctx, followed, ps, n),
            decreases ps.len() - i,
        {
            match find_tracked_index(&self.players, players[i].player_id) {
                Some(slot) => {
                    let (team, body) = tb[i];
                    assert(tb@[i as int] == (player_team(ps[i as int]), player_body(ctx, i as int, ps[i as int])));
                    if self.players[slot].team != team || self.players[slot].body != body {
                        assert(player_changed(ctx, followed, ps, i as int));
                        return true;
                    }
                },
                None => {},
            }
            i += 1;
        }
        false
    }

    /// Decides what the arena owner must do for `packet`, and updates the
    /// layout accordingly (see [`spec_plan`]). A rejected packet (see
    /// [`packet_error`]) leaves the layout unchanged.
    ///
    /// `gravity_changed` tells whether the packet's gravity differs from the
    /// arena's; `arena.car_count` is the number of cars in the arena, which
    /// new cars are appended after (after a rebuild, the fresh arena has none).
    pub fn plan_update(
        &mut self,
        packet: &PacketSummary,
        arena: ArenaSummary,
        gravity_changed: bool,
    ) -> (r: Result<UpdatePlan, EnrichmentError>)
        requires
            arena.car_count + packet.players@.len() <= usize::MAX,
        ensures
            match r {
                Ok(plan) => {
                    &&& packet_error(old(self)@.context, *packet, arena) is None
                    &&& (plan@, final(self)@) == spec_plan(
                        old(self)@,
                        *packet,
                        arena,
                        gravity_changed,
                    )
                },
                Err(e) => {
                    &&& packet_error(old(self)@.context, *packet, arena) == Some(e)
                    &&& final(self)@ == old(self)@
                },
            },
    {
        let tb = match self.validate_packet(packet, &arena) {
            Ok(tb) => tb,
            Err(e) => return Err(e),
        };
        let ghost old_view = self@;
        let rollback = match self.last_frame {
            Some(last) => packet.frame < last,
            None => false,
        };
        let layout_changed = self.layout_changed(&packet.players, &tb);
        let rebuild = rollback || layout_changed || gravity_changed;
        if rebuild {
            self.players = Vec::new();
            self.last_frame = None;
            self.last_phase = None;
        }
        let ghost kept = self@;
        assert(kept == after_rebuild(old_view, rebuild));
        let advances = phase_advances(packet.phase);
        let resumed = advances && match self.last_phase {
            Some(last) => !phase_advances(last),
            None => false,
        };
        let reset_history = self.last_frame.is_none() || resumed;
        let step = advances && match self.last_frame {
            Some(last) => packet.frame > last,
            None => false,
        };

        // Take the followed participants, discarding history when asked.
        let mut previous: Vec<TrackedPlayer> = Vec::new();
        std::mem::swap(&mut previous, &mut self.players);
        let ghost prev0 = previous@;
        assert(prev0 == kept.players);
        if reset_history {
            let mut cleared: Vec<TrackedPlayer> = Vec::new();
            let mut k: usize = 0;
            while k < previous.len()
                invariant
                    prev0 == previous@,
                    k <= prev0.len(),
                    cleared@ == prev0.take(k as int).map_values(|t: TrackedPlayer| without_history(t)),
                decreases prev0.len() - k,
            {
                let t = previous[k];
                cleared.push(
                    TrackedPlayer {
                        car_index: t.car_index,
                        player_id: t.player_id,
                        team: t.team,
                        body: t.body,
                        double_jump_active: false,
                        flip_reset_available: false,
                    },
                );
                proof {
                    assert(prev0.take(k + 1) == prev0.take(k as int).push(prev0[k as int]));
                }
                k += 1;
            }
            proof {
                assert(prev0.take(prev0.len() as int) == prev0);
            }
            previous = cleared;
        }
        let ghost followed = previous@;
        assert(followed == history_kept(kept.players, reset_history));

        // Resolve each packet player to a car.
        let base: usize = if rebuild {
            0
        } else {
            arena.car_count
        };
        let players = &packet.players;
        let ghost ps = players@;
        let ghost ctx = old_view.context;
        let mut slots: Vec<ResolvedPlayer> = Vec::new();
        let mut next: Vec<TrackedPlayer> = Vec::new();
        let mut added: usize = 0;
        let mut i: usize = 0;
        while i < players.len()
            invariant
                ps == players@,
                ps == packet.players@,
                followed == previous@,
                base as nat + ps.len() <= usize::MAX,
                tb@.len() == ps.len(),
                forall|n: int|
                    0 <= n < tb@.len() ==> #[trigger] tb@[n] == (player_team(ps[n]), player_body(ctx, n, ps[n])),
                i <= ps.len(),
                added == new_before(followed, ps, i as nat),
                added <= i,
                slots@.len() == i,
                next@.len() == i,
                forall|n: int|
                    0 <= n < i ==> #[trigger] slots@[n] == resolved_slot(ctx, followed, ps, base as nat, n),
                forall|n: int| 0 <= n < i ==> #[trigger] next@[n] == tracked_after(slots@[n], ps[n]),
            decreases ps.len() - i,
        {
            let player = &players[i];
            let slot = match find_tracked_index(&previous, player.player_id) {
                Some(k) => {
                    let t = previous[k];
                    ResolvedPlayer {
                        car_index: t.car_index,
                        previous_slot: Some(k),
                        team: t.team,
                        body: t.body,
                        flip_reset_available: t.flip_reset_available,
                    }
                },
                None => {
                    let (team, body) = tb[i];
                    assert(tb@[i as int] == (player_team(ps[i as int]), player_body(ctx, i as int, ps[i as int])));
                    let car_index: usize = base + added;
                    added = added + 1;
                    ResolvedPlayer {
                        car_index,
                        previous_slot: None,
                        team,
                        body,
                        flip_reset_available: false,
                    }
                },
            };
            assert(slot == resolved_slot(ctx, followed, ps, base as nat, i as int));
            next.push(
                TrackedPlayer {
                    car_index: slot.car_index,
                    player_id: player.player_id,
                    team: slot.team,
                    body: slot.body,
                    double_jump_active: matches!(player.air_state, AirState::DoubleJumping),
                    flip_reset_available: flip_reset_available(player),
                },
            );
            slots.push(slot);
            i += 1;
        }
        self.players = next;
        let plan = UpdatePlan { rebuild, reset_history, step, players: slots };
        proof {
            let expected = spec_plan(old_view, *packet, arena, gravity_changed);
            assert(plan@.players =~= expected.0.players);
            assert(self@.players =~= expected.1.players);
        }
        Ok(plan)
    }

    /// Records a completed update: the packet's frame and phase become the
    /// latest ones, and each packet player is reported with its car.
    pub fn complete_update(&mut self, frame: u32, phase: MatchPhase) -> (enriched: Vec<EnrichedPlayer>)
        ensures
            final(self)@ == (PlayerLayoutView {
                last_frame: Some(frame),
                last_phase: Some(phase),
                ..old(self)@
            }),
            enriched@.len() == old(self)@.players.len(),
            forall|i: int|
                0 <= i < enriched@.len() ==> #[trigger] enriched@[i] == (EnrichedPlayer {
                    player_index: i as usize,
                    car_index: old(self)@.players[i].car_index,
                }),
    {
        self.last_frame = Some(frame);
        self.last_phase = Some(phase);
        let mut enriched: Vec<EnrichedPlayer> = Vec::new();
        let mut i: usize = 0;
        while i < self.players.len()
            invariant
                i <= self.players@.len(),
                enriched@.len() == i,
                forall|n: int|
                    0 <= n < i ==> #[trigger] enriched@[n] == (EnrichedPlayer {
                        player_index: n as usize,
                        car_index: self.players@[n].car_index,
                    }),
            decreases self.players@.len() - i,
        {
            enriched.push(EnrichedPlayer { player_index: i, car_index: self.players[i].car_index });
            i += 1;
        }
        enriched
    }
}

} // verus!
