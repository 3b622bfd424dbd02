//! The RocketSim arena as seen by the layout rules: its cars (by team), the
//! boost pads and game mode it was built with, and the cars a plan adds.

use vstd::prelude::*;

use rocketsim::{Arena, CarBodyConfig, GameMode};

use crate::body::CarBodyKind;
use crate::enrich::{
    after_rebuild, history_kept, new_before, planned_car_count, spec_plan, spec_rebuild, spec_reset_history,
    tracked_slot, ArenaSummary, PacketSummary, PlayerLayoutView, ResolvedPlayer, UpdatePlan,
};
use crate::game::Team;
use crate::match_context::SimGameMode;

verus! {

/// A RocketSim arena (opaque).
#[verifier::external_type_specification]
#[verifier::external_body]
pub struct ExArena(Arena);

/// A RocketSim car body configuration (opaque).
#[verifier::external_type_specification]
#[verifier::external_body]
pub struct ExCarBodyConfig(CarBodyConfig);

/// The preset hitbox family a body configuration equals (by
/// `CarBodyConfig`'s `==`), or `None` for a configuration that is none of the
/// presets. The presets differ from one another, so at most one is equal.
pub uninterp spec fn body_family(config: CarBodyConfig) -> Option<CarBodyKind>;

/// The cars of an arena, in index order, each given by its team and the
/// preset family its body configuration equals (see [`body_family`]).
pub uninterp spec fn arena_cars(arena: Arena) -> Seq<(Team, Option<CarBodyKind>)>;

/// The number of boost pads an arena was built with.
pub uninterp spec fn arena_boost_pads(arena: Arena) -> usize;

/// The game mode an arena was built with.
pub uninterp spec fn arena_game_mode(arena: Arena) -> SimGameMode;

/// `Arena::num_cars`: the number of cars added to the arena.
#[verifier::external_body]
fn num_cars(arena: &Arena) -> (n: usize)
    ensures
        n == arena_cars(*arena).len(),
{
    arena.num_cars()
}

/// `Arena::num_boost_pads`: the number of pads of the arena's layout.
#[verifier::external_body]
fn num_boost_pads(arena: &Arena) -> (n: usize)
    ensures
        n == arena_boost_pads(*arena),
{
    arena.num_boost_pads()
}

/// `Arena::game_mode`: the game mode the arena was built with.
#[verifier::external_body]
fn game_mode(arena: &Arena) -> (mode: SimGameMode)
    ensures
        mode == arena_game_mode(*arena),
{
    match arena.game_mode() {
        GameMode::Soccar => SimGameMode::Soccar,
        GameMode::Hoops => SimGameMode::Hoops,
        GameMode::Heatseeker => SimGameMode::Heatseeker,
        GameMode::Snowday => SimGameMode::Snowday,
        GameMode::Dropshot => SimGameMode::Dropshot,
        GameMode::TheVoid => SimGameMode::TheVoid,
    }
}

/// `Arena::add_car`: appends a car of `team` built with `body` and returns
/// its index, the number of cars before it. The pads and mode stay as they were.
#[verifier::external_body]
fn add_car(arena: &mut Arena, team: Team, body: CarBodyConfig) -> (index: usize)
    ensures
        index == arena_cars(*old(arena)).len(),
        arena_cars(*final(arena)) == arena_cars(*old(arena)).push((team, body_family(body))),
        arena_boost_pads(*final(arena)) == arena_boost_pads(*old(arena)),
        arena_game_mode(*final(arena)) == arena_game_mode(*old(arena)),
{
    let team = match team {
        Team::Blue => rocketsim::Team::Blue,
        Team::Orange => rocketsim::Team::Orange,
    };
    arena.add_car(team, body)
}

/// `Arena::new_with_config` on the arena's own configuration
/// (`Arena::get_config`): a fresh arena without cars, with the same mode and
/// boost pads. RocketSim's collision meshes are loaded once and never
/// unloaded, so a configuration that built an arena builds one again.
#[verifier::external_body]
fn reset_arena(arena: &mut Arena)
    ensures
        arena_cars(*final(arena)) == Seq::<(Team, Option<CarBodyKind>)>::empty(),
        arena_boost_pads(*final(arena)) == arena_boost_pads(*old(arena)),
        arena_game_mode(*final(arena)) == arena_game_mode(*old(arena)),
{
    *arena = Arena::new_with_config(arena.get_config().clone());
}

/// `CarBodyConfig::{OCTANE, DOMINUS, ...}`: the RocketSim preset of a family.
#[verifier::external_body]
fn preset_body_config(kind: CarBodyKind) -> (config: CarBodyConfig)
    ensures
        body_family(config) == Some(kind),
{
    match kind {
        CarBodyKind::Octane => CarBodyConfig::OCTANE,
        CarBodyKind::Dominus => CarBodyConfig::DOMINUS,
        CarBodyKind::Breakout => CarBodyConfig::BREAKOUT,
        CarBodyKind::Merc => CarBodyConfig::MERC,
        CarBodyKind::Plank => CarBodyConfig::PLANK,
        CarBodyKind::Hybrid => CarBodyConfig::HYBRID,
        CarBodyKind::Psyclops => CarBodyConfig::PSYCLOPS,
    }
}

/// What the layout rules read of an arena.
pub fn arena_summary(arena: &Arena) -> (summary: ArenaSummary)
    ensures
        summary.game_mode == arena_game_mode(*arena),
        summary.boost_pad_count == arena_boost_pads(*arena),
        summary.car_count == arena_cars(*arena).len(),
{
    ArenaSummary {
        game_mode: game_mode(arena),
        boost_pad_count: num_boost_pads(arena),
        car_count: num_cars(arena),
    }
}

/// The car a plan entry without a followed car is given: its team, and its
/// body family, or the family `default_family` of the default body.
pub open spec fn new_car(slot: ResolvedPlayer, default_family: Option<CarBodyKind>) -> (
    Team,
    Option<CarBodyKind>,
) {
    (
        slot.team,
        match slot.body {
            Some(kind) => Some(kind),
            None => default_family,
        },
    )
}

/// The cars a plan adds, in order: one per packet player that was not
/// followed before.
pub open spec fn new_cars(slots: Seq<ResolvedPlayer>, default_family: Option<CarBodyKind>) -> Seq<
    (Team, Option<CarBodyKind>),
>
    decreases slots.len(),
{
    if slots.len() == 0 {
        Seq::empty()
    } else {
        let last = slots.last();
        new_cars(slots.drop_last(), default_family) + if last.previous_slot is None {
            seq![new_car(last, default_family)]
        } else {
            Seq::empty()
        }
    }
}

/// The car indices a plan gives its new cars, in order.
pub open spec fn planned_new_indices(slots: Seq<ResolvedPlayer>) -> Seq<usize>
    decreases slots.len(),
{
    if slots.len() == 0 {
        Seq::empty()
    } else {
        let last = slots.last();
        planned_new_indices(slots.drop_last()) + if last.previous_slot is None {
            seq![last.car_index]
        } else {
            Seq::<usize>::empty()
        }
    }
}

/// Whether a plan numbers its new cars consecutively from `base`, in
/// packet order.
pub open spec fn new_cars_numbered(slots: Seq<ResolvedPlayer>, base: nat) -> bool {
    forall|i: int|
        0 <= i < slots.len() && (#[trigger] slots[i]).previous_slot is None ==> slots[i].car_index
            == base + new_slots_before(slots, i as nat)
}

/// Carries out the arena part of a plan: a rebuilding plan starts from an
/// arena without cars (the arena as given when it has none, as the arena
/// owner's freshly built one does, otherwise one rebuilt from its own
/// configuration); then the cars the plan asks for are added, in packet
/// order, each with its player's team and body (the preset of its family, or
/// `default_body`), and their indices are returned. The indices continue the
/// arena's numbering, so they are the plan's own indices for the new cars
/// whenever the plan numbers them from the arena's car count.
pub fn add_planned_cars(plan: &UpdatePlan, arena: &mut Arena, default_body: CarBodyConfig) -> (indices: Vec<usize>)
    ensures
        ({
            let start = if plan.rebuild {
                Seq::<(Team, Option<CarBodyKind>)>::empty()
            } else {
                arena_cars(*old(arena))
            };
            &&& arena_cars(*final(arena)) == start + new_cars(plan.players@, body_family(default_body))
            &&& indices@.len() == new_cars(plan.players@, body_family(default_body)).len()
            &&& forall|j: int| 0 <= j < indices@.len() ==> #[trigger] indices@[j] == start.len() + j
            &&& new_cars_numbered(plan.players@, start.len()) ==> indices@ == planned_new_indices(
                plan.players@,
            )
        }),
        arena_boost_pads(*final(arena)) == arena_boost_pads(*old(arena)),
        arena_game_mode(*final(arena)) == arena_game_mode(*old(arena)),
{
    if plan.rebuild && num_cars(arena) > 0 {
        reset_arena(arena);
    }
    let ghost start = arena_cars(*arena);
    let ghost family = body_family(default_body);
    let slots = &plan.players;
    let mut indices: Vec<usize> = Vec::new();
    let mut i: usize = 0;
    while i < slots.len()
        invariant
            i <= slots@.len(),
            slots@ == plan.players@,
            family == body_family(default_body),
            arena_cars(*arena) == start + new_cars(slots@.take(i as int), family),
            indices@.len() == new_cars(slots@.take(i as int), family).len(),
            forall|j: int| 0 <= j < indices@.len() ==> #[trigger] indices@[j] == start.len() + j,
            arena_boost_pads(*arena) == arena_boost_pads(*old(arena)),
            arena_game_mode(*arena) == arena_game_mode(*old(arena)),
        decreases slots@.len() - i,
    {
        let slot = slots[i];
        proof {
            assert(slots@.take(i + 1).drop_last() == slots@.take(i as int));
            assert(slots@.take(i + 1).last() == slot);
        }
        if slot.previous_slot.is_none() {
            let body = match slot.body {
                Some(kind) => preset_body_config(kind),
                None => default_body,
            };
            let index = add_car(arena, slot.team, body);
            indices.push(index);
        }
        i += 1;
    }
    proof {
        assert(slots@.take(slots@.len() as int) == slots@);
        lemma_planned_indices_numbered(slots@, start.len(), family);
        if new_cars_numbered(slots@, start.len()) {
            assert(indices@ == planned_new_indices(slots@));
        }
    }
    indices
}

impl UpdatePlan {
    /// The car indices the plan gives its new cars, in packet order.
    pub fn new_car_indices(&self) -> (indices: Vec<usize>)
        ensures
            indices@ == planned_new_indices(self.players@),
    {
        let slots = &self.players;
        let mut indices: Vec<usize> = Vec::new();
        let mut i: usize = 0;
        while i < slots.len()
            invariant
                i <= slots@.len(),
                slots@ == self.players@,
                indices@ == planned_new_indices(slots@.take(i as int)),
            decreases slots@.len() - i,
        {
            proof {
                assert(slots@.take(i + 1).drop_last() == slots@.take(i as int));
                assert(slots@.take(i + 1).last() == slots@[i as int]);
            }
            if slots[i].previous_slot.is_none() {
                indices.push(slots[i].car_index);
            }
            i += 1;
        }
        proof {
            assert(slots@.take(slots@.len() as int) == slots@);
        }
        indices
    }
}

/// How many of the first `i` entries of a plan need a new car.
pub open spec fn new_slots_before(slots: Seq<ResolvedPlayer>, i: nat) -> nat
    decreases i,
{
    if i == 0 {
        0
    } else {
        new_slots_before(slots, (i - 1) as nat) + if slots[i - 1].previous_slot is None {
            1nat
        } else {
            0nat
        }
    }
}

proof fn lemma_prefix_counts(
    slots: Seq<ResolvedPlayer>,
    i: nat,
    base: nat,
    family: Option<CarBodyKind>,
)
    requires
        i <= slots.len(),
    ensures
        new_cars(slots.take(i as int), family).len() == new_slots_before(slots, i),
        planned_new_indices(slots.take(i as int)).len() == new_slots_before(slots, i),
        new_cars_numbered(slots, base) ==> forall|j: int|
            0 <= j < new_slots_before(slots, i) ==> #[trigger] planned_new_indices(
                slots.take(i as int),
            )[j] == base + j,
    decreases i,
{
    if i > 0 {
        lemma_prefix_counts(slots, (i - 1) as nat, base, family);
        assert(slots.take(i as int).drop_last() == slots.take(i - 1));
        assert(slots.take(i as int).last() == slots[i - 1]);
        if new_cars_numbered(slots, base) && slots[i - 1].previous_slot is None {
            assert(slots[i - 1].car_index == base + new_slots_before(slots, (i - 1) as nat));
        }
    }
}

/// A plan adds as many cars as it gives new indices, and when it numbers
/// them from `base` its new indices are `base`, `base + 1`, ...
proof fn lemma_planned_indices_numbered(slots: Seq<ResolvedPlayer>, base: nat, family: Option<CarBodyKind>)
    ensures
        new_cars(slots, family).len() == planned_new_indices(slots).len(),
        new_cars(slots, family).len() == new_slots_before(slots, slots.len()),
        new_cars_numbered(slots, base) ==> forall|j: int|
            0 <= j < planned_new_indices(slots).len() ==> #[trigger] planned_new_indices(slots)[j]
                == base + j,
{
    lemma_prefix_counts(slots, slots.len(), base, family);
    assert(slots.take(slots.len() as int) == slots);
}

/// The cars a plan adds continue the arena's numbering: the entry of the
/// k-th packet player without a followed car names car `base + k`, where
/// `base` is the arena's car count (zero after a rebuild). So the indices
/// returned by [`add_planned_cars`] for a plan made with the arena's car
/// count are the plan's own indices for its new cars, and afterwards the
/// arena has the plan's [`planned_car_count`] cars.
pub proof fn lemma_planned_cars_continue_the_arena(
    layout: PlayerLayoutView,
    packet: PacketSummary,
    arena: ArenaSummary,
    gravity_changed: bool,
    family: Option<CarBodyKind>,
)
    requires
        arena.car_count + packet.players@.len() <= usize::MAX,
    ensures
        ({
            let plan = spec_plan(layout, packet, arena, gravity_changed).0;
            let base: nat = if plan.rebuild {
                0
            } else {
                arena.car_count as nat
            };
            &&& new_cars_numbered(plan.players, base)
            &&& base + new_cars(plan.players, family).len() == planned_car_count(
                layout,
                packet,
                arena,
                gravity_changed,
            )
        }),
{
    let plan = spec_plan(layout, packet, arena, gravity_changed).0;
    let rebuild = spec_rebuild(layout, packet, gravity_changed);
    let kept = after_rebuild(layout, rebuild);
    let followed = history_kept(kept.players, spec_reset_history(kept, packet.phase));
    let ps = packet.players@;
    assert forall|i: int|
        0 <= i < plan.players.len() && (#[trigger] plan.players[i]).previous_slot is None
            implies plan.players[i].car_index == (if plan.rebuild { 0 } else { arena.car_count as nat })
            + new_slots_before(plan.players, i as nat) by {
        lemma_counts_agree(layout, packet, arena, gravity_changed, i as nat);
        crate::enrich::lemma_new_before_bounded(followed, ps, i as nat);
    }
    lemma_planned_indices_numbered(plan.players, 0, family);
    lemma_counts_agree(layout, packet, arena, gravity_changed, ps.len());
}

proof fn lemma_counts_agree(
    layout: PlayerLayoutView,
    packet: PacketSummary,
    arena: ArenaSummary,
    gravity_changed: bool,
    i: nat,
)
    requires
        i <= packet.players@.len(),
    ensures
        ({
            let plan = spec_plan(layout, packet, arena, gravity_changed).0;
            let rebuild = spec_rebuild(layout, packet, gravity_changed);
            let kept = after_rebuild(layout, rebuild);
            let followed = history_kept(kept.players, spec_reset_history(kept, packet.phase));
            new_slots_before(plan.players, i) == new_before(followed, packet.players@, i)
        }),
    decreases i,
{
    if i > 0 {
        lemma_counts_agree(layout, packet, arena, gravity_changed, (i - 1) as nat);
        let plan = spec_plan(layout, packet, arena, gravity_changed).0;
        let rebuild = spec_rebuild(layout, packet, gravity_changed);
        let kept = after_rebuild(layout, rebuild);
        let followed = history_kept(kept.players, spec_reset_history(kept, packet.phase));
        let ps = packet.players@;
        let base: nat = if rebuild {
            0
        } else {
            arena.car_count as nat
        };
        assert(plan.players[i - 1] == crate::enrich::resolved_slot(layout.context, followed, ps, base, i - 1));
        assert(plan.players[i - 1].previous_slot is None <==> tracked_slot(followed, ps[i - 1].player_id) is None);
    }
}

} // verus!
