use rlbot_rocketsim::body::CarBodyKind;
use rlbot_rocketsim::enrich::{
    air_time_source, dropshot_charge_level, initial_jump_rule, previous_controls_source,
    wheels_support_car, AirTimeSource, InitialJumpRule, PreviousControls, ball_sync, boost_pad_sync, check_ball_shape, flip_reset_available, restored_car_flags,
    team_from_rlbot, ArenaSummary, BallShapeKind, EnrichedPlayer, EnrichmentError, PacketBall,
    PacketPlayer, PacketSummary, PlayerLayout, UpdatePlan,
};
use rlbot_rocketsim::game::{AirState, MatchPhase, Team};
use rlbot_rocketsim::match_context::{
    BotProfile, HitboxMatches, MatchContext, MatchContextError, MatchSetup, PlayerConfig,
    PlayerVariety, RlbotGameMode, SimGameMode,
};
use rlbot_rocketsim::to_rlbot::air_state_for_car;

/// Stands in for the simulated arena: counts cars and ticks as the arena
/// owner would when following a plan.
struct Harness {
    layout: PlayerLayout,
    mode: SimGameMode,
    boost_pads: usize,
    cars: usize,
    ticks: u64,
    last_plan: Option<UpdatePlan>,
}

impl Harness {
    fn new(layout: PlayerLayout, mode: SimGameMode, boost_pads: usize) -> Self {
        Harness { layout, mode, boost_pads, cars: 0, ticks: 0, last_plan: None }
    }

    fn void() -> Self {
        Harness::new(PlayerLayout::new(None), SimGameMode::TheVoid, 0)
    }

    fn update_with_gravity(
        &mut self,
        packet: &PacketSummary,
        gravity_changed: bool,
    ) -> Result<Vec<EnrichedPlayer>, EnrichmentError> {
        let arena = ArenaSummary {
            game_mode: self.mode,
            boost_pad_count: self.boost_pads,
            car_count: self.cars,
        };
        let plan = self.layout.plan_update(packet, arena, gravity_changed)?;
        if plan.rebuild {
            self.cars = 0;
            self.ticks = 0;
        }
        for slot in &plan.players {
            if slot.previous_slot.is_none() {
                assert_eq!(slot.car_index, self.cars);
                self.cars += 1;
            }
        }
        if plan.step {
            self.ticks += 1;
        }
        self.last_plan = Some(plan);
        ball_sync(self.layout.has_context(), packet.balls.len())?;
        boost_pad_sync(packet.boost_pad_count, self.boost_pads)?;
        Ok(self.layout.complete_update(packet.frame, packet.phase))
    }

    fn update(&mut self, packet: &PacketSummary) -> Result<Vec<EnrichedPlayer>, EnrichmentError> {
        self.update_with_gravity(packet, false)
    }

    fn plan(&self) -> &UpdatePlan {
        self.last_plan.as_ref().unwrap()
    }
}

fn any_hitbox() -> HitboxMatches {
    HitboxMatches {
        octane: true,
        dominus: false,
        breakout: false,
        merc: false,
        plank: false,
        hybrid: false,
        psyclops: false,
    }
}

fn dominus_hitbox() -> HitboxMatches {
    HitboxMatches { octane: false, dominus: true, ..any_hitbox() }
}

fn player_with_id(player_id: i32) -> PacketPlayer {
    PacketPlayer {
        player_id,
        team: 0,
        hitbox: any_hitbox(),
        air_state: AirState::OnGround,
        has_jumped: false,
        has_double_jumped: false,
        has_dodged: false,
    }
}

fn player() -> PacketPlayer {
    player_with_id(42)
}

fn packet_with(frame: u32, phase: MatchPhase, players: Vec<PacketPlayer>) -> PacketSummary {
    PacketSummary { frame, phase, players, balls: Vec::new(), boost_pad_count: 0 }
}

fn packet(frame: u32, player: PacketPlayer) -> PacketSummary {
    packet_with(frame, MatchPhase::Active, vec![player])
}

fn standard_ball() -> PacketBall {
    PacketBall { shape: BallShapeKind::Sphere, diameter_matches: true }
}

fn context_harness() -> Harness {
    let setup = MatchSetup {
        game_mode: RlbotGameMode::Soccar,
        player_configurations: vec![PlayerConfig {
            variety: PlayerVariety::CustomBot(BotProfile { name: String::new(), car_id: Some(29) }),
            team: 0,
            player_id: 7,
        }],
    };
    let context = MatchContext::new(&setup, 1).unwrap();
    Harness::new(PlayerLayout::new(Some(context)), SimGameMode::Soccar, 1)
}

fn dominus_player() -> PacketPlayer {
    PacketPlayer { hitbox: dominus_hitbox(), ..player_with_id(7) }
}

#[test]
fn repeated_packets_keep_the_player_mapping() {
    let mut harness = Harness::void();
    let first = harness.update(&packet(1, player())).unwrap();
    let second = harness.update(&packet(2, player())).unwrap();

    assert_eq!(first[0].car_index, second[0].car_index);
    assert_eq!(harness.cars, 1);
    assert_eq!(harness.layout.car_index(0), Some(0));
}

#[test]
fn reordered_packet_keeps_cars_by_participant_id() {
    let mut harness = Harness::void();
    let first = harness
        .update(&packet_with(1, MatchPhase::Active, vec![player(), player_with_id(99)]))
        .unwrap();
    let first_car = first[0].car_index;
    let second_car = first[1].car_index;

    let mappings = harness
        .update(&packet_with(2, MatchPhase::Paused, vec![player_with_id(99), player()]))
        .unwrap();

    assert_eq!(mappings[0].car_index, second_car);
    assert_eq!(mappings[1].car_index, first_car);
    assert_eq!(harness.layout.car_index_by_player_id(42), Some(first_car));
    assert_eq!(harness.cars, 2);
    assert!(!harness.plan().rebuild);
}

#[test]
fn joining_player_keeps_existing_cars_and_history() {
    let mut harness = Harness::void();
    harness.update(&packet(1, player())).unwrap();

    harness
        .update(&packet_with(2, MatchPhase::Paused, vec![player(), player_with_id(99)]))
        .unwrap();

    assert_eq!(harness.cars, 2);
    assert!(!harness.plan().rebuild);
    assert!(!harness.plan().reset_history);
    assert_eq!(harness.plan().players[0].previous_slot, Some(0));
    assert_eq!(harness.plan().players[1].previous_slot, None);
    assert_eq!(harness.layout.car_index_by_player_id(42), Some(0));
    assert_eq!(harness.layout.car_index_by_player_id(99), Some(1));
}

#[test]
fn rejects_duplicate_player_ids() {
    let mut harness = Harness::void();
    assert_eq!(
        harness.update(&packet_with(1, MatchPhase::Active, vec![player(), player()])),
        Err(EnrichmentError::DuplicatePlayerId { player_id: 42 })
    );
    assert_eq!(harness.cars, 0);
    assert_eq!(harness.layout.num_players(), 0);
}

#[test]
fn rebuilds_when_player_layout_changes() {
    let mut harness = Harness::void();
    harness.update(&packet(1, player())).unwrap();

    harness.update(&packet(2, player_with_id(99))).unwrap();

    assert!(harness.plan().rebuild);
    assert_eq!(harness.cars, 1);
}

#[test]
fn gravity_change_plans_a_rebuild_and_history_reset() {
    let mut harness = Harness::void();
    harness.update(&packet(1, player())).unwrap();

    harness.update_with_gravity(&packet(2, player()), true).unwrap();

    assert!(harness.plan().rebuild);
    assert!(harness.plan().reset_history);
    assert!(!harness.plan().step);
    assert_eq!(harness.cars, 1);
}

#[test]
fn repeated_and_paused_frames_do_not_advance() {
    let mut harness = Harness::void();
    harness.update(&packet(1, player())).unwrap();
    let tick = harness.ticks;
    harness.update(&packet(1, player())).unwrap();
    assert_eq!(harness.ticks, tick);

    harness.update(&packet_with(2, MatchPhase::Paused, vec![player()])).unwrap();
    assert_eq!(harness.ticks, tick);
}

#[test]
fn frame_gaps_probe_only_the_current_packet_once() {
    let mut harness = Harness::void();
    harness.update(&packet(1, player())).unwrap();
    let tick = harness.ticks;

    harness.update(&packet(5, player())).unwrap();
    assert_eq!(harness.ticks, tick + 1);

    harness.update(&packet(1_000, player())).unwrap();
    assert_eq!(harness.ticks, tick + 2);
}

#[test]
fn resuming_after_pause_plans_a_history_reset() {
    let mut harness = Harness::void();
    harness.update(&packet(1, player())).unwrap();
    harness.update(&packet_with(2, MatchPhase::Paused, vec![player()])).unwrap();
    assert!(!harness.plan().reset_history);

    harness.update(&packet(3, player())).unwrap();
    assert!(harness.plan().reset_history);
    assert!(harness.plan().step);
}

#[test]
fn packet_gap_and_phase_sequence_does_not_replay_current_state() {
    let mut harness = Harness::void();
    harness.update(&packet_with(1, MatchPhase::Active, vec![player_with_id(7)])).unwrap();
    let initial_tick = harness.ticks;

    harness.update(&packet_with(20, MatchPhase::Active, vec![player_with_id(7)])).unwrap();
    assert_eq!(harness.ticks, initial_tick + 1);

    harness.update(&packet_with(21, MatchPhase::Paused, vec![player_with_id(7)])).unwrap();
    assert_eq!(harness.ticks, initial_tick + 1);

    harness.update(&packet_with(22, MatchPhase::Kickoff, vec![player_with_id(7)])).unwrap();
    assert_eq!(harness.ticks, initial_tick + 2);
}

#[test]
fn first_packet_plans_no_step_and_resets_history() {
    let mut harness = Harness::void();
    harness.update(&packet(1, player())).unwrap();
    assert!(!harness.plan().step);
    assert!(harness.plan().reset_history);
    assert_eq!(harness.ticks, 0);
}

#[test]
fn frame_rollback_rebuilds_the_arena() {
    let mut harness = Harness::void();
    harness.update(&packet(10, player())).unwrap();
    harness.update(&packet(11, player())).unwrap();
    harness.update(&packet(3, player())).unwrap();
    assert!(harness.plan().rebuild);
    assert_eq!(harness.ticks, 0);
    assert_eq!(harness.cars, 1);
}

#[test]
fn rejects_unsupported_teams_without_mutating_layout() {
    let mut harness = Harness::void();
    let invalid = PacketPlayer { team: 2, ..player() };
    assert_eq!(
        harness.update(&packet(1, invalid)),
        Err(EnrichmentError::InvalidTeam { player_index: 0, team: 2 })
    );
    assert_eq!(harness.cars, 0);
    assert_eq!(harness.layout.num_players(), 0);
}

#[test]
fn rejected_packet_leaves_the_layout_unchanged() {
    let mut harness = Harness::void();
    harness.update(&packet(1, player())).unwrap();
    let invalid = PacketPlayer { team: 5, ..player_with_id(3) };
    assert!(harness.update(&packet_with(2, MatchPhase::Active, vec![player(), invalid])).is_err());
    assert_eq!(harness.layout.num_players(), 1);
    assert_eq!(harness.layout.car_index_by_player_id(42), Some(0));
    harness.update(&packet(2, player())).unwrap();
    assert!(harness.plan().step);
}

#[test]
fn requires_exactly_one_ball() {
    let mut harness = context_harness();
    let mut packet = packet_with(0, MatchPhase::Inactive, vec![dominus_player()]);
    packet.boost_pad_count = 1;
    assert_eq!(harness.update(&packet), Err(EnrichmentError::BallCount { count: 0 }));

    packet.balls.push(standard_ball());
    packet.balls.push(standard_ball());
    assert_eq!(harness.update(&packet), Err(EnrichmentError::BallCount { count: 2 }));
}

#[test]
fn rejects_incompatible_ball_shape() {
    let mut harness = context_harness();
    let mut packet = packet_with(0, MatchPhase::Inactive, vec![dominus_player()]);
    packet.balls.push(PacketBall { shape: BallShapeKind::Box, diameter_matches: false });
    assert_eq!(
        harness.update(&packet),
        Err(EnrichmentError::BallShape { shape: BallShapeKind::Box, mode: SimGameMode::Soccar })
    );
    assert_eq!(harness.cars, 0);
}

#[test]
fn requires_all_boost_pad_states() {
    let mut harness = context_harness();
    let mut packet = packet_with(0, MatchPhase::Inactive, vec![dominus_player()]);
    packet.balls.push(standard_ball());
    assert_eq!(
        harness.update(&packet),
        Err(EnrichmentError::MatchContext(MatchContextError::BoostPadCountMismatch {
            packet: 0,
            arena: 1,
        }))
    );
}

#[test]
fn rejects_hitbox_that_disagrees_with_loadout() {
    let mut harness = context_harness();
    let mut packet = packet_with(0, MatchPhase::Inactive, vec![PacketPlayer {
        hitbox: any_hitbox(),
        ..dominus_player()
    }]);
    packet.balls.push(standard_ball());
    packet.boost_pad_count = 1;
    assert_eq!(
        harness.update(&packet),
        Err(EnrichmentError::MatchContext(MatchContextError::HitboxMismatch {
            player_index: 0,
            player_id: 7,
        }))
    );
}

#[test]
fn match_context_decides_packet_player_bodies() {
    let mut harness = context_harness();
    let mut packet = packet_with(1, MatchPhase::Inactive, vec![dominus_player()]);
    packet.balls.push(standard_ball());
    packet.boost_pad_count = 1;
    let enriched = harness.update(&packet).unwrap();
    assert_eq!(enriched, vec![EnrichedPlayer { player_index: 0, car_index: 0 }]);
    assert_eq!(harness.plan().players[0].body, Some(CarBodyKind::Dominus));
    assert_eq!(harness.plan().players[0].team, Team::Blue);
}

#[test]
fn ball_shapes_follow_the_arena_mode() {
    let sphere = standard_ball();
    let oversized = PacketBall { shape: BallShapeKind::Sphere, diameter_matches: false };
    let puck = PacketBall { shape: BallShapeKind::Cylinder, diameter_matches: false };
    assert_eq!(check_ball_shape(&sphere, SimGameMode::Soccar), Ok(()));
    assert_eq!(check_ball_shape(&oversized, SimGameMode::Soccar), Err(EnrichmentError::BallSize));
    assert_eq!(
        check_ball_shape(&sphere, SimGameMode::Snowday),
        Err(EnrichmentError::BallShape { shape: BallShapeKind::Sphere, mode: SimGameMode::Snowday })
    );
    assert_eq!(check_ball_shape(&puck, SimGameMode::Snowday), Ok(()));
    assert_eq!(
        check_ball_shape(&puck, SimGameMode::Hoops),
        Err(EnrichmentError::BallShape { shape: BallShapeKind::Cylinder, mode: SimGameMode::Hoops })
    );
}

#[test]
fn ball_and_pad_counts_decide_what_is_copied() {
    assert_eq!(ball_sync(false, 0), Ok(false));
    assert_eq!(ball_sync(true, 1), Ok(true));
    assert_eq!(ball_sync(false, 3), Err(EnrichmentError::BallCount { count: 3 }));
    assert_eq!(boost_pad_sync(0, 34), Ok(false));
    assert_eq!(boost_pad_sync(34, 34), Ok(true));
    assert_eq!(
        boost_pad_sync(2, 34),
        Err(EnrichmentError::MatchContext(MatchContextError::BoostPadCountMismatch {
            packet: 2,
            arena: 34,
        }))
    );
}

#[test]
fn teams_map_to_blue_and_orange() {
    assert_eq!(team_from_rlbot(0, 0), Ok(Team::Blue));
    assert_eq!(team_from_rlbot(0, 1), Ok(Team::Orange));
    assert_eq!(
        team_from_rlbot(4, 7),
        Err(EnrichmentError::InvalidTeam { player_index: 4, team: 7 })
    );
}

#[test]
fn authoritative_double_jump_transition_clears_active_history() {
    let mut harness = Harness::void();
    let double_jumping = PacketPlayer {
        air_state: AirState::DoubleJumping,
        has_jumped: true,
        has_double_jumped: true,
        ..player_with_id(7)
    };
    harness.update(&packet(1, double_jumping)).unwrap();
    assert!(harness.layout.tracked_player(0).unwrap().double_jump_active);

    let in_air = PacketPlayer { air_state: AirState::InAir, ..double_jumping };
    harness.update(&packet(2, in_air)).unwrap();
    assert!(!harness.layout.tracked_player(0).unwrap().double_jump_active);
}

#[test]
fn airborne_flip_reset_is_remembered_until_a_jump() {
    let mut harness = Harness::void();
    let reset = PacketPlayer { air_state: AirState::InAir, ..player_with_id(7) };
    assert!(flip_reset_available(&reset));
    harness.update(&packet(1, reset)).unwrap();
    assert!(harness.layout.tracked_player(0).unwrap().flip_reset_available);

    harness.update(&packet(2, reset)).unwrap();
    assert!(harness.plan().players[0].flip_reset_available);

    let jumped = PacketPlayer { has_jumped: true, ..reset };
    assert!(!flip_reset_available(&jumped));
}

#[test]
fn double_jumping_consumes_the_rocketsim_double_jump() {
    let double_jumping = PacketPlayer {
        air_state: AirState::DoubleJumping,
        has_jumped: true,
        has_double_jumped: false,
        ..player()
    };
    let flags = restored_car_flags(&double_jumping, false, false);
    assert!(flags.has_double_jumped);
    assert!(!flags.is_jumping);
    assert!(!flags.is_flipping);
    assert_eq!(air_state_for_car(&flags, true), AirState::DoubleJumping);
}

#[test]
fn demolished_players_do_not_retain_contacts() {
    let flags = restored_car_flags(&player(), true, true);
    assert!(flags.is_demoed);
    assert!(!flags.is_on_ground);
    let alive = restored_car_flags(&player(), false, true);
    assert!(alive.is_on_ground);
}

#[test]
fn air_states_round_trip_through_car_flags() {
    for (air_state, on_ground) in [
        (AirState::OnGround, true),
        (AirState::Jumping, false),
        (AirState::DoubleJumping, false),
        (AirState::Dodging, false),
        (AirState::InAir, false),
    ] {
        let packet_player = PacketPlayer { air_state, has_jumped: true, ..player() };
        let flags = restored_car_flags(&packet_player, false, on_ground);
        assert_eq!(air_state_for_car(&flags, air_state == AirState::DoubleJumping), air_state);
    }
}

#[test]
fn previous_controls_follow_the_tick_and_history() {
    assert_eq!(previous_controls_source(true, true), PreviousControls::Simulated);
    assert_eq!(previous_controls_source(true, false), PreviousControls::Simulated);
    assert_eq!(previous_controls_source(false, true), PreviousControls::Packet);
    assert_eq!(previous_controls_source(false, false), PreviousControls::Retained);
}

#[test]
fn initial_jump_duration_is_measured_cleared_or_kept() {
    let jumping = PacketPlayer { air_state: AirState::Jumping, has_jumped: true, ..player() };
    assert_eq!(initial_jump_rule(&jumping), InitialJumpRule::Measure);
    assert_eq!(initial_jump_rule(&player()), InitialJumpRule::Clear);
    let airborne = PacketPlayer { air_state: AirState::InAir, has_jumped: true, ..player() };
    assert_eq!(initial_jump_rule(&airborne), InitialJumpRule::Keep);
}

#[test]
fn air_time_source_follows_jump_state_and_timeout() {
    let airborne = PacketPlayer { air_state: AirState::InAir, has_jumped: true, ..player() };
    assert_eq!(air_time_source(&airborne, true, false), AirTimeSource::DodgeTimeout);
    assert_eq!(air_time_source(&airborne, false, false), AirTimeSource::WindowElapsed);
    assert_eq!(air_time_source(&airborne, false, true), AirTimeSource::Zero);
    let jumping = PacketPlayer { air_state: AirState::Jumping, ..airborne };
    assert_eq!(air_time_source(&jumping, true, false), AirTimeSource::Zero);
    assert_eq!(air_time_source(&player(), true, false), AirTimeSource::Zero);
}

#[test]
fn three_wheels_in_contact_support_a_car() {
    assert!(!wheels_support_car(0));
    assert!(!wheels_support_car(2));
    assert!(wheels_support_car(3));
    assert!(wheels_support_car(4));
}

#[test]
fn dropshot_charge_levels_are_shifted_and_capped() {
    assert_eq!(dropshot_charge_level(-1), None);
    assert_eq!(dropshot_charge_level(0), Some(1));
    assert_eq!(dropshot_charge_level(1), Some(2));
    assert_eq!(dropshot_charge_level(2), Some(3));
    assert_eq!(dropshot_charge_level(7), Some(3));
    assert_eq!(dropshot_charge_level(256), Some(1));
    assert_eq!(dropshot_charge_level(i32::MAX), Some(3));
}

#[test]
fn authoritative_double_jump_state_ignores_packet_gap_and_pause() {
    let mut harness = Harness::void();
    let double_jumping = PacketPlayer {
        air_state: AirState::DoubleJumping,
        has_jumped: true,
        has_double_jumped: true,
        ..player_with_id(7)
    };
    let converted_air_state = |harness: &Harness, player: &PacketPlayer| {
        let followed = harness.layout.tracked_player(0).unwrap();
        let flags = restored_car_flags(player, false, false);
        air_state_for_car(&flags, followed.double_jump_active)
    };

    harness.update(&packet_with(1, MatchPhase::Active, vec![double_jumping])).unwrap();
    harness.update(&packet_with(1_000, MatchPhase::Paused, vec![double_jumping])).unwrap();
    let position = harness.layout.position_of_player_id(7).unwrap();
    assert!(harness.layout.tracked_player(position).unwrap().double_jump_active);
    assert_eq!(converted_air_state(&harness, &double_jumping), AirState::DoubleJumping);

    let in_air = PacketPlayer { air_state: AirState::InAir, ..double_jumping };
    harness.update(&packet_with(2_000, MatchPhase::Active, vec![in_air])).unwrap();
    assert!(!harness.layout.tracked_player(0).unwrap().double_jump_active);
    assert_eq!(converted_air_state(&harness, &in_air), AirState::InAir);
}
