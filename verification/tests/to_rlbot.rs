use rlbot_rocketsim::body::CarBodyKind;
use rlbot_rocketsim::enrich::{air_time_source, restored_car_flags, AirTimeSource, PacketPlayer};
use rlbot_rocketsim::game::{AirState, Team};
use rlbot_rocketsim::match_context::{BotProfile, HitboxMatches, PlayerConfig, PlayerVariety};
use rlbot_rocketsim::to_rlbot::{
    air_state_for_car, dodge_timeout_running, player_configuration_for_car, player_name_and_bot,
    validate_player_config, CarStateFlags, ToRlbotError,
};

fn player(team: u32, car_id: u32) -> PlayerConfig {
    PlayerConfig {
        variety: PlayerVariety::CustomBot(BotProfile { name: "Test".to_string(), car_id: Some(car_id) }),
        team,
        player_id: 7,
    }
}

fn grounded() -> CarStateFlags {
    CarStateFlags {
        is_jumping: false,
        is_flipping: false,
        has_jumped: false,
        has_double_jumped: false,
        has_flipped: false,
        is_on_ground: true,
        is_demoed: false,
    }
}

#[test]
fn active_air_state_takes_precedence_over_wheel_contact() {
    let mut state = CarStateFlags { is_jumping: true, ..grounded() };
    assert_eq!(air_state_for_car(&state, false), AirState::Jumping);

    state.is_jumping = false;
    state.is_flipping = true;
    assert_eq!(air_state_for_car(&state, false), AirState::Dodging);
}

#[test]
fn grounded_car_reports_on_ground_after_a_dodge() {
    let state = CarStateFlags { has_flipped: true, ..grounded() };
    assert_eq!(air_state_for_car(&state, false), AirState::OnGround);
}

#[test]
fn conversion_history_supplies_double_jump_transient() {
    let state = CarStateFlags {
        is_on_ground: false,
        has_jumped: true,
        has_double_jumped: true,
        ..grounded()
    };
    assert_eq!(air_state_for_car(&state, true), AirState::DoubleJumping);
    assert_eq!(air_state_for_car(&state, false), AirState::InAir);
}

#[test]
fn active_dodge_takes_precedence_over_double_jump_history() {
    let state = CarStateFlags {
        is_on_ground: false,
        has_double_jumped: true,
        has_flipped: true,
        is_flipping: true,
        ..grounded()
    };
    assert_eq!(air_state_for_car(&state, true), AirState::Dodging);
}

#[test]
fn jump_state_takes_precedence_over_an_earlier_dodge() {
    let state = CarStateFlags { is_jumping: true, has_flipped: true, ..grounded() };
    assert_eq!(air_state_for_car(&state, false), AirState::Jumping);
}

#[test]
fn dodge_timeout_runs_within_the_double_jump_window() {
    let state = CarStateFlags { is_on_ground: false, has_jumped: true, ..grounded() };
    let air_state = air_state_for_car(&state, false);
    assert_eq!(air_state, AirState::InAir);
    assert!(dodge_timeout_running(air_state, &state, false));
    assert!(!dodge_timeout_running(air_state, &state, true));
}

#[test]
fn dodge_timeout_is_not_reported_on_ground_or_after_second_jump() {
    let on_ground = CarStateFlags { has_jumped: true, ..grounded() };
    assert!(!dodge_timeout_running(AirState::OnGround, &on_ground, false));

    let fell_off = CarStateFlags { is_on_ground: false, ..grounded() };
    assert!(!dodge_timeout_running(AirState::InAir, &fell_off, false));

    let double_jumped = CarStateFlags {
        is_on_ground: false,
        has_jumped: true,
        has_double_jumped: true,
        ..grounded()
    };
    assert!(!dodge_timeout_running(AirState::InAir, &double_jumped, false));

    let dodged = CarStateFlags { is_on_ground: false, has_jumped: true, has_flipped: true, ..grounded() };
    assert!(!dodge_timeout_running(AirState::Dodging, &dodged, false));
}

#[test]
fn validates_team_and_body_configuration() {
    let body = Some(CarBodyKind::Octane);
    assert!(validate_player_config(0, Team::Blue, body, &player(0, 23)).is_ok());
    assert_eq!(
        validate_player_config(0, Team::Blue, body, &player(1, 23)),
        Err(ToRlbotError::TeamMismatch { car_index: 0, rocketsim_team: 0, configured_team: 1 })
    );
    assert_eq!(
        validate_player_config(0, Team::Blue, body, &player(0, 29)),
        Err(ToRlbotError::BodyConfigMismatch { car_index: 0, product_id: 29 })
    );
}

#[test]
fn validation_rejects_unknown_products_and_unmatched_bodies() {
    assert_eq!(
        validate_player_config(3, Team::Orange, Some(CarBodyKind::Merc), &player(1, 12345)),
        Err(ToRlbotError::UnknownCarProductId { player_id: 7, product_id: 12345 })
    );
    assert_eq!(
        validate_player_config(3, Team::Orange, None, &player(1, 30)),
        Err(ToRlbotError::BodyConfigMismatch { car_index: 3, product_id: 30 })
    );
    let human = PlayerConfig { variety: PlayerVariety::Human, team: 1, player_id: 1 };
    assert_eq!(validate_player_config(3, Team::Orange, None, &human), Ok(()));
}

#[test]
fn names_humans_by_index_and_keeps_bot_names() {
    assert_eq!(player_name_and_bot(&PlayerVariety::Human, 0), ("Human 0".to_string(), false));
    assert_eq!(player_name_and_bot(&PlayerVariety::Human, 9), ("Human 9".to_string(), false));
    assert_eq!(player_name_and_bot(&PlayerVariety::Human, 10), ("Human 10".to_string(), false));
    assert_eq!(player_name_and_bot(&PlayerVariety::Human, 1234), ("Human 1234".to_string(), false));
    assert_eq!(
        player_name_and_bot(&PlayerVariety::Human, usize::MAX),
        (format!("Human {}", usize::MAX), false)
    );
    let bot = PlayerVariety::PsyonixBot(BotProfile { name: "Packet Player".to_string(), car_id: None });
    assert_eq!(player_name_and_bot(&bot, 3), ("Packet Player".to_string(), true));
}

#[test]
fn finds_the_configuration_at_the_car_index() {
    let configs = vec![player(0, 23), player(1, 29)];
    assert_eq!(player_configuration_for_car(&configs, 1), Ok(&configs[1]));
    assert_eq!(
        player_configuration_for_car(&configs, 2),
        Err(ToRlbotError::MissingPlayerConfiguration { car_index: 2 })
    );
}

#[test]
fn flip_reset_uses_untimed_rlbot_sentinel() {
    let original = CarStateFlags { is_on_ground: false, ..grounded() };
    let air_state = air_state_for_car(&original, false);
    assert_eq!(air_state, AirState::InAir);
    // No dodge timeout is reported: RLBot's -1 sentinel.
    assert!(!dodge_timeout_running(air_state, &original, false));

    let reported = PacketPlayer {
        player_id: 10,
        team: 0,
        hitbox: HitboxMatches {
            octane: true,
            dominus: false,
            breakout: false,
            merc: false,
            plank: false,
            hybrid: false,
            psyclops: false,
        },
        air_state,
        has_jumped: original.has_jumped,
        has_double_jumped: original.has_double_jumped,
        has_dodged: original.has_flipped,
    };
    let converted = restored_car_flags(&reported, false, false);
    assert!(!converted.has_jumped);
    assert_eq!(air_time_source(&reported, false, true), AirTimeSource::Zero);
}
