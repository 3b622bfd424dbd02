use rlbot_rocketsim::body::CarBodyKind;
use rlbot_rocketsim::match_context::{
    game_mode_from_rlbot, BotProfile, HitboxMatches, MatchContext, MatchContextError, MatchSetup,
    PlayerConfig, PlayerVariety, RlbotGameMode, SimGameMode,
};

fn bot(player_id: i32, team: u32, car_id: Option<u32>) -> PlayerConfig {
    PlayerConfig {
        variety: PlayerVariety::CustomBot(BotProfile { name: String::new(), car_id }),
        team,
        player_id,
    }
}

fn match_config(car_id: u32) -> MatchSetup {
    MatchSetup { game_mode: RlbotGameMode::Soccar, player_configurations: vec![bot(7, 0, Some(car_id))] }
}

fn fits_only(body: CarBodyKind) -> HitboxMatches {
    HitboxMatches {
        octane: body == CarBodyKind::Octane,
        dominus: body == CarBodyKind::Dominus,
        breakout: body == CarBodyKind::Breakout,
        merc: body == CarBodyKind::Merc,
        plank: body == CarBodyKind::Plank,
        hybrid: body == CarBodyKind::Hybrid,
        psyclops: body == CarBodyKind::Psyclops,
    }
}

fn fits_nothing() -> HitboxMatches {
    HitboxMatches {
        octane: false,
        dominus: false,
        breakout: false,
        merc: false,
        plank: false,
        hybrid: false,
        psyclops: false,
    }
}

#[test]
fn rejects_non_soccar_modes() {
    for mode in [
        RlbotGameMode::Rumble,
        RlbotGameMode::Hoops,
        RlbotGameMode::Dropshot,
        RlbotGameMode::Snowday,
        RlbotGameMode::Heatseeker,
        RlbotGameMode::Gridiron,
        RlbotGameMode::Knockout,
    ] {
        let mut config = match_config(29);
        config.game_mode = mode;
        assert_eq!(
            MatchContext::new(&config, 1).unwrap_err(),
            MatchContextError::UnsupportedGameMode(mode)
        );
    }
}

#[test]
fn rejects_duplicate_configured_player_ids() {
    let mut config = match_config(29);
    config.player_configurations.push(config.player_configurations[0].clone());

    assert_eq!(
        MatchContext::new(&config, 1).unwrap_err(),
        MatchContextError::DuplicatePlayerId { player_id: 7 }
    );
}

#[test]
fn rejects_unknown_car_product_id() {
    assert!(matches!(
        MatchContext::new(&match_config(u32::MAX), 1),
        Err(MatchContextError::UnknownCarProductId { player_id: 7, product_id: u32::MAX })
    ));
}

#[test]
fn soccar_context_uses_field_boost_pads() {
    let context = MatchContext::new(&match_config(29), 1).unwrap();
    assert_eq!(context.game_mode(), SimGameMode::Soccar);
    assert!(context.uses_custom_boost_pads());

    let without_pads = MatchContext::new(&match_config(29), 0).unwrap();
    assert!(!without_pads.uses_custom_boost_pads());
}

#[test]
fn game_mode_mapping_accepts_only_soccar() {
    assert_eq!(game_mode_from_rlbot(RlbotGameMode::Soccar), Ok(SimGameMode::Soccar));
    assert_eq!(
        game_mode_from_rlbot(RlbotGameMode::Hoops),
        Err(MatchContextError::UnsupportedGameMode(RlbotGameMode::Hoops))
    );
}

#[test]
fn the_first_faulty_configuration_is_reported() {
    let config = MatchSetup {
        game_mode: RlbotGameMode::Soccar,
        player_configurations: vec![bot(1, 0, Some(23)), bot(2, 1, Some(5)), bot(1, 0, Some(23))],
    };
    assert_eq!(
        MatchContext::new(&config, 0).unwrap_err(),
        MatchContextError::UnknownCarProductId { player_id: 2, product_id: 5 }
    );
}

#[test]
fn packet_player_must_fit_its_configured_loadout() {
    let context = MatchContext::new(&match_config(29), 1).unwrap();
    assert_eq!(
        context.body_config_for_packet_player(0, 7, 0, fits_only(CarBodyKind::Dominus)),
        Ok(CarBodyKind::Dominus)
    );
    assert_eq!(
        context.body_config_for_packet_player(0, 7, 0, fits_only(CarBodyKind::Octane)),
        Err(MatchContextError::HitboxMismatch { player_index: 0, player_id: 7 })
    );
    assert_eq!(
        context.body_config_for_packet_player(3, 7, 1, fits_only(CarBodyKind::Dominus)),
        Err(MatchContextError::ConfiguredTeamMismatch { player_index: 3, player_id: 7 })
    );
    assert_eq!(
        context.body_config_for_packet_player(2, 8, 0, fits_only(CarBodyKind::Dominus)),
        Err(MatchContextError::PlayerNotConfigured { player_index: 2, player_id: 8 })
    );
}

#[test]
fn participant_without_loadout_takes_first_fitting_hitbox() {
    let config = MatchSetup {
        game_mode: RlbotGameMode::Soccar,
        player_configurations: vec![PlayerConfig {
            variety: PlayerVariety::Human,
            team: 1,
            player_id: 4,
        }],
    };
    let context = MatchContext::new(&config, 0).unwrap();
    let mut fits = fits_only(CarBodyKind::Hybrid);
    fits.psyclops = true;
    assert_eq!(context.body_config_for_packet_player(0, 4, 1, fits), Ok(CarBodyKind::Hybrid));
    assert_eq!(
        context.body_config_for_packet_player(0, 4, 1, fits_only(CarBodyKind::Psyclops)),
        Ok(CarBodyKind::Psyclops)
    );
    assert_eq!(
        context.body_config_for_packet_player(5, 4, 1, fits_nothing()),
        Err(MatchContextError::UnknownPacketHitbox { player_index: 5, player_id: 4 })
    );
}
