//! Rules for reporting a simulated car as an RLBot player.

use vstd::prelude::*;

use crate::body::{car_body_config_for_product_id, product_body, CarBodyKind};
use crate::game::{team_index, team_number, AirState, Team};
use crate::match_context::{loadout_car_id, player_product_id, PlayerConfig, PlayerVariety};

verus! {

/// Errors raised when a simulated car cannot be reported as an RLBot player.
#[derive(Clone, Copy, Debug, PartialEq, Eq, Structural)]
pub enum ToRlbotError {
    MissingPlayerConfiguration { car_index: usize },
    TeamMismatch { car_index: usize, rocketsim_team: u32, configured_team: u32 },
    BodyConfigMismatch { car_index: usize, product_id: u32 },
    UnknownCarProductId { player_id: i32, product_id: u32 },
}

/// The jump, dodge, ground and demolition flags of a simulated car.
#[derive(Clone, Copy, Debug, PartialEq, Eq, Structural)]
pub struct CarStateFlags {
    pub is_jumping: bool,
    pub is_flipping: bool,
    pub has_jumped: bool,
    pub has_double_jumped: bool,
    pub has_flipped: bool,
    pub is_on_ground: bool,
    pub is_demoed: bool,
}

/// The air state reported for a car: an active jump, then an active dodge,
/// then a double jump still within RLBot's active window, then ground
/// contact, and otherwise free fall.
pub open spec fn spec_air_state(flags: CarStateFlags, double_jump_active: bool) -> AirState {
    if flags.is_jumping {
        AirState::Jumping
    } else if flags.is_flipping {
        AirState::Dodging
    } else if double_jump_active && flags.has_double_jumped {
        AirState::DoubleJumping
    } else if flags.is_on_ground {
        AirState::OnGround
    } else {
        AirState::InAir
    }
}

/// Whether a dodge timeout is reported (rather than RLBot's -1 sentinel):
/// the car is airborne after its own first jump, has neither double jumped
/// nor dodged, and the double-jump window since the jump has not elapsed.
pub open spec fn spec_dodge_timeout_running(
    air_state: AirState,
    flags: CarStateFlags,
    jump_window_elapsed: bool,
) -> bool {
    !(air_state == AirState::OnGround || !flags.has_jumped || flags.has_double_jumped
        || flags.has_flipped || jump_window_elapsed)
}

/// The character of a decimal digit.
pub open spec fn digit_char(d: nat) -> char {
    if d == 0 {
        '0'
    } else if d == 1 {
        '1'
    } else if d == 2 {
        '2'
    } else if d == 3 {
        '3'
    } else if d == 4 {
        '4'
    } else if d == 5 {
        '5'
    } else if d == 6 {
        '6'
    } else if d == 7 {
        '7'
    } else if d == 8 {
        '8'
    } else {
        '9'
    }
}

/// The decimal representation of `n`, without leading zeros.
pub open spec fn decimal(n: nat) -> Seq<char>
    decreases n,
{
    if n < 10 {
        seq![digit_char(n)]
    } else {
        decimal(n / 10) + seq![digit_char(n % 10)]
    }
}

/// The name under which an unnamed human participant is reported.
pub open spec fn human_name(player_index: nat) -> Seq<char> {
    seq!['H', 'u', 'm', 'a', 'n', ' '] + decimal(player_index)
}

/// The reported name of a participant, and whether it is a bot.
pub open spec fn spec_name_and_bot(variety: PlayerVariety, player_index: nat) -> (Seq<char>, bool) {
    match variety {
        PlayerVariety::CustomBot(bot) => (bot.name@, true),
        PlayerVariety::PsyonixBot(bot) => (bot.name@, true),
        PlayerVariety::Human => (human_name(player_index), false),
    }
}

/// Whether a simulated car agrees with its player configuration.
pub open spec fn spec_validate_player_config(
    car_index: usize,
    car_team: Team,
    car_body: Option<CarBodyKind>,
    config: PlayerConfig,
) -> Result<(), ToRlbotError> {
    if team_number(car_team) != config.team {
        Err(
            ToRlbotError::TeamMismatch {
                car_index,
                rocketsim_team: team_number(car_team),
                configured_team: config.team,
            },
        )
    } else {
        match loadout_car_id(config.variety) {
            None => Ok(()),
            Some(product_id) => match product_body(product_id) {
                None => Err(
                    ToRlbotError::UnknownCarProductId { player_id: config.player_id, product_id },
                ),
                Some(expected) => if car_body == Some(expected) {
                    Ok(())
                } else {
                    Err(ToRlbotError::BodyConfigMismatch { car_index, product_id })
                },
            },
        }
    }
}

/// The air state reported for a car (see [`spec_air_state`]).
pub fn air_state_for_car(flags: &CarStateFlags, double_jump_active: bool) -> (air_state: AirState)
    ensures
        air_state == spec_air_state(*flags, double_jump_active),
{
    if flags.is_jumping {
        AirState::Jumping
    } else if flags.is_flipping {
        AirState::Dodging
    } else if double_jump_active && flags.has_double_jumped {
        AirState::DoubleJumping
    } else if flags.is_on_ground {
        AirState::OnGround
    } else {
        AirState::InAir
    }
}

/// Whether a dodge timeout is reported for a car in `air_state`;
/// `jump_window_elapsed` tells whether the time since its jump has reached
/// the double-jump window.
pub fn dodge_timeout_running(
    air_state: AirState,
    flags: &CarStateFlags,
    jump_window_elapsed: bool,
) -> (running: bool)
    ensures
        running == spec_dodge_timeout_running(air_state, *flags, jump_window_elapsed),
{
    !(matches!(air_state, AirState::OnGround) || !flags.has_jumped || flags.has_double_jumped
        || flags.has_flipped || jump_window_elapsed)
}

/// Appends one decimal digit.
fn push_digit(s: &mut String, d: usize)
    requires
        d < 10,
    ensures
        final(s)@ == old(s)@.push(digit_char(d as nat)),
{
    match d {
        0 => {
            proof {
                reveal_strlit("0");
            }
            s.append("0");
        },
        1 => {
            proof {
                reveal_strlit("1");
            }
            s.append("1");
        },
        2 => {
            proof {
                reveal_strlit("2");
            }
            s.append("2");
        },
        3 => {
            proof {
                reveal_strlit("3");
            }
            s.append("3");
        },
        4 => {
            proof {
                reveal_strlit("4");
            }
            s.append("4");
        },
        5 => {
            proof {
                reveal_strlit("5");
            }
            s.append("5");
        },
        6 => {
            proof {
                reveal_strlit("6");
            }
            s.append("6");
        },
        7 => {
            proof {
                reveal_strlit("7");
            }
            s.append("7");
        },
        8 => {
            proof {
                reveal_strlit("8");
            }
            s.append("8");
        },
        _ => {
            proof {
                reveal_strlit("9");
            }
            s.append("9");
        },
    }
}

/// Appends the decimal representation of `n`.
fn push_decimal(s: &mut String, n: usize)
    ensures
        final(s)@ == old(s)@ + decimal(n as nat),
    decreases n,
{
    if n >= 10 {
        push_decimal(s, n / 10);
    }
    push_digit(s, n % 10);
    proof {
        if n >= 10 {
            assert(decimal(n as nat) == decimal((n / 10) as nat) + seq![digit_char((n % 10) as nat)]);
        }
    }
}

/// The reported name of a participant and whether it is a bot: a bot keeps
/// its configured name, and a human at packet index `i` is called "Human i".
pub fn player_name_and_bot(variety: &PlayerVariety, player_index: usize) -> (named: (String, bool))
    ensures
        (named.0@, named.1) == spec_name_and_bot(*variety, player_index as nat),
        named.1 <==> !(*variety is Human),
{
    match variety {
        PlayerVariety::CustomBot(bot) => (bot.name.clone(), true),
        PlayerVariety::PsyonixBot(bot) => (bot.name.clone(), true),
        PlayerVariety::Human => {
            proof {
                reveal_strlit("Human ");
            }
            let mut name = String::from_str("Human ");
            push_decimal(&mut name, player_index);
            (name, false)
        },
    }
}

/// Checks a simulated car against its player configuration: the teams must
/// agree, and a configured loadout must name a known product ID whose body
/// is the car's body. `car_body` is the preset the car was built with, if it
/// is one of the presets.
pub fn validate_player_config(
    car_index: usize,
    car_team: Team,
    car_body: Option<CarBodyKind>,
    config: &PlayerConfig,
) -> (r: Result<(), ToRlbotError>)
    ensures
        r == spec_validate_player_config(car_index, car_team, car_body, *config),
{
    let rocketsim_team = team_index(car_team);
    if rocketsim_team != config.team {
        return Err(
            ToRlbotError::TeamMismatch { car_index, rocketsim_team, configured_team: config.team },
        );
    }
    match player_product_id(&config.variety) {
        None => Ok(()),
        Some(product_id) => match car_body_config_for_product_id(product_id) {
            None => Err(ToRlbotError::UnknownCarProductId { player_id: config.player_id, product_id }),
            Some(expected) => {
                let agrees = match car_body {
                    Some(body) => body == expected,
                    None => false,
                };
                if agrees {
                    Ok(())
                } else {
                    Err(ToRlbotError::BodyConfigMismatch { car_index, product_id })
                }
            },
        },
    }
}

/// The player configuration of car `car_index`: the configuration at the same
/// position in the match's player list.
pub fn player_configuration_for_car(configs: &Vec<PlayerConfig>, car_index: usize) -> (r: Result<
    &PlayerConfig,
    ToRlbotError,
>)
    ensures
        car_index < configs@.len() ==> r == Ok::<&PlayerConfig, ToRlbotError>(&configs@[car_index as int]),
        car_index >= configs@.len() ==> r == Err::<&PlayerConfig, ToRlbotError>(
            ToRlbotError::MissingPlayerConfiguration { car_index },
        ),
{
    if car_index < configs.len() {
        Ok(&configs[car_index])
    } else {
        Err(ToRlbotError::MissingPlayerConfiguration { car_index })
    }
}

/// A participant is reported as a bot exactly when it is configured as one
/// (a custom or Psyonix bot), under its configured name; a human is reported
/// as "Human " followed by its packet index.
pub proof fn lemma_bots_are_reported_as_bots(variety: PlayerVariety, player_index: nat)
    ensures
        spec_name_and_bot(variety, player_index).1 <==> !(variety is Human),
        variety matches PlayerVariety::CustomBot(bot) ==> spec_name_and_bot(variety, player_index).0
            == bot.name@,
        variety matches PlayerVariety::PsyonixBot(bot) ==> spec_name_and_bot(variety, player_index).0
            == bot.name@,
        variety is Human ==> spec_name_and_bot(variety, player_index).0 == seq![
            'H',
            'u',
            'm',
            'a',
            'n',
            ' ',
        ] + decimal(player_index),
{
}

} // verus!
