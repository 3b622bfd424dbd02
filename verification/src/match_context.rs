//! Static match information: the configured players, their car bodies, and
//! the game mode, checked once before any packet is processed.

use vstd::prelude::*;

use crate::body::{car_body_config_for_product_id, product_body, CarBodyKind};

verus! {

/// Game modes that RLBot can configure for a match.
#[derive(Clone, Copy, Debug, PartialEq, Eq, Hash, Structural)]
pub enum RlbotGameMode {
    Soccar,
    Hoops,
    Dropshot,
    Snowday,
    Rumble,
    Heatseeker,
    Gridiron,
    Knockout,
}

/// Game modes that a RocketSim arena can be built with.
#[derive(Clone, Copy, Debug, PartialEq, Eq, Hash, Structural)]
pub enum SimGameMode {
    Soccar,
    Hoops,
    Heatseeker,
    Snowday,
    Dropshot,
    TheVoid,
}

/// Name and optional loadout car product ID of a configured bot.
#[derive(Clone, Debug, PartialEq, Eq)]
pub struct BotProfile {
    pub name: String,
    pub car_id: Option<u32>,
}

/// The kind of participant a player configuration describes.
#[derive(Clone, Debug, PartialEq, Eq)]
pub enum PlayerVariety {
    CustomBot(BotProfile),
    PsyonixBot(BotProfile),
    Human,
}

/// One entry of the match's player configurations.
#[derive(Clone, Debug, PartialEq, Eq)]
pub struct PlayerConfig {
    pub variety: PlayerVariety,
    pub team: u32,
    pub player_id: i32,
}

/// The parts of RLBot's match configuration that the match context reads.
#[derive(Clone, Debug, PartialEq, Eq)]
pub struct MatchSetup {
    pub game_mode: RlbotGameMode,
    pub player_configurations: Vec<PlayerConfig>,
}

/// For each hitbox family, whether a packet hitbox (size and offset) lies
/// within tolerance of that family's preset.
#[derive(Clone, Copy, Debug, PartialEq, Eq, Structural)]
pub struct HitboxMatches {
    pub octane: bool,
    pub dominus: bool,
    pub breakout: bool,
    pub merc: bool,
    pub plank: bool,
    pub hybrid: bool,
    pub psyclops: bool,
}

/// Errors raised while building a match context or matching packet players to it.
#[derive(Clone, Copy, Debug, PartialEq, Eq, Structural)]
pub enum MatchContextError {
    UnsupportedGameMode(RlbotGameMode),
    UnknownCarProductId { player_id: i32, product_id: u32 },
    UnknownPacketHitbox { player_index: usize, player_id: i32 },
    PlayerNotConfigured { player_index: usize, player_id: i32 },
    ConfiguredTeamMismatch { player_index: usize, player_id: i32 },
    HitboxMismatch { player_index: usize, player_id: i32 },
    BoostPadCountMismatch { packet: usize, arena: usize },
    DuplicatePlayerId { player_id: i32 },
}

/// A configured participant: its ID, team, and the body its loadout implies.
#[derive(Clone, Copy, Debug, PartialEq, Eq, Structural)]
pub struct ConfiguredPlayer {
    pub player_id: i32,
    pub team: u32,
    pub body: Option<CarBodyKind>,
}

/// Validated match information shared by all packets of a match.
#[derive(Clone, Debug)]
pub struct MatchContext {
    game_mode: SimGameMode,
    custom_boost_pads: bool,
    players: Vec<ConfiguredPlayer>,
}

/// The mathematical content of a [`MatchContext`].
pub struct MatchContextView {
    pub game_mode: SimGameMode,
    pub custom_boost_pads: bool,
    pub players: Seq<ConfiguredPlayer>,
}

impl View for MatchContext {
    type V = MatchContextView;

    closed spec fn view(&self) -> MatchContextView {
        MatchContextView {
            game_mode: self.game_mode,
            custom_boost_pads: self.custom_boost_pads,
            players: self.players@,
        }
    }
}

impl HitboxMatches {
    /// Whether the hitbox lies within tolerance of `body`'s preset.
    pub open spec fn fits(self, body: CarBodyKind) -> bool {
        match body {
            CarBodyKind::Octane => self.octane,
            CarBodyKind::Dominus => self.dominus,
            CarBodyKind::Breakout => self.breakout,
            CarBodyKind::Merc => self.merc,
            CarBodyKind::Plank => self.plank,
            CarBodyKind::Hybrid => self.hybrid,
            CarBodyKind::Psyclops => self.psyclops,
        }
    }

    /// The first fitting family in preset order
    /// (Octane, Dominus, Breakout, Merc, Plank, Hybrid, Psyclops).
    pub open spec fn first_fit(self) -> Option<CarBodyKind> {
        if self.octane {
            Some(CarBodyKind::Octane)
        } else if self.dominus {
            Some(CarBodyKind::Dominus)
        } else if self.breakout {
            Some(CarBodyKind::Breakout)
        } else if self.merc {
            Some(CarBodyKind::Merc)
        } else if self.plank {
            Some(CarBodyKind::Plank)
        } else if self.hybrid {
            Some(CarBodyKind::Hybrid)
        } else if self.psyclops {
            Some(CarBodyKind::Psyclops)
        } else {
            None
        }
    }

    /// Whether the hitbox fits `body`.
    pub fn matches(&self, body: CarBodyKind) -> (fits: bool)
        ensures
            fits == self.fits(body),
    {
        match body {
            CarBodyKind::Octane => self.octane,
            CarBodyKind::Dominus => self.dominus,
            CarBodyKind::Breakout => self.breakout,
            CarBodyKind::Merc => self.merc,
            CarBodyKind::Plank => self.plank,
            CarBodyKind::Hybrid => self.hybrid,
            CarBodyKind::Psyclops => self.psyclops,
        }
    }

    /// The first family in preset order that the hitbox fits.
    pub fn body_for_hitbox(&self) -> (body: Option<CarBodyKind>)
        ensures
            body == self.first_fit(),
            body matches Some(b) ==> self.fits(b),
            body is None ==> forall|b: CarBodyKind| !self.fits(b),
    {
        if self.octane {
            Some(CarBodyKind::Octane)
        } else if self.dominus {
            Some(CarBodyKind::Dominus)
        } else if self.breakout {
            Some(CarBodyKind::Breakout)
        } else if self.merc {
            Some(CarBodyKind::Merc)
        } else if self.plank {
            Some(CarBodyKind::Plank)
        } else if self.hybrid {
            Some(CarBodyKind::Hybrid)
        } else if self.psyclops {
            Some(CarBodyKind::Psyclops)
        } else {
            None
        }
    }
}

/// The RocketSim mode for an RLBot mode: only Soccar is supported.
pub open spec fn sim_game_mode(mode: RlbotGameMode) -> Result<SimGameMode, MatchContextError> {
    match mode {
        RlbotGameMode::Soccar => Ok(SimGameMode::Soccar),
        _ => Err(MatchContextError::UnsupportedGameMode(mode)),
    }
}

/// The loadout car product ID of a player configuration, if it has a loadout.
pub open spec fn loadout_car_id(variety: PlayerVariety) -> Option<u32> {
    match variety {
        PlayerVariety::CustomBot(bot) => bot.car_id,
        PlayerVariety::PsyonixBot(bot) => bot.car_id,
        PlayerVariety::Human => None,
    }
}

/// The configured participant that a player configuration describes.
pub open spec fn configured_player_of(player: PlayerConfig) -> ConfiguredPlayer {
    ConfiguredPlayer {
        player_id: player.player_id,
        team: player.team,
        body: match loadout_car_id(player.variety) {
            Some(car_id) => product_body(car_id),
            None => None,
        },
    }
}

/// The problem with configuration `i`, given the configurations before it.
pub open spec fn player_setup_error(players: Seq<PlayerConfig>, i: int) -> Option<MatchContextError> {
    if exists|j: int| 0 <= j < i && players[j].player_id == players[i].player_id {
        Some(MatchContextError::DuplicatePlayerId { player_id: players[i].player_id })
    } else {
        match loadout_car_id(players[i].variety) {
            Some(car_id) => if product_body(car_id) is None {
                Some(
                    MatchContextError::UnknownCarProductId {
                        player_id: players[i].player_id,
                        product_id: car_id,
                    },
                )
            } else {
                None
            },
            None => None,
        }
    }
}

/// The problem with the first faulty configuration among the first `n`.
pub open spec fn first_setup_error(players: Seq<PlayerConfig>, n: nat) -> Option<MatchContextError>
    decreases n,
{
    if n == 0 {
        None
    } else {
        match first_setup_error(players, (n - 1) as nat) {
            Some(e) => Some(e),
            None => player_setup_error(players, n - 1),
        }
    }
}

/// What building a match context from `setup` gives, with `field_boost_pads`
/// boost pads listed in the field information.
pub open spec fn match_context_spec(setup: MatchSetup, field_boost_pads: nat) -> Result<
    MatchContextView,
    MatchContextError,
> {
    let players = setup.player_configurations@;
    match sim_game_mode(setup.game_mode) {
        Err(e) => Err(e),
        Ok(mode) => match first_setup_error(players, players.len()) {
            Some(e) => Err(e),
            None => Ok(
                MatchContextView {
                    game_mode: mode,
                    custom_boost_pads: field_boost_pads > 0 && mode != SimGameMode::Dropshot,
                    players: players.map_values(|p: PlayerConfig| configured_player_of(p)),
                },
            ),
        },
    }
}

/// The first index below `n` of a configured participant with `player_id`.
pub open spec fn find_configured(players: Seq<ConfiguredPlayer>, player_id: i32, n: nat) -> Option<
    int,
>
    decreases n,
{
    if n == 0 {
        None
    } else {
        match find_configured(players, player_id, (n - 1) as nat) {
            Some(k) => Some(k),
            None => if players[n - 1].player_id == player_id {
                Some(n - 1)
            } else {
                None
            },
        }
    }
}

/// The body a packet player must have, according to the match configuration.
pub open spec fn packet_body_spec(
    ctx: MatchContextView,
    player_index: usize,
    player_id: i32,
    team: u32,
    hitbox: HitboxMatches,
) -> Result<CarBodyKind, MatchContextError> {
    match find_configured(ctx.players, player_id, ctx.players.len()) {
        None => Err(MatchContextError::PlayerNotConfigured { player_index, player_id }),
        Some(k) => {
            let configured = ctx.players[k];
            if configured.team != team {
                Err(MatchContextError::ConfiguredTeamMismatch { player_index, player_id })
            } else {
                match configured.body {
                    Some(body) => if hitbox.fits(body) {
                        Ok(body)
                    } else {
                        Err(MatchContextError::HitboxMismatch { player_index, player_id })
                    },
                    None => match hitbox.first_fit() {
                        Some(body) => Ok(body),
                        None => Err(MatchContextError::UnknownPacketHitbox { player_index, player_id }),
                    },
                }
            }
        },
    }
}

/// The RocketSim game mode for an RLBot game mode.
pub fn game_mode_from_rlbot(mode: RlbotGameMode) -> (r: Result<SimGameMode, MatchContextError>)
    ensures
        r == sim_game_mode(mode),
{
    match mode {
        RlbotGameMode::Soccar => Ok(SimGameMode::Soccar),
        _ => Err(MatchContextError::UnsupportedGameMode(mode)),
    }
}

/// The loadout car product ID of a player configuration, if any.
pub fn player_product_id(variety: &PlayerVariety) -> (car_id: Option<u32>)
    ensures
        car_id == loadout_car_id(*variety),
{
    match variety {
        PlayerVariety::CustomBot(bot) => bot.car_id,
        PlayerVariety::PsyonixBot(bot) => bot.car_id,
        PlayerVariety::Human => None,
    }
}

proof fn lemma_first_setup_error_step(players: Seq<PlayerConfig>, n: nat)
    requires
        n < players.len(),
        first_setup_error(players, n) is None,
    ensures
        first_setup_error(players, n + 1) == player_setup_error(players, n as int),
        first_setup_error(players, n + 1) is Some ==> first_setup_error(players, players.len())
            == first_setup_error(players, n + 1),
{
    if first_setup_error(players, n + 1) is Some {
        lemma_first_setup_error_stable(players, n + 1);
    }
}

/// Once a faulty configuration is found, later ones do not change the error.
proof fn lemma_first_setup_error_stable(players: Seq<PlayerConfig>, n: nat)
    requires
        n <= players.len(),
        first_setup_error(players, n) is Some,
    ensures
        first_setup_error(players, players.len()) == first_setup_error(players, n),
    decreases players.len() - n,
{
    if n < players.len() {
        lemma_first_setup_error_stable(players, n + 1);
    }
}

impl MatchContext {
    /// Checks the match configuration and records every configured participant.
    ///
    /// Fails on any game mode but Soccar, and otherwise on the first player
    /// configuration that repeats an earlier participant ID or whose loadout
    /// names an unknown car product ID.
    pub fn new(match_config: &MatchSetup, field_boost_pads: usize) -> (r: Result<
        MatchContext,
        MatchContextError,
    >)
        ensures
            match r {
                Ok(ctx) => match_context_spec(*match_config, field_boost_pads as nat) == Ok::<
                    MatchContextView,
                    MatchContextError,
                >(ctx@),
                Err(e) => match_context_spec(*match_config, field_boost_pads as nat) == Err::<
                    MatchContextView,
                    MatchContextError,
                >(e),
            },
    {
        let game_mode = match game_mode_from_rlbot(match_config.game_mode) {
            Ok(mode) => mode,
            Err(e) => return Err(e),
        };
        let configs = &match_config.player_configurations;
        let ghost cfg = configs@;
        let mut players: Vec<ConfiguredPlayer> = Vec::new();
        let mut i: usize = 0;
        while i < configs.len()
            invariant
                cfg == configs@,
                cfg == match_config.player_configurations@,
                sim_game_mode(match_config.game_mode) == Ok::<SimGameMode, MatchContextError>(
                    game_mode,
                ),
                i <= cfg.len(),
                first_setup_error(cfg, i as nat) is None,
                players@ == cfg.take(i as int).map_values(|p: PlayerConfig| configured_player_of(p)),
            decreases cfg.len() - i,
        {
            let player = &configs[i];
            let mut j: usize = 0;
            while j < i
                invariant
                    cfg == configs@,
                    cfg == match_config.player_configurations@,
                    sim_game_mode(match_config.game_mode) == Ok::<SimGameMode, MatchContextError>(
                        game_mode,
                    ),
                    i < cfg.len(),
                    j <= i,
                    *player == cfg[i as int],
                    first_setup_error(cfg, i as nat) is None,
                    forall|k: int| 0 <= k < j ==> cfg[k].player_id != cfg[i as int].player_id,
                decreases i - j,
            {
                if configs[j].player_id == player.player_id {
                    proof {
                        assert(cfg[j as int].player_id == cfg[i as int].player_id);
                        lemma_first_setup_error_step(cfg, i as nat);
                    }
                    return Err(MatchContextError::DuplicatePlayerId { player_id: player.player_id });
                }
                j += 1;
            }
            let body = match player_product_id(&player.variety) {
                Some(car_id) => match car_body_config_for_product_id(car_id) {
                    Some(body) => Some(body),
                    None => {
                        proof {
                            assert(!exists|j: int| 0 <= j < i && cfg[j].player_id == cfg[i as int].player_id);
                            lemma_first_setup_error_step(cfg, i as nat);
                        }
                        return Err(
                            MatchContextError::UnknownCarProductId {
                                player_id: player.player_id,
                                product_id: car_id,
                            },
                        );
                    },
                },
                None => None,
            };
            proof {
                lemma_first_setup_error_step(cfg, i as nat);
            }
            players.push(ConfiguredPlayer { player_id: player.player_id, team: player.team, body });
            proof {
                assert(cfg.take(i + 1) == cfg.take(i as int).push(cfg[i as int]));
            }
            i += 1;
        }
        proof {
            assert(cfg.take(cfg.len() as int) == cfg);
        }
        let custom_boost_pads = field_boost_pads > 0 && !matches!(game_mode, SimGameMode::Dropshot);
        Ok(MatchContext { game_mode, custom_boost_pads, players })
    }

    /// The arena game mode of the match.
    pub fn game_mode(&self) -> (mode: SimGameMode)
        ensures
            mode == self@.game_mode,
    {
        self.game_mode
    }

    /// Whether the arena uses the boost pad layout from the field information
    /// instead of the mode's default layout.
    pub fn uses_custom_boost_pads(&self) -> (custom: bool)
        ensures
            custom == self@.custom_boost_pads,
    {
        self.custom_boost_pads
    }

    /// The body a packet player must have: the body implied by its configured
    /// loadout (which the packet hitbox must fit), or, for a participant
    /// without a loadout, the first family its hitbox fits.
    pub fn body_config_for_packet_player(
        &self,
        player_index: usize,
        player_id: i32,
        team: u32,
        hitbox: HitboxMatches,
    ) -> (r: Result<CarBodyKind, MatchContextError>)
        ensures
            r == packet_body_spec(self@, player_index, player_id, team, hitbox),
    {
        let mut i: usize = 0;
        while i < self.players.len()
            invariant
                i <= self.players@.len(),
                find_configured(self.players@, player_id, i as nat) is None,
            decreases self.players@.len() - i,
        {
            let configured = self.players[i];
            if configured.player_id == player_id {
                assert(find_configured(self.players@, player_id, (i + 1) as nat) == Some(i as int));
                proof {
                    lemma_find_configured_extends(self.players@, player_id, (i + 1) as nat);
                }
                if configured.team != team {
                    return Err(MatchContextError::ConfiguredTeamMismatch { player_index, player_id });
                }
                return match configured.body {
                    Some(body) => if hitbox.matches(body) {
                        Ok(body)
                    } else {
                        Err(MatchContextError::HitboxMismatch { player_index, player_id })
                    },
                    None => match hitbox.body_for_hitbox() {
                        Some(body) => Ok(body),
                        None => Err(MatchContextError::UnknownPacketHitbox { player_index, player_id }),
                    },
                };
            }
            i += 1;
        }
        Err(MatchContextError::PlayerNotConfigured { player_index, player_id })
    }
}

/// Once a participant is found among the first `n`, it stays the first match.
proof fn lemma_find_configured_extends(players: Seq<ConfiguredPlayer>, player_id: i32, n: nat)
    requires
        n <= players.len(),
        find_configured(players, player_id, n) is Some,
    ensures
        find_configured(players, player_id, players.len()) == find_configured(players, player_id, n),
    decreases players.len() - n,
{
    if n < players.len() {
        lemma_find_configured_extends(players, player_id, n + 1);
    }
}

/// A match context never configures two participants with the same ID.
pub proof fn lemma_configured_ids_distinct(setup: MatchSetup, field_boost_pads: nat)
    requires
        match_context_spec(setup, field_boost_pads) is Ok,
    ensures
        forall|a: int, b: int|
            0 <= a < b < match_context_spec(setup, field_boost_pads)->Ok_0.players.len() ==> #[trigger] match_context_spec(
                setup,
                field_boost_pads,
            )->Ok_0.players[a].player_id != #[trigger] match_context_spec(
                setup,
                field_boost_pads,
            )->Ok_0.players[b].player_id,
{
    let players = setup.player_configurations@;
    let view = match_context_spec(setup, field_boost_pads)->Ok_0;
    assert forall|a: int, b: int| 0 <= a < b < view.players.len() implies #[trigger] view.players[a].player_id
        != #[trigger] view.players[b].player_id by {
        lemma_first_setup_error_prefix(players, (b + 1) as nat, players.len());
        assert(player_setup_error(players, b) is None);
        assert(players[a].player_id != players[b].player_id);
    }
}

proof fn lemma_first_setup_error_prefix(players: Seq<PlayerConfig>, m: nat, n: nat)
    requires
        m <= n <= players.len(),
        first_setup_error(players, n) is None,
    ensures
        first_setup_error(players, m) is None,
    decreases n - m,
{
    if m < n {
        lemma_first_setup_error_prefix(players, m, (n - 1) as nat);
    }
}

/// A packet player accepted by the match context has a hitbox that fits the
/// body it is given, and a participant with a configured loadout is given
/// exactly that loadout's body.
pub proof fn lemma_packet_body_fits_hitbox(
    ctx: MatchContextView,
    player_index: usize,
    player_id: i32,
    team: u32,
    hitbox: HitboxMatches,
)
    requires
        packet_body_spec(ctx, player_index, player_id, team, hitbox) is Ok,
    ensures
        hitbox.fits(packet_body_spec(ctx, player_index, player_id, team, hitbox)->Ok_0),
        find_configured(ctx.players, player_id, ctx.players.len()) matches Some(k) && ctx.players[k].body
            matches Some(body) ==> packet_body_spec(ctx, player_index, player_id, team, hitbox)->Ok_0
            == body,
{
}

} // verus!
