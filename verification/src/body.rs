//! Rocket League car product IDs and the hitbox families RocketSim simulates.

use vstd::prelude::*;

verus! {

/// A RocketSim hitbox family (one of the preset car body configurations).
#[derive(Clone, Copy, Debug, PartialEq, Eq, Hash, Structural)]
pub enum CarBodyKind {
    Octane,
    Dominus,
    Breakout,
    Merc,
    Plank,
    Hybrid,
    Psyclops,
}

/// The hitbox family of a Rocket League body product ID, if the ID is known.
pub open spec fn product_body(product_id: u32) -> Option<CarBodyKind> {
    match product_id {
        21 | 23 | 25 | 26 | 27 | 402 | 404 | 523 | 607 | 625 | 723 | 1172 | 1295 | 1300 | 1475
        | 1478 | 1533 | 1568 | 1623 | 2313 | 2665 | 2853 | 2919 | 2949 | 4284 | 4318 | 4319
        | 4320 | 4782 | 4906 | 5020 | 5039 | 5188 | 5361 | 5547 | 5713 | 5837 | 5951 | 6939
        | 7947 | 7948 | 8383 | 8806 | 8807 | 10896 | 10897 | 10900 | 10901 | 11603 => Some(
            CarBodyKind::Octane,
        ),
        29 | 403 | 597 | 600 | 1018 | 1171 | 1286 | 1675 | 1689 | 1883 | 2070 | 2268 | 2298
        | 2666 | 2950 | 2951 | 3155 | 3156 | 3157 | 3265 | 3426 | 3875 | 3879 | 3880 | 4014
        | 4155 | 4367 | 4472 | 4473 | 4745 | 4770 | 4781 | 4861 | 4864 | 5709 | 5773 | 5823
        | 5858 | 5964 | 5979 | 6122 | 6244 | 6247 | 6260 | 6836 | 7211 | 7337 | 7338 | 7341
        | 7343 | 7415 | 7512 | 7532 | 7593 | 7772 | 8454 | 9053 | 9088 | 9089 | 9140 | 9388
        | 9894 | 10440 | 10441 | 10694 | 11016 | 11095 | 11315 | 11336 => Some(
            CarBodyKind::Dominus,
        ),
        22 | 1416 | 1894 | 1932 | 3031 | 3311 | 6243 | 6489 | 7651 | 7696 | 7890 | 7901 | 8006
        | 8360 | 8361 | 8565 | 8566 | 8669 | 9357 | 10697 | 10698 | 10817 | 10822 | 11038
        | 11394 | 11505 | 11800 => Some(CarBodyKind::Breakout),
        30 | 4780 | 7336 | 7477 | 7815 | 7979 | 10689 | 11098 | 11314 => Some(CarBodyKind::Merc),
        24 | 803 | 1603 | 1691 | 1919 | 3594 | 3614 | 3622 | 4268 | 5265 | 7052 | 8524 => Some(
            CarBodyKind::Plank,
        ),
        28 | 31 | 1159 | 1317 | 1624 | 1856 | 2269 | 3451 | 3582 | 3702 | 5470 | 5488 | 5879
        | 7012 | 9084 | 9085 | 9427 | 10044 | 10805 | 11138 | 11141 | 11379 => Some(
            CarBodyKind::Hybrid,
        ),
        _ => None,
    }
}

/// Maps a Rocket League body product ID to its RocketSim hitbox family.
#[must_use]
pub fn car_body_config_for_product_id(product_id: u32) -> (body: Option<CarBodyKind>)
    ensures
        body == product_body(product_id),
{
    match product_id {
        21 | 23 | 25 | 26 | 27 | 402 | 404 | 523 | 607 | 625 | 723 | 1172 | 1295 | 1300 | 1475
        | 1478 | 1533 | 1568 | 1623 | 2313 | 2665 | 2853 | 2919 | 2949 | 4284 | 4318 | 4319
        | 4320 | 4782 | 4906 | 5020 | 5039 | 5188 | 5361 | 5547 | 5713 | 5837 | 5951 | 6939
        | 7947 | 7948 | 8383 | 8806 | 8807 | 10896 | 10897 | 10900 | 10901 | 11603 => Some(
            CarBodyKind::Octane,
        ),
        29 | 403 | 597 | 600 | 1018 | 1171 | 1286 | 1675 | 1689 | 1883 | 2070 | 2268 | 2298
        | 2666 | 2950 | 2951 | 3155 | 3156 | 3157 | 3265 | 3426 | 3875 | 3879 | 3880 | 4014
        | 4155 | 4367 | 4472 | 4473 | 4745 | 4770 | 4781 | 4861 | 4864 | 5709 | 5773 | 5823
        | 5858 | 5964 | 5979 | 6122 | 6244 | 6247 | 6260 | 6836 | 7211 | 7337 | 7338 | 7341
        | 7343 | 7415 | 7512 | 7532 | 7593 | 7772 | 8454 | 9053 | 9088 | 9089 | 9140 | 9388
        | 9894 | 10440 | 10441 | 10694 | 11016 | 11095 | 11315 | 11336 => Some(
            CarBodyKind::Dominus,
        ),
        22 | 1416 | 1894 | 1932 | 3031 | 3311 | 6243 | 6489 | 7651 | 7696 | 7890 | 7901 | 8006
        | 8360 | 8361 | 8565 | 8566 | 8669 | 9357 | 10697 | 10698 | 10817 | 10822 | 11038
        | 11394 | 11505 | 11800 => Some(CarBodyKind::Breakout),
        30 | 4780 | 7336 | 7477 | 7815 | 7979 | 10689 | 11098 | 11314 => Some(CarBodyKind::Merc),
        24 | 803 | 1603 | 1691 | 1919 | 3594 | 3614 | 3622 | 4268 | 5265 | 7052 | 8524 => Some(
            CarBodyKind::Plank,
        ),
        28 | 31 | 1159 | 1317 | 1624 | 1856 | 2269 | 3451 | 3582 | 3702 | 5470 | 5488 | 5879
        | 7012 | 9084 | 9085 | 9427 | 10044 | 10805 | 11138 | 11141 | 11379 => Some(
            CarBodyKind::Hybrid,
        ),
        _ => None,
    }
}

/// The body product IDs of the Octane hitbox family.
pub open spec fn octane_product_ids() -> Set<u32> {
    set![
        21, 23, 25, 26, 27, 402, 404, 523, 607, 625, 723, 1172, 1295, 1300, 1475, 1478, 1533,
        1568, 1623, 2313, 2665, 2853, 2919, 2949, 4284, 4318, 4319, 4320, 4782, 4906, 5020, 5039,
        5188, 5361, 5547, 5713, 5837, 5951, 6939, 7947, 7948, 8383, 8806, 8807, 10896, 10897,
        10900, 10901, 11603,
    ]
}

/// The body product IDs of the Dominus hitbox family.
pub open spec fn dominus_product_ids() -> Set<u32> {
    set![
        29, 403, 597, 600, 1018, 1171, 1286, 1675, 1689, 1883, 2070, 2268, 2298, 2666, 2950,
        2951, 3155, 3156, 3157, 3265, 3426, 3875, 3879, 3880, 4014, 4155, 4367, 4472, 4473, 4745,
        4770, 4781, 4861, 4864, 5709, 5773, 5823, 5858, 5964, 5979, 6122, 6244, 6247, 6260, 6836,
        7211, 7337, 7338, 7341, 7343, 7415, 7512, 7532, 7593, 7772, 8454, 9053, 9088, 9089, 9140,
        9388, 9894, 10440, 10441, 10694, 11016, 11095, 11315, 11336,
    ]
}

/// The body product IDs of the Breakout hitbox family.
pub open spec fn breakout_product_ids() -> Set<u32> {
    set![
        22, 1416, 1894, 1932, 3031, 3311, 6243, 6489, 7651, 7696, 7890, 7901, 8006, 8360, 8361,
        8565, 8566, 8669, 9357, 10697, 10698, 10817, 10822, 11038, 11394, 11505, 11800,
    ]
}

/// The body product IDs of the Merc hitbox family.
pub open spec fn merc_product_ids() -> Set<u32> {
    set![
        30, 4780, 7336, 7477, 7815, 7979, 10689, 11098, 11314,
    ]
}

/// The body product IDs of the Plank hitbox family.
pub open spec fn plank_product_ids() -> Set<u32> {
    set![
        24, 803, 1603, 1691, 1919, 3594, 3614, 3622, 4268, 5265, 7052, 8524,
    ]
}

/// The body product IDs of the Hybrid hitbox family.
pub open spec fn hybrid_product_ids() -> Set<u32> {
    set![
        28, 31, 1159, 1317, 1624, 1856, 2269, 3451, 3582, 3702, 5470, 5488, 5879, 7012, 9084,
        9085, 9427, 10044, 10805, 11138, 11141, 11379,
    ]
}

/// The product ID table: each ID of a family's list maps to that family, and
/// every ID in none of the lists (Psyclops has none) maps to no family.
pub proof fn lemma_product_table(product_id: u32)
    ensures
        octane_product_ids().contains(product_id) ==> product_body(product_id) == Some(CarBodyKind::Octane),
        dominus_product_ids().contains(product_id) ==> product_body(product_id) == Some(CarBodyKind::Dominus),
        breakout_product_ids().contains(product_id) ==> product_body(product_id) == Some(CarBodyKind::Breakout),
        merc_product_ids().contains(product_id) ==> product_body(product_id) == Some(CarBodyKind::Merc),
        plank_product_ids().contains(product_id) ==> product_body(product_id) == Some(CarBodyKind::Plank),
        hybrid_product_ids().contains(product_id) ==> product_body(product_id) == Some(CarBodyKind::Hybrid),
        (!octane_product_ids().contains(product_id) && !dominus_product_ids().contains(product_id) && !breakout_product_ids().contains(product_id) && !merc_product_ids().contains(product_id) && !plank_product_ids().contains(product_id) && !hybrid_product_ids().contains(product_id)) ==> product_body(product_id) is None,
{
}

} // verus!
