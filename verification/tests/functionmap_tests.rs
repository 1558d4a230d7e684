use overlay_core::functionmap::{fallback, type_key_of, FunctionMap, HandlerKind};

#[test]
fn three_token_name_routes_by_its_second_token() {
    let registry = FunctionMap::new();
    assert_eq!(type_key_of(b"AI_SmallShipTemplate_C"), Some(&b"SmallShipTemplate"[..]));
    assert_eq!(registry.exact("AI_SmallShipTemplate_C"), Some(HandlerKind::Ship));
    assert_eq!(registry.dispatch("AI_SmallShipTemplate_C"), Some(HandlerKind::Ship));
}

#[test]
fn one_token_name_never_matches_exactly() {
    let registry = FunctionMap::new();
    assert_eq!(type_key_of(b"Foo"), None);
    assert_eq!(registry.exact("Foo"), None);
    assert_eq!(registry.dispatch("Foo"), None);
    // even a registered key, standing alone, is no exact match
    assert_eq!(registry.exact("SmallShipTemplate"), None);
    assert_eq!(registry.exact("PlayerPirate"), None);
    // but the substring chain sees it
    assert_eq!(registry.exact("DamageZone"), None);
    assert_eq!(registry.dispatch("DamageZone"), Some(HandlerKind::DamageZone));
    assert_eq!(registry.dispatch("Gunpowder"), Some(HandlerKind::Gunpowder));
}

#[test]
fn two_token_name_has_no_type_key() {
    let registry = FunctionMap::new();
    assert_eq!(type_key_of(b"BP_PlayerPirate"), None);
    assert_eq!(registry.exact("BP_PlayerPirate"), None);
    assert_eq!(registry.dispatch("BP_PlayerPirate"), None);
}

#[test]
fn type_key_is_between_first_and_second_separator() {
    assert_eq!(type_key_of(b"a_b_c"), Some(&b"b"[..]));
    assert_eq!(type_key_of(b"a_b_c_d_e"), Some(&b"b"[..]));
    assert_eq!(type_key_of(b"a__c"), Some(&b""[..]));
    assert_eq!(type_key_of(b"__"), Some(&b""[..]));
    assert_eq!(type_key_of(b"_x_"), Some(&b"x"[..]));
    assert_eq!(type_key_of(b"_"), None);
    assert_eq!(type_key_of(b""), None);
    assert_eq!(type_key_of(b"ab_cd"), None);
}

#[test]
fn type_key_agrees_with_split() {
    for name in ["BP_SmallShipTemplate_C", "x_y", "", "___", "a_b_", "_a_b", "BP_Large_Ship_Net"] {
        let tokens: Vec<&str> = name.split('_').collect();
        let expected = if tokens.len() >= 3 { Some(tokens[1].as_bytes()) } else { None };
        assert_eq!(type_key_of(name.as_bytes()), expected, "{}", name);
    }
}

#[test]
fn every_registered_key_has_its_handler() {
    let registry = FunctionMap::new();
    let ships = [
        "SmallShipTemplate",
        "SmallShipNetProxy",
        "MediumShipTemplate",
        "MediumShipNetProxy",
        "LargeShipTemplate",
        "LargeShipNetProxy",
        "AISmallShipTemplate",
        "AISmallShipNetProxy",
        "AILargeShipTemplate",
        "AILargeShipNetProxy",
    ];
    for key in ships {
        assert_eq!(registry.get(key.as_bytes()), Some(HandlerKind::Ship), "{}", key);
        assert_eq!(registry.exact(&format!("BP_{}_C", key)), Some(HandlerKind::Ship));
    }
    assert_eq!(registry.get(b"PlayerPirate"), Some(HandlerKind::Player));
    assert_eq!(registry.get(b"TreasureChest"), Some(HandlerKind::Treasure));
    assert_eq!(registry.get(b"BountyRewardSkull"), Some(HandlerKind::Treasure));
    assert_eq!(registry.get(b"TreasureArtifact"), Some(HandlerKind::Treasure));
    assert_eq!(registry.get(b"DamageZone"), Some(HandlerKind::DamageZone));
    assert_eq!(registry.get(b"ShipCookingPot"), Some(HandlerKind::CookingPot));
}

#[test]
fn unregistered_keys_have_no_handler() {
    let registry = FunctionMap::new();
    assert_eq!(registry.get(b"MerchantCrate"), None);
    assert_eq!(registry.get(b""), None);
    assert_eq!(registry.get(b"SmallShipTemplat"), None);
    assert_eq!(registry.get(b"SmallShipTemplatee"), None);
    assert_eq!(registry.get(b"smallshiptemplate"), None);
    assert_eq!(registry.exact("BP_MerchantCrate_C"), None);
}

#[test]
fn fallback_chain_is_ordered() {
    assert_eq!(fallback(b"BP_GunpowderBarrel_C"), Some(HandlerKind::Gunpowder));
    assert_eq!(fallback(b"BP_Hull_DamageZone"), Some(HandlerKind::DamageZone));
    assert_eq!(fallback(b"IslandService"), Some(HandlerKind::IslandService));
    assert_eq!(fallback(b"BP_TreasureMap_C"), Some(HandlerKind::TreasureMap));
    assert_eq!(fallback(b"xBP_TreasureMap_Cx"), Some(HandlerKind::TreasureMap));
    assert_eq!(fallback(b"BP_TreasureMap"), None);
    assert_eq!(fallback(b"TreasureMap_C"), None);
    assert_eq!(fallback(b"Seagull"), None);
    assert_eq!(fallback(b""), None);
    // the first marker of the chain wins
    assert_eq!(fallback(b"DamageZone_Gunpowder"), Some(HandlerKind::Gunpowder));
    assert_eq!(fallback(b"IslandService_DamageZone"), Some(HandlerKind::DamageZone));
    assert_eq!(fallback(b"BP_TreasureMap_C_IslandService"), Some(HandlerKind::IslandService));
}

#[test]
fn fallback_is_case_sensitive_and_contiguous() {
    assert_eq!(fallback(b"gunpowder"), None);
    assert_eq!(fallback(b"Gun_powder"), None);
    assert_eq!(fallback(b"Gunpowde"), None);
    assert_eq!(fallback(b"GGunpowderr"), Some(HandlerKind::Gunpowder));
}

#[test]
fn exact_match_wins_over_the_chain() {
    let registry = FunctionMap::new();
    // the key is registered for loot, the name also holds a marker of the chain
    assert_eq!(registry.dispatch("BP_TreasureChest_Gunpowder"), Some(HandlerKind::Treasure));
    assert_eq!(registry.exact("BP_TreasureChest_Gunpowder"), Some(HandlerKind::Treasure));
}

#[test]
fn exact_miss_falls_through_to_the_chain() {
    let registry = FunctionMap::new();
    assert_eq!(registry.exact("BP_GunpowderBarrel_C"), None);
    assert_eq!(registry.dispatch("BP_GunpowderBarrel_C"), Some(HandlerKind::Gunpowder));
    assert_eq!(registry.dispatch("BP_TreasureMap_C"), Some(HandlerKind::TreasureMap));
    assert_eq!(registry.dispatch("BP_IslandService_C"), Some(HandlerKind::IslandService));
    assert_eq!(registry.dispatch("BP_Seagull_C"), None);
}

#[test]
fn register_adds_and_replaces() {
    let mut registry = FunctionMap::empty();
    assert_eq!(registry.get(b"Kraken"), None);
    registry.register("Kraken", HandlerKind::Ship);
    assert_eq!(registry.get(b"Kraken"), Some(HandlerKind::Ship));
    registry.register("Shark", HandlerKind::Player);
    registry.register("Kraken", HandlerKind::Treasure);
    assert_eq!(registry.get(b"Kraken"), Some(HandlerKind::Treasure));
    assert_eq!(registry.get(b"Shark"), Some(HandlerKind::Player));
    assert_eq!(registry.exact("BP_Kraken_C"), Some(HandlerKind::Treasure));
}

#[test]
fn empty_key_can_be_registered() {
    let mut registry = FunctionMap::empty();
    registry.register("", HandlerKind::CookingPot);
    assert_eq!(registry.exact("a__b"), Some(HandlerKind::CookingPot));
    // a name without a type key still has no exact match
    assert_eq!(registry.exact("ab"), None);
    assert_eq!(registry.exact("a_b"), None);
}
