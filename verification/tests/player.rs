use silkroad_core::entity::{EntityHandle, EntityReference, GameEntity, Health};
use silkroad_core::player::{
    CharacterData, Experienced, Leveled, Mana, Player, PlayerBundle, Race, ServerUser,
    SpawningState, Stats, Vitals, SP,
};
use silkroad_core::pos::{Heading, LocalPosition, Position};
use silkroad_core::world::{Agent, VisibilityRange};

fn stored() -> CharacterData {
    CharacterData {
        id: 17,
        charname: "Tester".to_string(),
        scale: 34,
        level: 5,
        max_level: 9,
        exp: 12_345,
        sp: 300,
        sp_exp: 250,
        strength: 24,
        intelligence: 21,
        stat_points: 3,
        current_hp: 200,
        current_mp: 150,
        berserk_points: 2,
        gold: 1_000_000,
        beginner_mark: true,
        gm: true,
    }
}

fn user() -> ServerUser {
    ServerUser { id: 4, username: "account".to_string() }
}

#[test]
fn player_is_loaded_from_its_stored_form() {
    let player = Player::from_db_data(user(), &stored());
    assert_eq!(player.user, user());
    let character = player.character;
    assert_eq!(character.id, 17);
    assert_eq!(character.name, "Tester");
    assert_eq!(character.race, Race::Chinese);
    assert_eq!(character.scale, 34);
    assert_eq!(character.level, 5);
    assert_eq!(character.max_level, 9);
    assert_eq!(character.exp, 12_345);
    assert_eq!(character.sp, 300);
    assert_eq!(character.sp_exp, 250);
    assert_eq!(character.stats, Stats { strength: 24, intelligence: 21 });
    assert_eq!(character.stat_points, 3);
    assert_eq!(character.current_hp, 200);
    assert_eq!(character.current_mp, 150);
    assert_eq!(character.berserk_points, 2);
    assert_eq!(character.gold, 1_000_000);
    assert!(character.beginner_mark);
    assert!(character.gm);
    assert_eq!(character.state, SpawningState::Loading);
    assert!(character.masteries.is_empty());
    assert!(character.skills.is_empty());
}

#[test]
fn stored_columns_are_cut_to_the_width_of_the_game() {
    let mut data = stored();
    data.id = -1;
    data.level = 257;
    data.scale = -2;
    data.gold = -1;
    data.strength = -1;
    let character = Player::from_db_data(user(), &data).character;
    assert_eq!(character.id, u32::MAX);
    assert_eq!(character.level, 1);
    assert_eq!(character.scale, 254);
    assert_eq!(character.gold, u64::MAX);
    assert_eq!(character.stats.strength, u16::MAX);
}

#[test]
fn player_bundle_starts_with_full_bars_and_no_input() {
    let player = Player::from_db_data(user(), &stored());
    let game_entity = GameEntity { unique_id: 40, ref_id: 1907 };
    let agent = Agent { walk_speed: 16, run_speed: 50, berserk_speed: 100 };
    let pos = Position {
        location: LocalPosition { region: 1, x: 2, y: 3, z: 4 },
        rotation: Heading(90),
    };
    let bundle = PlayerBundle::new(
        player.clone(),
        game_entity,
        agent,
        pos,
        VisibilityRange { radius: 500 },
        Vitals { max_hp: 320, max_mp: 210 },
    );
    assert_eq!(bundle.player, player);
    assert_eq!(bundle.game_entity, game_entity);
    assert_eq!(bundle.agent, agent);
    assert_eq!(bundle.pos, pos);
    assert_eq!(bundle.visibility, VisibilityRange { radius: 500 });
    assert_eq!(bundle.health, Health { current_health: 320, max_health: 320 });
    assert_eq!(bundle.mana, Mana { current_mana: 210, max_mana: 210 });
    assert_eq!(bundle.level, Leveled { level: 5 });
    assert_eq!(bundle.sp, SP { current: 300 });
    assert_eq!(bundle.exp, Experienced { exp: 12_345, sp_exp: 250 });
    assert!(bundle.input.chat.is_empty());
    assert!(bundle.input.gm.is_empty());
}

#[test]
fn health_new_is_full() {
    assert_eq!(Health::new(58), Health { current_health: 58, max_health: 58 });
    assert_eq!(Health::new(0), Health { current_health: 0, max_health: 0 });
}

#[test]
fn entity_reference_pairs_handle_and_identity() {
    let identity = GameEntity { unique_id: 3, ref_id: 9 };
    let reference = EntityReference(EntityHandle(11), identity);
    assert_eq!(reference.0, EntityHandle(11));
    assert_eq!(reference.1, identity);
    assert_ne!(reference, EntityReference(EntityHandle(12), identity));
}
