use silkroad_core::characterdata::{EntityRarity, RefCharacterData};
use silkroad_core::data::{DataMap, RefCommon, RefItemData, TypeId};
use silkroad_core::entity::{EntityHandle, EntityReference, GameEntity};
use silkroad_core::gm::{
    handle_gm_commands, GmCommand, GmError, GmInput, GmInvoker, GmResponse,
};
use silkroad_core::ids::EntityIdPool;
use silkroad_core::pos::{Heading, LocalPosition, Position};
use silkroad_core::sync::{BodyState, DamageReceived, Synchronize, UpdatedState};
use silkroad_core::world::{Despawn, Item};

fn position() -> Position {
    Position {
        location: LocalPosition { region: 25000, x: 0x4416_8000, y: 0, z: 0x4396_0000 },
        rotation: Heading(180),
    }
}

fn invoker(gm: bool) -> GmInvoker {
    GmInvoker {
        entity: EntityHandle(7),
        game_entity: GameEntity { unique_id: 900, ref_id: 1907 },
        gm,
        position: position(),
    }
}

fn common(ref_id: u32, id: &str, type_id: TypeId) -> RefCommon {
    RefCommon { ref_id, id: id.to_string(), type_id, despawn_time: 60_000 }
}

fn characters() -> DataMap<RefCharacterData> {
    DataMap::new(vec![RefCharacterData {
        common: common(1001, "MOB_CH_MANGNYANG", TypeId(1, 2, 1, 1)),
        rarity: EntityRarity::Normal,
        level: 1,
        exp: 14,
        hp: 58,
        base_range: 10,
        walk_speed: 16,
        run_speed: 50,
        berserk_speed: 100,
        aggressive: false,
        skills: vec![3],
    }])
}

fn items() -> DataMap<RefItemData> {
    DataMap::new(vec![
        RefItemData { common: common(1, "ITEM_ETC_GOLD_01", TypeId(3, 3, 5, 0)), max_stack_size: 1 },
        RefItemData { common: common(2, "ITEM_CH_SWORD_01_A", TypeId(3, 1, 6, 2)), max_stack_size: 1 },
        RefItemData { common: common(3, "ITEM_ETC_HP_POTION_01", TypeId(3, 3, 1, 1)), max_stack_size: 50 },
        RefItemData { common: common(4, "ITEM_ETC_TOKEN", TypeId(3, 3, 5, 1)), max_stack_size: 50 },
    ])
}

fn run(
    gm: bool,
    commands: Vec<GmCommand>,
    pool: &mut EntityIdPool,
    sync: &mut Synchronize,
) -> silkroad_core::gm::GmEffects {
    let mut input = GmInput { inputs: commands };
    let effects = handle_gm_commands(&invoker(gm), &mut input, sync, pool, &characters(), &items());
    assert!(input.inputs.is_empty());
    effects
}

fn success(text: &str) -> GmResponse {
    GmResponse::Success { message: text.to_string() }
}

fn failure(error: GmError) -> GmResponse {
    GmResponse::Failure { error }
}

#[test]
fn spawn_monster_creates_the_requested_amount() {
    let mut pool = EntityIdPool::new();
    let mut sync = Synchronize::default();
    let spawn = GmCommand::SpawnMonster { ref_id: 1001, amount: 3, rarity: EntityRarity::Normal };
    let effects = run(true, vec![spawn], &mut pool, &mut sync);
    assert_eq!(effects.monsters.len(), 3);
    let ids: Vec<u32> = effects.monsters.iter().map(|m| m.entity.unique_id).collect();
    assert_eq!(ids, vec![1, 2, 3]);
    for monster in &effects.monsters {
        assert_eq!(monster.entity.ref_id, 1001);
        assert_eq!(monster.health.max_health, 58);
        assert_eq!(monster.health.current_health, 58);
        assert_eq!(monster.position, position());
        assert_eq!(monster.spawner.spawner, EntityHandle(7));
        assert_eq!(monster.monster.target, None);
        assert_eq!(monster.monster.rarity, EntityRarity::Normal);
        assert_eq!(monster.navigation.walk_speed, 16);
        assert_eq!(monster.navigation.run_speed, 50);
        assert_eq!(monster.navigation.berserk_speed, 100);
        assert_eq!(monster.visibility.radius, 100);
        assert_eq!(monster.stroll.origin, position().location);
        assert_eq!(monster.stroll.radius, 100);
        assert_eq!(monster.stroll.interval, 1000);
        assert!(pool.is_live(monster.entity.unique_id));
    }
    assert_eq!(effects.responses, vec![success("Spawned 3 of MOB_CH_MANGNYANG")]);
    assert!(effects.drops.is_empty());
}

#[test]
fn spawn_monster_reports_amounts_in_decimal() {
    let mut pool = EntityIdPool::new();
    let mut sync = Synchronize::default();
    let commands = vec![
        GmCommand::SpawnMonster { ref_id: 1001, amount: 0, rarity: EntityRarity::Champion },
        GmCommand::SpawnMonster { ref_id: 1001, amount: 10, rarity: EntityRarity::Champion },
        GmCommand::SpawnMonster { ref_id: 1001, amount: 255, rarity: EntityRarity::Giant },
    ];
    let effects = run(true, commands, &mut pool, &mut sync);
    assert_eq!(effects.monsters.len(), 265);
    assert_eq!(
        effects.responses,
        vec![
            success("Spawned 0 of MOB_CH_MANGNYANG"),
            success("Spawned 10 of MOB_CH_MANGNYANG"),
            success("Spawned 255 of MOB_CH_MANGNYANG"),
        ]
    );
    assert_eq!(effects.monsters[10].monster.rarity, EntityRarity::Giant);
}

#[test]
fn spawn_monster_with_unknown_template_fails_and_the_tick_goes_on() {
    let mut pool = EntityIdPool::new();
    let mut sync = Synchronize::default();
    let commands = vec![
        GmCommand::SpawnMonster { ref_id: 4242, amount: 3, rarity: EntityRarity::Normal },
        GmCommand::Invincible,
        GmCommand::SpawnMonster { ref_id: 1001, amount: 1, rarity: EntityRarity::Normal },
    ];
    let effects = run(true, commands, &mut pool, &mut sync);
    assert_eq!(
        effects.responses,
        vec![
            failure(GmError::TemplateNotFound { ref_id: 4242 }),
            success("Enabled invincibility"),
            success("Spawned 1 of MOB_CH_MANGNYANG"),
        ]
    );
    assert_eq!(effects.monsters.len(), 1);
    assert_eq!(effects.monsters[0].entity.unique_id, 1);
    assert_eq!(sync.state, vec![UpdatedState::Body(BodyState::GMInvincible)]);
}

#[test]
fn spawn_monster_beyond_the_pool_creates_nothing() {
    let mut pool = EntityIdPool::with_range(1, 2);
    let mut sync = Synchronize::default();
    let commands = vec![
        GmCommand::SpawnMonster { ref_id: 1001, amount: 3, rarity: EntityRarity::Normal },
        GmCommand::SpawnMonster { ref_id: 1001, amount: 2, rarity: EntityRarity::Normal },
        GmCommand::MakeItem { ref_id: 1, upgrade: 0 },
    ];
    let effects = run(true, commands, &mut pool, &mut sync);
    assert_eq!(
        effects.responses,
        vec![
            failure(GmError::PoolExhausted),
            success("Spawned 2 of MOB_CH_MANGNYANG"),
            failure(GmError::PoolExhausted),
        ]
    );
    assert_eq!(effects.monsters.len(), 2);
    assert!(effects.drops.is_empty());
    assert_eq!(pool.available(), 0);
}

#[test]
fn make_item_classifies_the_template() {
    let mut pool = EntityIdPool::with_range(500, 600);
    let mut sync = Synchronize::default();
    let commands = vec![
        GmCommand::MakeItem { ref_id: 1, upgrade: 5 },
        GmCommand::MakeItem { ref_id: 2, upgrade: 7 },
        GmCommand::MakeItem { ref_id: 3, upgrade: 9 },
        GmCommand::MakeItem { ref_id: 4, upgrade: 9 },
        GmCommand::MakeItem { ref_id: 99, upgrade: 1 },
    ];
    let effects = run(true, commands, &mut pool, &mut sync);
    let kinds: Vec<Item> = effects.drops.iter().map(|drop| drop.drop.item).collect();
    assert_eq!(
        kinds,
        vec![
            Item::Gold(1),
            Item::Equipment { upgrade: 7 },
            Item::Consumable(1),
            Item::Consumable(1),
        ]
    );
    let first = &effects.drops[0];
    assert_eq!(first.game_entity, GameEntity { unique_id: 500, ref_id: 1 });
    assert_eq!(first.position, position());
    assert_eq!(first.despawn, Despawn(60_000));
    assert_eq!(
        first.drop.owner,
        Some(EntityReference(EntityHandle(7), GameEntity { unique_id: 900, ref_id: 1907 }))
    );
    assert_eq!(effects.drops[3].game_entity.unique_id, 503);
    assert_eq!(
        effects.responses,
        vec![
            success("Dropped 1 of ITEM_ETC_GOLD_01"),
            success("Dropped 1 of ITEM_CH_SWORD_01_A"),
            success("Dropped 1 of ITEM_ETC_HP_POTION_01"),
            success("Dropped 1 of ITEM_ETC_TOKEN"),
            failure(GmError::TemplateNotFound { ref_id: 99 }),
        ]
    );
    assert!(effects.monsters.is_empty());
}

#[test]
fn body_state_flags_are_queued_behind_what_is_pending() {
    let mut pool = EntityIdPool::new();
    let mut sync = Synchronize::default();
    sync.damage.push(DamageReceived { amount: 4, crit: true });
    sync.despawned.push(12);
    sync.state.push(UpdatedState::Body(BodyState::Berserk));
    let commands = vec![GmCommand::Invisible, GmCommand::Invincible, GmCommand::Invisible];
    let effects = run(true, commands, &mut pool, &mut sync);
    assert_eq!(
        sync.state,
        vec![
            UpdatedState::Body(BodyState::Berserk),
            UpdatedState::Body(BodyState::GMInvisible),
            UpdatedState::Body(BodyState::GMInvincible),
            UpdatedState::Body(BodyState::GMInvisible),
        ]
    );
    assert_eq!(sync.damage, vec![DamageReceived { amount: 4, crit: true }]);
    assert_eq!(sync.despawned, vec![12]);
    assert_eq!(sync.movement, None);
    assert_eq!(
        effects.responses,
        vec![
            success("Enabled invisibility"),
            success("Enabled invincibility"),
            success("Enabled invisibility"),
        ]
    );
}

#[test]
fn commands_of_a_non_administrator_are_refused() {
    let mut pool = EntityIdPool::new();
    let mut sync = Synchronize::default();
    let commands = vec![
        GmCommand::SpawnMonster { ref_id: 1001, amount: 3, rarity: EntityRarity::Normal },
        GmCommand::MakeItem { ref_id: 1, upgrade: 0 },
        GmCommand::Invincible,
        GmCommand::Invisible,
    ];
    let effects = run(false, commands, &mut pool, &mut sync);
    assert_eq!(effects.responses, vec![failure(GmError::NotAuthorized); 4]);
    assert!(effects.monsters.is_empty());
    assert!(effects.drops.is_empty());
    assert!(sync.state.is_empty());
    assert_eq!(pool.request_id(), Ok(1));
}

#[test]
fn no_commands_no_effects() {
    let mut pool = EntityIdPool::new();
    let mut sync = Synchronize::default();
    let effects = run(true, vec![], &mut pool, &mut sync);
    assert!(effects.monsters.is_empty());
    assert!(effects.drops.is_empty());
    assert!(effects.responses.is_empty());
}

#[test]
fn synchronize_clear_drops_everything() {
    let mut sync = Synchronize::default();
    sync.damage.push(DamageReceived { amount: 4, crit: false });
    sync.despawned.push(12);
    sync.state.push(UpdatedState::Body(BodyState::Stealth));
    sync.movement = Some(silkroad_core::sync::MovementUpdate::Turn(Heading(3)));
    sync.clear();
    assert_eq!(sync, Synchronize::default());
    assert!(sync.movement.is_none() && sync.damage.is_empty());
    assert!(sync.despawned.is_empty() && sync.state.is_empty());
}
