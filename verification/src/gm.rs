//! The administrator command system: what the pending commands of one
//! invoker do to the world in one tick.

use crate::characterdata::{EntityRarity, RefCharacterData};
use crate::data::{
    find_row, lemma_find_row, DataEntry, DataMap, ObjectConsumable, ObjectConsumableCurrency, ObjectItem,
    ObjectType, RefItemData, TypeId,
};
use crate::entity::{EntityHandle, EntityReference, GameEntity, Health};
use crate::ids::{lemma_batch, lemma_request, EntityIdPool, PoolView};
use crate::pos::Position;
use crate::seqs::{lemma_views_push, views};
use crate::sync::{BodyState, Synchronize, SynchronizeView, UpdatedState};
use crate::text::{decimal, decimal_string};
use crate::world::{
    Agent, Despawn, DropBundle, Item, ItemDrop, Monster, MonsterBundle, RandomStroll, SpawnedBy,
    VisibilityRange, MONSTER_RADIUS, STROLL_INTERVAL,
};
use vstd::prelude::*;
use vstd::string::StringExecFns;

verus! {

/// What an administrator can order.
#[derive(Clone, Copy, Debug, PartialEq, Eq, Structural)]
pub enum GmCommand {
    SpawnMonster { ref_id: u32, amount: u8, rarity: EntityRarity },
    MakeItem { ref_id: u32, upgrade: u8 },
    Invincible,
    Invisible,
}

/// Why a command did nothing.
#[derive(Clone, Copy, Debug, PartialEq, Eq, Structural)]
pub enum GmError {
    /// The invoker is no administrator.
    NotAuthorized,
    /// No template has this reference id.
    TemplateNotFound { ref_id: u32 },
    /// The identifier pool cannot serve the command.
    PoolExhausted,
}

/// The report an invoker gets for one command.
#[derive(Clone, Debug, PartialEq, Eq)]
pub enum GmResponse {
    Success { message: String },
    Failure { error: GmError },
}

/// The mathematical content of a [`GmResponse`].
pub enum GmResponseView {
    Success { message: Seq<char> },
    Failure { error: GmError },
}

impl View for GmResponse {
    type V = GmResponseView;

    open spec fn view(&self) -> GmResponseView {
        match *self {
            GmResponse::Success { message } => GmResponseView::Success { message: message@ },
            GmResponse::Failure { error } => GmResponseView::Failure { error },
        }
    }
}

impl GmResponse {
    pub fn success_message(message: String) -> (response: GmResponse)
        ensures
            response@ == (GmResponseView::Success { message: message@ }),
    {
        GmResponse::Success { message }
    }

    pub fn failure(error: GmError) -> (response: GmResponse)
        ensures
            response@ == (GmResponseView::Failure { error }),
    {
        GmResponse::Failure { error }
    }
}

/// The commands that wait for the next tick, in the order they arrived.
#[derive(Clone, Debug, PartialEq, Eq)]
pub struct GmInput {
    pub inputs: Vec<GmCommand>,
}

/// The entity that issues commands: its handle and identity, whether its
/// player is an administrator, and where it stands.
#[derive(Clone, Copy, Debug, PartialEq, Eq, Structural)]
pub struct GmInvoker {
    pub entity: EntityHandle,
    pub game_entity: GameEntity,
    pub gm: bool,
    pub position: Position,
}

/// What the commands of one tick brought about, besides the changes to
/// the pool and to the invoker's synchronization batch.
#[derive(Debug, PartialEq, Eq)]
pub struct GmEffects {
    /// The monsters to add to the store, in spawning order.
    pub monsters: Vec<MonsterBundle>,
    /// The item drops to add to the store.
    pub drops: Vec<DropBundle>,
    /// The reports to send to the invoker, one for each command.
    pub responses: Vec<GmResponse>,
}

/// The part of the world that commands act on.
pub struct GmState {
    pub pool: PoolView,
    pub states: Seq<UpdatedState>,
    pub monsters: Seq<MonsterBundle>,
    pub drops: Seq<DropBundle>,
    pub responses: Seq<GmResponseView>,
}

/// The report of a spawn.
pub open spec fn spawned_message(amount: u8, code: Seq<char>) -> Seq<char> {
    "Spawned "@ + decimal(amount as nat) + " of "@ + code
}

/// The report of a drop.
pub open spec fn dropped_message(code: Seq<char>) -> Seq<char> {
    "Dropped 1 of "@ + code
}

/// The monster that a spawn command makes of `template` under the
/// identifier `unique_id`: it stands where the invoker stands, at full
/// health, moves at the template's speeds and strolls around its place of
/// birth.
pub open spec fn monster_bundle(
    invoker: GmInvoker,
    template: RefCharacterData,
    rarity: EntityRarity,
    unique_id: u32,
) -> MonsterBundle {
    MonsterBundle {
        monster: Monster { target: None, rarity },
        health: Health {
            current_health: template.hp as usize,
            max_health: template.hp as usize,
        },
        position: invoker.position,
        entity: GameEntity { unique_id, ref_id: template.common.ref_id },
        visibility: VisibilityRange { radius: MONSTER_RADIUS },
        spawner: SpawnedBy { spawner: invoker.entity },
        navigation: Agent {
            walk_speed: template.walk_speed,
            run_speed: template.run_speed,
            berserk_speed: template.berserk_speed,
        },
        stroll: RandomStroll {
            origin: invoker.position.location,
            radius: MONSTER_RADIUS,
            interval: STROLL_INTERVAL,
        },
    }
}

/// [`monster_bundle`] as a function of the identifier alone.
pub open spec fn bundle_for(invoker: GmInvoker, template: RefCharacterData, rarity: EntityRarity)
    -> spec_fn(u32) -> MonsterBundle {
    |unique_id: u32| monster_bundle(invoker, template, rarity, unique_id)
}

/// What a dropped instance of a template is: gear carries the upgrade
/// level, gold and every other thing come as one piece.
pub open spec fn item_of(type_id: TypeId, upgrade: u8) -> Item {
    match ObjectType::of(type_id) {
        Some(ObjectType::Item(ObjectItem::Equippable(_))) => Item::Equipment { upgrade },
        Some(
            ObjectType::Item(
                ObjectItem::Consumable(
                    ObjectConsumable::Currency(ObjectConsumableCurrency::Gold),
                ),
            ),
        ) => Item::Gold(1),
        _ => Item::Consumable(1),
    }
}

/// The drop that a make-item command makes of `template` under the
/// identifier `unique_id`: it lies where the invoker stands and belongs
/// to the invoker.
pub open spec fn drop_bundle(
    invoker: GmInvoker,
    template: RefItemData,
    upgrade: u8,
    unique_id: u32,
) -> DropBundle {
    DropBundle {
        drop: ItemDrop {
            owner: Some(EntityReference(invoker.entity, invoker.game_entity)),
            item: item_of(template.common.type_id, upgrade),
        },
        position: invoker.position,
        game_entity: GameEntity { unique_id, ref_id: template.common.ref_id },
        despawn: Despawn(template.common.despawn_time),
    }
}

impl GmState {
    /// The state after a command failed: nothing changed but the reports.
    pub open spec fn refuse(self, error: GmError) -> GmState {
        GmState { responses: self.responses.push(GmResponseView::Failure { error }), ..self }
    }

    /// The state after a command succeeded with the report `message`.
    pub open spec fn report(self, message: Seq<char>) -> GmState {
        GmState { responses: self.responses.push(GmResponseView::Success { message }), ..self }
    }

    /// Spawns `amount` monsters of the template `ref_id`, or none: the
    /// command fails when there is no such template or when the pool has
    /// fewer than `amount` identifiers available.
    pub open spec fn spawn_monster(
        self,
        invoker: GmInvoker,
        characters: Seq<RefCharacterData>,
        ref_id: u32,
        amount: u8,
        rarity: EntityRarity,
    ) -> GmState {
        match find_row(characters, ref_id) {
            None => self.refuse(GmError::TemplateNotFound { ref_id }),
            Some(template) => if amount > self.pool.available() {
                self.refuse(GmError::PoolExhausted)
            } else {
                GmState {
                    pool: self.pool.after_requests(amount as nat),
                    monsters: self.monsters + self.pool.granted_batch(amount as nat).map_values(
                        bundle_for(invoker, template, rarity),
                    ),
                    ..self
                }.report(spawned_message(amount, template.common.id@))
            },
        }
    }

    /// Drops one instance of the item template `ref_id`, or fails when
    /// there is no such template or no identifier for the drop.
    pub open spec fn make_item(
        self,
        invoker: GmInvoker,
        items: Seq<RefItemData>,
        ref_id: u32,
        upgrade: u8,
    ) -> GmState {
        match find_row(items, ref_id) {
            None => self.refuse(GmError::TemplateNotFound { ref_id }),
            Some(template) => match self.pool.granted() {
                None => self.refuse(GmError::PoolExhausted),
                Some(unique_id) => GmState {
                    pool: self.pool.after_request(),
                    drops: self.drops.push(drop_bundle(invoker, template, upgrade, unique_id)),
                    ..self
                }.report(dropped_message(template.common.id@)),
            },
        }
    }

    /// Queues a body-state flag for the invoker's observers.
    pub open spec fn set_body_state(self, flag: BodyState, message: Seq<char>) -> GmState {
        GmState { states: self.states.push(UpdatedState::Body(flag)), ..self }.report(message)
    }

    /// The state after one command. A command of an invoker who is no
    /// administrator is refused, whatever it asks for.
    pub open spec fn apply(
        self,
        invoker: GmInvoker,
        characters: Seq<RefCharacterData>,
        items: Seq<RefItemData>,
        command: GmCommand,
    ) -> GmState {
        if !invoker.gm {
            self.refuse(GmError::NotAuthorized)
        } else {
            match command {
                GmCommand::SpawnMonster { ref_id, amount, rarity } => self.spawn_monster(
                    invoker,
                    characters,
                    ref_id,
                    amount,
                    rarity,
                ),
                GmCommand::MakeItem { ref_id, upgrade } => self.make_item(
                    invoker,
                    items,
                    ref_id,
                    upgrade,
                ),
                GmCommand::Invincible => self.set_body_state(
                    BodyState::GMInvincible,
                    "Enabled invincibility"@,
                ),
                GmCommand::Invisible => self.set_body_state(
                    BodyState::GMInvisible,
                    "Enabled invisibility"@,
                ),
            }
        }
    }

    /// The state after a series of commands, each applied to what the
    /// one before left.
    pub open spec fn apply_all(
        self,
        invoker: GmInvoker,
        characters: Seq<RefCharacterData>,
        items: Seq<RefItemData>,
        commands: Seq<GmCommand>,
    ) -> GmState
        decreases commands.len(),
    {
        if commands.len() == 0 {
            self
        } else {
            self.apply_all(invoker, characters, items, commands.drop_last()).apply(
                invoker,
                characters,
                items,
                commands.last(),
            )
        }
    }
}


/// The state that commands act on, read off the pool, the invoker's
/// synchronization batch and the effects gathered so far.
pub open spec fn state_of(pool: PoolView, batch: SynchronizeView, effects: GmEffects) -> GmState {
    GmState {
        pool,
        states: batch.state,
        monsters: effects.monsters@,
        drops: effects.drops@,
        responses: views(effects.responses@),
    }
}

/// Reports a failure to the invoker.
fn refuse(effects: &mut GmEffects, error: GmError)
    ensures
        final(effects).monsters == old(effects).monsters,
        final(effects).drops == old(effects).drops,
        views(final(effects).responses@) == views(old(effects).responses@).push(
            GmResponseView::Failure { error },
        ),
{
    let response = GmResponse::failure(error);
    proof {
        lemma_views_push(effects.responses@, response);
    }
    effects.responses.push(response);
}

/// Reports a success to the invoker.
fn report(effects: &mut GmEffects, message: String)
    ensures
        final(effects).monsters == old(effects).monsters,
        final(effects).drops == old(effects).drops,
        views(final(effects).responses@) == views(old(effects).responses@).push(
            GmResponseView::Success { message: message@ },
        ),
{
    let response = GmResponse::success_message(message);
    proof {
        lemma_views_push(effects.responses@, response);
    }
    effects.responses.push(response);
}

/// Writes the report of a spawn.
fn spawned_text(amount: u8, code: &str) -> (text: String)
    ensures
        text@ == spawned_message(amount, code@),
{
    let mut text = String::from_str("Spawned ");
    let digits = decimal_string(amount);
    text.append(digits.as_str());
    text.append(" of ");
    text.append(code);
    text
}

/// Writes the report of a drop.
fn dropped_text(code: &str) -> (text: String)
    ensures
        text@ == dropped_message(code@),
{
    let mut text = String::from_str("Dropped 1 of ");
    text.append(code);
    text
}

/// Tells what a dropped instance of a template is.
fn classify_item(type_id: &TypeId, upgrade: u8) -> (item: Item)
    ensures
        item == item_of(*type_id, upgrade),
{
    match ObjectType::from_type_id(type_id) {
        Some(ObjectType::Item(ObjectItem::Equippable(_))) => Item::Equipment { upgrade },
        Some(
            ObjectType::Item(
                ObjectItem::Consumable(ObjectConsumable::Currency(ObjectConsumableCurrency::Gold)),
            ),
        ) => Item::Gold(1),
        _ => Item::Consumable(1),
    }
}

/// Carries out a spawn command.
fn spawn_monster(
    invoker: &GmInvoker,
    id_pool: &mut EntityIdPool,
    characters: &DataMap<RefCharacterData>,
    effects: &mut GmEffects,
    ref_id: u32,
    amount: u8,
    rarity: EntityRarity,
    Ghost(batch): Ghost<SynchronizeView>,
)
    requires
        old(id_pool)@.wf(),
    ensures
        final(id_pool)@.wf(),
        state_of(final(id_pool)@, batch, *final(effects)) == state_of(
            old(id_pool)@,
            batch,
            *old(effects),
        ).spawn_monster(*invoker, characters@, ref_id, amount, rarity),
{
    let ghost before = state_of(id_pool@, batch, *effects);
    let ghost expected = before.spawn_monster(*invoker, characters@, ref_id, amount, rarity);
    match characters.find_id(ref_id) {
        None => {
            refuse(effects, GmError::TemplateNotFound { ref_id });
        },
        Some(template) => {
            match id_pool.request_ids(amount as usize) {
                Err(_) => {
                    refuse(effects, GmError::PoolExhausted);
                },
                Ok(ids) => {
                    let ghost make = bundle_for(*invoker, *template, rarity);
                    let ghost earlier = effects.monsters@;
                    let mut i: usize = 0;
                    assert(earlier + ids@.take(0).map_values(make) =~= earlier);
                    while i < ids.len()
                        invariant
                            i <= ids.len(),
                            make == bundle_for(*invoker, *template, rarity),
                            effects.monsters@ == earlier + ids@.take(i as int).map_values(make),
                            effects.drops == old(effects).drops,
                            effects.responses == old(effects).responses,
                        decreases ids.len() - i,
                    {
                        let unique_id = ids[i];
                        proof {
                            ids@.lemma_map_take_succ(make, i as int);
                        }
                        let bundle = MonsterBundle {
                            monster: Monster { target: None, rarity },
                            health: Health::new(template.hp as usize),
                            position: invoker.position,
                            entity: GameEntity { unique_id, ref_id: template.ref_id() },
                            visibility: VisibilityRange { radius: MONSTER_RADIUS },
                            spawner: SpawnedBy { spawner: invoker.entity },
                            navigation: Agent {
                                walk_speed: template.walk_speed,
                                run_speed: template.run_speed,
                                berserk_speed: template.berserk_speed,
                            },
                            stroll: RandomStroll {
                                origin: invoker.position.location,
                                radius: MONSTER_RADIUS,
                                interval: STROLL_INTERVAL,
                            },
                        };
                        assert(bundle == make(unique_id));
                        effects.monsters.push(bundle);
                        assert(effects.monsters@ =~= earlier + ids@.take(i + 1).map_values(make));
                        i += 1;
                    }
                    assert(ids@.take(i as int) =~= ids@);
                    report(effects, spawned_text(amount, template.code()));
                },
            }
        },
    }
    assert(state_of(id_pool@, batch, *effects) == expected);
}

/// Carries out a make-item command.
fn make_item(
    invoker: &GmInvoker,
    id_pool: &mut EntityIdPool,
    items: &DataMap<RefItemData>,
    effects: &mut GmEffects,
    ref_id: u32,
    upgrade: u8,
    Ghost(batch): Ghost<SynchronizeView>,
)
    requires
        old(id_pool)@.wf(),
    ensures
        final(id_pool)@.wf(),
        state_of(final(id_pool)@, batch, *final(effects)) == state_of(
            old(id_pool)@,
            batch,
            *old(effects),
        ).make_item(*invoker, items@, ref_id, upgrade),
{
    match items.find_id(ref_id) {
        None => {
            refuse(effects, GmError::TemplateNotFound { ref_id });
        },
        Some(template) => {
            proof {
                lemma_request(id_pool@);
            }
            match id_pool.request_id() {
                Err(_) => {
                    refuse(effects, GmError::PoolExhausted);
                },
                Ok(unique_id) => {
                    let bundle = DropBundle {
                        drop: ItemDrop {
                            owner: Some(EntityReference(invoker.entity, invoker.game_entity)),
                            item: classify_item(&template.common.type_id, upgrade),
                        },
                        position: invoker.position,
                        game_entity: GameEntity { unique_id, ref_id: template.ref_id() },
                        despawn: Despawn(template.common.despawn_time),
                    };
                    effects.drops.push(bundle);
                    report(effects, dropped_text(template.code()));
                },
            }
        },
    }
}

/// Carries out one command of `invoker`.
pub fn run_command(
    invoker: &GmInvoker,
    command: GmCommand,
    sync: &mut Synchronize,
    id_pool: &mut EntityIdPool,
    characters: &DataMap<RefCharacterData>,
    items: &DataMap<RefItemData>,
    effects: &mut GmEffects,
)
    requires
        old(id_pool)@.wf(),
    ensures
        final(id_pool)@.wf(),
        state_of(final(id_pool)@, final(sync)@, *final(effects)) == state_of(
            old(id_pool)@,
            old(sync)@,
            *old(effects),
        ).apply(*invoker, characters@, items@, command),
        final(sync)@ == (SynchronizeView { state: final(sync)@.state, ..old(sync)@ }),
{
    if !invoker.gm {
        refuse(effects, GmError::NotAuthorized);
        return ;
    }
    match command {
        GmCommand::SpawnMonster { ref_id, amount, rarity } => {
            spawn_monster(invoker, id_pool, characters, effects, ref_id, amount, rarity, Ghost(sync@));
        },
        GmCommand::MakeItem { ref_id, upgrade } => {
            make_item(invoker, id_pool, items, effects, ref_id, upgrade, Ghost(sync@));
        },
        GmCommand::Invincible => {
            sync.push_state(UpdatedState::Body(BodyState::GMInvincible));
            report(effects, String::from_str("Enabled invincibility"));
        },
        GmCommand::Invisible => {
            sync.push_state(UpdatedState::Body(BodyState::GMInvisible));
            report(effects, String::from_str("Enabled invisibility"));
        },
    }
}

/// Runs the administrator commands of one invoker for one tick: every
/// pending command, in arrival order, acts on what the one before left,
/// and the queue is empty afterwards. A command that fails is reported
/// and changes nothing; the commands behind it still run.
pub fn handle_gm_commands(
    invoker: &GmInvoker,
    input: &mut GmInput,
    sync: &mut Synchronize,
    id_pool: &mut EntityIdPool,
    characters: &DataMap<RefCharacterData>,
    items: &DataMap<RefItemData>,
) -> (effects: GmEffects)
    requires
        old(id_pool)@.wf(),
    ensures
        final(input).inputs@.len() == 0,
        final(id_pool)@.wf(),
        state_of(final(id_pool)@, final(sync)@, effects) == (GmState {
            pool: old(id_pool)@,
            states: old(sync)@.state,
            monsters: Seq::empty(),
            drops: Seq::empty(),
            responses: Seq::empty(),
        }).apply_all(*invoker, characters@, items@, old(input).inputs@),
        final(sync)@ == (SynchronizeView { state: final(sync)@.state, ..old(sync)@ }),
{
    let mut effects = GmEffects { monsters: Vec::new(), drops: Vec::new(), responses: Vec::new() };
    let ghost start = state_of(id_pool@, sync@, effects);
    let ghost commands = input.inputs@;
    assert(start.responses =~= Seq::empty());
    let mut i: usize = 0;
    assert(commands.take(0) =~= Seq::empty());
    while i < input.inputs.len()
        invariant
            i <= input.inputs.len(),
            commands == input.inputs@,
            id_pool@.wf(),
            state_of(id_pool@, sync@, effects) == start.apply_all(
                *invoker,
                characters@,
                items@,
                commands.take(i as int),
            ),
            sync@ == (SynchronizeView { state: sync@.state, ..old(sync)@ }),
        decreases input.inputs.len() - i,
    {
        let command = input.inputs[i];
        proof {
            assert(commands.take(i + 1).drop_last() =~= commands.take(i as int));
            assert(commands.take(i + 1).last() == command);
        }
        run_command(invoker, command, sync, id_pool, characters, items, &mut effects);
        i += 1;
    }
    assert(commands.take(i as int) =~= commands);
    input.inputs.clear();
    effects
}


/// A spawn command of an administrator for a known template, with enough
/// identifiers available, adds exactly `amount` monsters. Each of them is
/// made of that template, stands where the invoker stands and is at full
/// health; their identifiers differ from one another and from every
/// identifier that was in use.
pub proof fn lemma_spawn_adds_monsters(
    state: GmState,
    invoker: GmInvoker,
    characters: Seq<RefCharacterData>,
    items: Seq<RefItemData>,
    ref_id: u32,
    amount: u8,
    rarity: EntityRarity,
)
    requires
        state.pool.wf(),
        invoker.gm,
        find_row(characters, ref_id) is Some,
        amount <= state.pool.available(),
    ensures
        ({
            let after = state.apply(
                invoker,
                characters,
                items,
                GmCommand::SpawnMonster { ref_id, amount, rarity },
            );
            let template = find_row(characters, ref_id).unwrap();
            &&& after.monsters.len() == state.monsters.len() + amount
            &&& after.monsters.take(state.monsters.len() as int) == state.monsters
            &&& after.drops == state.drops
            &&& after.responses == state.responses.push(
                GmResponseView::Success { message: spawned_message(amount, template.common.id@) },
            )
            &&& forall|k: int|
                state.monsters.len() <= k < after.monsters.len() ==> {
                    let monster = #[trigger] after.monsters[k];
                    &&& monster.entity.ref_id == ref_id
                    &&& monster.health.max_health == template.hp
                    &&& monster.health.current_health == template.hp
                    &&& monster.position == invoker.position
                    &&& monster.spawner.spawner == invoker.entity
                    &&& !state.pool.live().contains(monster.entity.unique_id)
                    &&& after.pool.live().contains(monster.entity.unique_id)
                }
            &&& forall|k: int, l: int|
                state.monsters.len() <= k < l < after.monsters.len() ==> (
                #[trigger] after.monsters[k]).entity.unique_id != (
                #[trigger] after.monsters[l]).entity.unique_id
        }),
{
    let after = state.apply(
        invoker,
        characters,
        items,
        GmCommand::SpawnMonster { ref_id, amount, rarity },
    );
    let template = find_row(characters, ref_id).unwrap();
    let ids = state.pool.granted_batch(amount as nat);
    let base = state.monsters.len() as int;
    lemma_find_row(characters, ref_id);
    lemma_batch(state.pool, amount as nat);
    assert(after.monsters.take(base) =~= state.monsters);
    assert forall|k: int| base <= k < after.monsters.len() implies {
        let monster = #[trigger] after.monsters[k];
        &&& monster.entity.ref_id == ref_id
        &&& monster.health.max_health == template.hp
        &&& monster.health.current_health == template.hp
        &&& monster.position == invoker.position
        &&& monster.spawner.spawner == invoker.entity
        &&& !state.pool.live().contains(monster.entity.unique_id)
        &&& after.pool.live().contains(monster.entity.unique_id)
    } by {
        assert(after.monsters[k].entity.unique_id == ids[k - base]);
        assert(ids.to_set().contains(ids[k - base]));
    }
    assert forall|k: int, l: int| base <= k < l < after.monsters.len() implies (
    #[trigger] after.monsters[k]).entity.unique_id != (
    #[trigger] after.monsters[l]).entity.unique_id by {
        assert(after.monsters[k].entity.unique_id == ids[k - base]);
        assert(after.monsters[l].entity.unique_id == ids[l - base]);
    }
}

/// A spawn or make-item command for a template that does not exist
/// creates nothing and takes no identifier: all it leaves is the report
/// of the failure.
pub proof fn lemma_unknown_template_changes_nothing(
    state: GmState,
    invoker: GmInvoker,
    characters: Seq<RefCharacterData>,
    items: Seq<RefItemData>,
    command: GmCommand,
)
    requires
        invoker.gm,
        match command {
            GmCommand::SpawnMonster { ref_id, .. } => find_row(characters, ref_id) is None,
            GmCommand::MakeItem { ref_id, .. } => find_row(items, ref_id) is None,
            _ => false,
        },
    ensures
        state.apply(invoker, characters, items, command) == state.refuse(
            GmError::TemplateNotFound {
                ref_id: match command {
                    GmCommand::SpawnMonster { ref_id, .. } => ref_id,
                    GmCommand::MakeItem { ref_id, .. } => ref_id,
                    _ => 0,
                },
            },
        ),
{
}

/// A command that fails leaves the pool, the pending flags, the monsters
/// and the drops as they were.
pub proof fn lemma_failure_changes_nothing(
    state: GmState,
    invoker: GmInvoker,
    characters: Seq<RefCharacterData>,
    items: Seq<RefItemData>,
    command: GmCommand,
)
    ensures
        ({
            let after = state.apply(invoker, characters, items, command);
            &&& after.responses.len() == state.responses.len() + 1
            &&& after.responses.take(state.responses.len() as int) == state.responses
            &&& after.responses.last() is Failure ==> after == state.refuse(
                after.responses.last()->error,
            )
            &&& !invoker.gm ==> after == state.refuse(GmError::NotAuthorized)
        }),
{
    let after = state.apply(invoker, characters, items, command);
    assert(after.responses.take(state.responses.len() as int) =~= state.responses);
}

/// Every command of a tick is answered, in order: the reports are as many
/// as the commands, and what happened before a command does not depend on
/// the commands behind it.
pub proof fn lemma_every_command_answered(
    state: GmState,
    invoker: GmInvoker,
    characters: Seq<RefCharacterData>,
    items: Seq<RefItemData>,
    commands: Seq<GmCommand>,
)
    ensures
        state.apply_all(invoker, characters, items, commands).responses.len()
            == state.responses.len() + commands.len(),
    decreases commands.len(),
{
    if commands.len() > 0 {
        lemma_every_command_answered(state, invoker, characters, items, commands.drop_last());
        lemma_failure_changes_nothing(
            state.apply_all(invoker, characters, items, commands.drop_last()),
            invoker,
            characters,
            items,
            commands.last(),
        );
    }
}

/// The commands of a tick never break the pool: it stays well-formed, and
/// an identifier that was in use stays in use.
pub proof fn lemma_pool_kept(
    state: GmState,
    invoker: GmInvoker,
    characters: Seq<RefCharacterData>,
    items: Seq<RefItemData>,
    commands: Seq<GmCommand>,
)
    requires
        state.pool.wf(),
    ensures
        state.apply_all(invoker, characters, items, commands).pool.wf(),
        state.pool.live().subset_of(
            state.apply_all(invoker, characters, items, commands).pool.live(),
        ),
    decreases commands.len(),
{
    if commands.len() > 0 {
        lemma_pool_kept(state, invoker, characters, items, commands.drop_last());
        let before = state.apply_all(invoker, characters, items, commands.drop_last());
        lemma_request(before.pool);
        match commands.last() {
            GmCommand::SpawnMonster { ref_id, amount, rarity } => {
                if amount <= before.pool.available() {
                    lemma_batch(before.pool, amount as nat);
                }
            },
            _ => {},
        }
    }
}

} // verus!
