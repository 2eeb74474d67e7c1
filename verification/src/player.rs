//! Players: the character a session controls, how it is loaded from its
//! stored form, and the bundle of components its entity starts with.

use crate::chat::ChatMessage;
use crate::entity::{GameEntity, Health};
use crate::gm::GmCommand;
use crate::pos::Position;
use crate::world::{Agent, VisibilityRange};
use vstd::prelude::*;

verus! {

/// The account a session is logged in with.
#[derive(Clone, Debug, PartialEq, Eq)]
pub struct ServerUser {
    pub id: i32,
    pub username: String,
}

/// A character as the database stores it. The columns are signed, as the
/// database has them.
#[derive(Clone, Debug, PartialEq, Eq)]
pub struct CharacterData {
    pub id: i32,
    pub charname: String,
    pub scale: i16,
    pub level: i16,
    pub max_level: i16,
    pub exp: i64,
    pub sp: i32,
    pub sp_exp: i32,
    pub strength: i16,
    pub intelligence: i16,
    pub stat_points: i16,
    pub current_hp: i32,
    pub current_mp: i32,
    pub berserk_points: i16,
    pub gold: i64,
    pub beginner_mark: bool,
    pub gm: bool,
}

#[derive(Clone, Copy, Debug, PartialEq, Eq, Structural)]
pub enum Race {
    European,
    Chinese,
}

/// How far the client has come in taking over its character.
#[derive(Clone, Copy, Debug, PartialEq, Eq, Structural)]
pub enum SpawningState {
    Loading,
    Loaded,
    Finished,
}

#[derive(Clone, Copy, Debug, PartialEq, Eq, Structural)]
pub struct Stats {
    pub strength: u16,
    pub intelligence: u16,
}

impl Stats {
    pub fn new_preallocated(strength: u16, intelligence: u16) -> (stats: Stats)
        ensures
            stats == (Stats { strength, intelligence }),
    {
        Stats { strength, intelligence }
    }
}

#[derive(Clone, Copy, Debug, PartialEq, Eq, Structural)]
pub struct MasteryLevel {
    pub mastery: u32,
    pub level: u8,
}

/// A character in play.
#[derive(Clone, Debug, PartialEq, Eq)]
pub struct Character {
    pub id: u32,
    pub name: String,
    pub race: Race,
    pub scale: u8,
    pub level: u8,
    pub max_level: u8,
    pub exp: u64,
    pub sp: u32,
    pub sp_exp: u32,
    pub stats: Stats,
    pub stat_points: u16,
    pub current_hp: u32,
    pub current_mp: u32,
    pub berserk_points: u8,
    pub gold: u64,
    pub beginner_mark: bool,
    pub gm: bool,
    pub state: SpawningState,
    pub masteries: Vec<MasteryLevel>,
    pub skills: Vec<u32>,
}

/// The mathematical content of a [`Character`].
pub struct CharacterView {
    pub id: u32,
    pub name: Seq<char>,
    pub race: Race,
    pub scale: u8,
    pub level: u8,
    pub max_level: u8,
    pub exp: u64,
    pub sp: u32,
    pub sp_exp: u32,
    pub stats: Stats,
    pub stat_points: u16,
    pub current_hp: u32,
    pub current_mp: u32,
    pub berserk_points: u8,
    pub gold: u64,
    pub beginner_mark: bool,
    pub gm: bool,
    pub state: SpawningState,
    pub masteries: Seq<MasteryLevel>,
    pub skills: Seq<u32>,
}

impl View for Character {
    type V = CharacterView;

    open spec fn view(&self) -> CharacterView {
        CharacterView {
            id: self.id,
            name: self.name@,
            race: self.race,
            scale: self.scale,
            level: self.level,
            max_level: self.max_level,
            exp: self.exp,
            sp: self.sp,
            sp_exp: self.sp_exp,
            stats: self.stats,
            stat_points: self.stat_points,
            current_hp: self.current_hp,
            current_mp: self.current_mp,
            berserk_points: self.berserk_points,
            gold: self.gold,
            beginner_mark: self.beginner_mark,
            gm: self.gm,
            state: self.state,
            masteries: self.masteries@,
            skills: self.skills@,
        }
    }
}

/// The character that a stored row describes: every column is taken over
/// in the width the game uses, and the character starts out loading,
/// Chinese, without masteries or skills.
pub open spec fn loaded_character(data: CharacterData) -> CharacterView {
    CharacterView {
        id: data.id as u32,
        name: data.charname@,
        race: Race::Chinese,
        scale: data.scale as u8,
        level: data.level as u8,
        max_level: data.max_level as u8,
        exp: data.exp as u64,
        sp: data.sp as u32,
        sp_exp: data.sp_exp as u32,
        stats: Stats { strength: data.strength as u16, intelligence: data.intelligence as u16 },
        stat_points: data.stat_points as u16,
        current_hp: data.current_hp as u32,
        current_mp: data.current_mp as u32,
        berserk_points: data.berserk_points as u8,
        gold: data.gold as u64,
        beginner_mark: data.beginner_mark,
        gm: data.gm,
        state: SpawningState::Loading,
        masteries: Seq::empty(),
        skills: Seq::empty(),
    }
}

/// The player of a human-controlled entity.
#[derive(Clone, Debug, PartialEq, Eq)]
pub struct Player {
    pub user: ServerUser,
    pub character: Character,
}

impl Player {
    fn from_db_character(data: &CharacterData) -> (character: Character)
        ensures
            character@ == loaded_character(*data),
    {
        Character {
            id: data.id as u32,
            name: data.charname.clone(),
            race: Race::Chinese,
            scale: data.scale as u8,
            level: data.level as u8,
            max_level: data.max_level as u8,
            exp: data.exp as u64,
            sp: data.sp as u32,
            sp_exp: data.sp_exp as u32,
            stats: Stats::new_preallocated(data.strength as u16, data.intelligence as u16),
            stat_points: data.stat_points as u16,
            current_hp: data.current_hp as u32,
            current_mp: data.current_mp as u32,
            berserk_points: data.berserk_points as u8,
            gold: data.gold as u64,
            beginner_mark: data.beginner_mark,
            gm: data.gm,
            state: SpawningState::Loading,
            masteries: Vec::new(),
            skills: Vec::new(),
        }
    }

    /// The player that `user` gets for the stored character.
    pub fn from_db_data(user: ServerUser, character: &CharacterData) -> (player: Player)
        ensures
            player.user == user,
            player.character@ == loaded_character(*character),
    {
        let char = Self::from_db_character(character);
        Player { user, character: char }
    }
}

/// The marker of entities that can carry buffs.
#[derive(Clone, Copy, Debug, PartialEq, Eq, Structural)]
pub struct Buffed {}

#[derive(Clone, Copy, Debug, PartialEq, Eq, Structural)]
pub struct Mana {
    pub current_mana: u32,
    pub max_mana: u32,
}

impl Mana {
    /// A full mana bar of the given size.
    pub fn with_max(max_mana: u32) -> (mana: Mana)
        ensures
            mana == (Mana { current_mana: max_mana, max_mana }),
    {
        Mana { current_mana: max_mana, max_mana }
    }
}

#[derive(Clone, Copy, Debug, PartialEq, Eq, Structural)]
pub struct Leveled {
    pub level: u8,
}

impl Leveled {
    pub fn new(level: u8) -> (leveled: Leveled)
        ensures
            leveled == (Leveled { level }),
    {
        Leveled { level }
    }
}

#[derive(Clone, Copy, Debug, PartialEq, Eq, Structural)]
pub struct SP {
    pub current: u32,
}

impl SP {
    pub fn new(current: u32) -> (sp: SP)
        ensures
            sp == (SP { current }),
    {
        SP { current }
    }
}

#[derive(Clone, Copy, Debug, PartialEq, Eq, Structural)]
pub struct Experienced {
    pub exp: u64,
    pub sp_exp: u64,
}

impl Experienced {
    pub fn new(exp: u64, sp_exp: u64) -> (experienced: Experienced)
        ensures
            experienced == (Experienced { exp, sp_exp }),
    {
        Experienced { exp, sp_exp }
    }
}

/// What a session sent and the systems have not consumed yet.
#[derive(Clone, Debug, PartialEq, Eq)]
pub struct PlayerInput {
    pub chat: Vec<ChatMessage>,
    pub gm: Vec<GmCommand>,
}

impl Default for PlayerInput {
    fn default() -> (input: PlayerInput)
        ensures
            input.chat@.len() == 0,
            input.gm@.len() == 0,
    {
        PlayerInput { chat: Vec::new(), gm: Vec::new() }
    }
}

/// The largest amounts of health and mana a character can have. They
/// follow from its level and stats by the game's formulas, which are not
/// this library's.
#[derive(Clone, Copy, Debug, PartialEq, Eq, Structural)]
pub struct Vitals {
    pub max_hp: u32,
    pub max_mp: u32,
}

/// Everything the entity of a player starts with.
#[derive(Clone, Debug, PartialEq, Eq)]
pub struct PlayerBundle {
    pub player: Player,
    pub game_entity: GameEntity,
    pub agent: Agent,
    pub pos: Position,
    pub buff: Buffed,
    pub visibility: VisibilityRange,
    pub input: PlayerInput,
    pub health: Health,
    pub mana: Mana,
    pub level: Leveled,
    pub sp: SP,
    pub exp: Experienced,
}

impl PlayerBundle {
    /// Assembles the components of a player's entity. Health and mana
    /// start full; level, skill points and both kinds of experience are
    /// those of the character; no input is pending.
    pub fn new(
        player: Player,
        game_entity: GameEntity,
        agent: Agent,
        pos: Position,
        visibility: VisibilityRange,
        vitals: Vitals,
    ) -> (bundle: PlayerBundle)
        ensures
            bundle.player == player,
            bundle.game_entity == game_entity,
            bundle.agent == agent,
            bundle.pos == pos,
            bundle.visibility == visibility,
            bundle.input.chat@.len() == 0,
            bundle.input.gm@.len() == 0,
            bundle.health == (Health {
                current_health: vitals.max_hp as usize,
                max_health: vitals.max_hp as usize,
            }),
            bundle.mana == (Mana { current_mana: vitals.max_mp, max_mana: vitals.max_mp }),
            bundle.level == (Leveled { level: player.character.level }),
            bundle.sp == (SP { current: player.character.sp }),
            bundle.exp == (Experienced {
                exp: player.character.exp,
                sp_exp: player.character.sp_exp as u64,
            }),
    {
        let max_hp = vitals.max_hp;
        let max_mana = vitals.max_mp;
        let sp = player.character.sp;
        let sp_exp = player.character.sp_exp;
        let exp = player.character.exp;
        let level = player.character.level;
        PlayerBundle {
            player,
            game_entity,
            agent,
            pos,
            buff: Buffed {  },
            visibility,
            input: PlayerInput::default(),
            health: Health::new(max_hp as usize),
            mana: Mana::with_max(max_mana),
            sp: SP::new(sp),
            level: Leveled::new(level),
            exp: Experienced::new(exp, sp_exp as u64),
        }
    }
}

} // verus!
