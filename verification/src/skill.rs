//! The packets by which a client raises a mastery or learns a skill, and
//! the server's answers.

use crate::wire::{DecodeError, Packet};
use vstd::prelude::*;
use vstd::slice::slice_subrange;

verus! {

/// The request to raise a mastery by some levels.
#[derive(Clone, Copy, Debug, PartialEq, Eq, Structural)]
pub struct LevelUpMastery {
    pub mastery: u32,
    pub amount: u8,
}

/// Why a mastery could not be raised.
#[derive(Clone, Copy, Debug, PartialEq, Eq, Structural)]
pub enum LevelUpMasteryError {
    InsufficientSP,
    MasteryMaxLevel,
    ReachedTotalLimit,
}

/// The answer to [`LevelUpMastery`].
#[derive(Clone, Copy, Debug, PartialEq, Eq, Structural)]
pub enum LevelUpMasteryResponse {
    Success { mastery: u32, new_level: u8 },
    Error(LevelUpMasteryError),
}

/// The request to learn the skill with the given reference id.
#[derive(Clone, Copy, Debug, PartialEq, Eq, Structural)]
pub struct LearnSkill(pub u32);

/// The answer to [`LearnSkill`].
#[derive(Clone, Copy, Debug, PartialEq, Eq, Structural)]
pub enum LearnSkillResponse {
    Success(u32),
    Error(LevelUpMasteryError),
}

impl Packet for LevelUpMastery {
    type Model = LevelUpMastery;

    open spec fn model(&self) -> LevelUpMastery {
        *self
    }

    open spec fn encodable(value: LevelUpMastery) -> bool {
        true
    }

    open spec fn wire(value: LevelUpMastery) -> Seq<u8> {
        <(u32, u8) as Packet>::wire((value.mastery, value.amount))
    }

    open spec fn parse(bytes: Seq<u8>) -> Result<(LevelUpMastery, nat), DecodeError> {
        match <(u32, u8) as Packet>::parse(bytes) {
            Ok((fields, read)) => Ok((LevelUpMastery { mastery: fields.0, amount: fields.1 }, read)),
            Err(error) => Err(error),
        }
    }

    fn encode(&self, buffer: &mut Vec<u8>) {
        (self.mastery, self.amount).encode(buffer);
    }

    fn decode(bytes: &[u8]) -> (result: Result<(LevelUpMastery, usize), DecodeError>) {
        match <(u32, u8) as Packet>::decode(bytes) {
            Ok(((mastery, amount), read)) => Ok((LevelUpMastery { mastery, amount }, read)),
            Err(error) => Err(error),
        }
    }

    proof fn lemma_parse_bounds(bytes: Seq<u8>) {
        <(u32, u8) as Packet>::lemma_parse_bounds(bytes);
    }

    proof fn lemma_round_trip(value: LevelUpMastery, rest: Seq<u8>) {
        <(u32, u8) as Packet>::lemma_round_trip((value.mastery, value.amount), rest);
    }

    proof fn lemma_truncated(value: LevelUpMastery, cut: int) {
        <(u32, u8) as Packet>::lemma_truncated((value.mastery, value.amount), cut);
    }
}

impl LevelUpMasteryError {
    /// The two-byte tag of an error on the wire.
    pub open spec fn tag(self) -> u16 {
        match self {
            LevelUpMasteryError::InsufficientSP => 0x3802,
            LevelUpMasteryError::MasteryMaxLevel => 0x3804,
            LevelUpMasteryError::ReachedTotalLimit => 0x3805,
        }
    }

    /// The error that a tag stands for.
    pub open spec fn of_tag(tag: u16) -> Option<LevelUpMasteryError> {
        if tag == 0x3802 {
            Some(LevelUpMasteryError::InsufficientSP)
        } else if tag == 0x3804 {
            Some(LevelUpMasteryError::MasteryMaxLevel)
        } else if tag == 0x3805 {
            Some(LevelUpMasteryError::ReachedTotalLimit)
        } else {
            None
        }
    }
}

impl Packet for LevelUpMasteryError {
    type Model = LevelUpMasteryError;

    open spec fn model(&self) -> LevelUpMasteryError {
        *self
    }

    open spec fn encodable(value: LevelUpMasteryError) -> bool {
        true
    }

    open spec fn wire(value: LevelUpMasteryError) -> Seq<u8> {
        <u16 as Packet>::wire(value.tag())
    }

    open spec fn parse(bytes: Seq<u8>) -> Result<(LevelUpMasteryError, nat), DecodeError> {
        match <u16 as Packet>::parse(bytes) {
            Ok((tag, read)) => match LevelUpMasteryError::of_tag(tag) {
                Some(error) => Ok((error, read)),
                None => Err(DecodeError::UnknownDiscriminant(tag as u32)),
            },
            Err(error) => Err(error),
        }
    }

    fn encode(&self, buffer: &mut Vec<u8>) {
        let tag: u16 = match self {
            LevelUpMasteryError::InsufficientSP => 0x3802,
            LevelUpMasteryError::MasteryMaxLevel => 0x3804,
            LevelUpMasteryError::ReachedTotalLimit => 0x3805,
        };
        tag.encode(buffer);
    }

    fn decode(bytes: &[u8]) -> (result: Result<(LevelUpMasteryError, usize), DecodeError>) {
        match <u16 as Packet>::decode(bytes) {
            Ok((tag, read)) => {
                if tag == 0x3802 {
                    Ok((LevelUpMasteryError::InsufficientSP, read))
                } else if tag == 0x3804 {
                    Ok((LevelUpMasteryError::MasteryMaxLevel, read))
                } else if tag == 0x3805 {
                    Ok((LevelUpMasteryError::ReachedTotalLimit, read))
                } else {
                    Err(DecodeError::UnknownDiscriminant(tag as u32))
                }
            },
            Err(error) => Err(error),
        }
    }

    proof fn lemma_parse_bounds(bytes: Seq<u8>) {
    }

    proof fn lemma_round_trip(value: LevelUpMasteryError, rest: Seq<u8>) {
        <u16 as Packet>::lemma_round_trip(value.tag(), rest);
    }

    proof fn lemma_truncated(value: LevelUpMasteryError, cut: int) {
        <u16 as Packet>::lemma_truncated(value.tag(), cut);
    }
}

impl Packet for LevelUpMasteryResponse {
    type Model = LevelUpMasteryResponse;

    open spec fn model(&self) -> LevelUpMasteryResponse {
        *self
    }

    open spec fn encodable(value: LevelUpMasteryResponse) -> bool {
        true
    }

    open spec fn wire(value: LevelUpMasteryResponse) -> Seq<u8> {
        match value {
            LevelUpMasteryResponse::Success { mastery, new_level } => seq![1u8] + <(
                u32,
                u8,
            ) as Packet>::wire((mastery, new_level)),
            LevelUpMasteryResponse::Error(error) => seq![2u8] + <LevelUpMasteryError as Packet>::wire(
                error,
            ),
        }
    }

    open spec fn parse(bytes: Seq<u8>) -> Result<(LevelUpMasteryResponse, nat), DecodeError> {
        if bytes.len() < 1 {
            Err(DecodeError::UnexpectedEndOfInput)
        } else if bytes[0] == 1 {
            match <(u32, u8) as Packet>::parse(bytes.skip(1)) {
                Ok((fields, read)) => Ok(
                    (
                        LevelUpMasteryResponse::Success { mastery: fields.0, new_level: fields.1 },
                        1 + read,
                    ),
                ),
                Err(error) => Err(error),
            }
        } else if bytes[0] == 2 {
            match <LevelUpMasteryError as Packet>::parse(bytes.skip(1)) {
                Ok((error, read)) => Ok((LevelUpMasteryResponse::Error(error), 1 + read)),
                Err(error) => Err(error),
            }
        } else {
            Err(DecodeError::UnknownDiscriminant(bytes[0] as u32))
        }
    }

    fn encode(&self, buffer: &mut Vec<u8>) {
        match self {
            LevelUpMasteryResponse::Success { mastery, new_level } => {
                buffer.push(1);
                (*mastery, *new_level).encode(buffer);
            },
            LevelUpMasteryResponse::Error(error) => {
                buffer.push(2);
                error.encode(buffer);
            },
        }
        assert(buffer@ =~= old(buffer)@ + Self::wire(*self));
    }

    fn decode(bytes: &[u8]) -> (result: Result<(LevelUpMasteryResponse, usize), DecodeError>) {
        if bytes.len() < 1 {
            return Err(DecodeError::UnexpectedEndOfInput);
        }
        let rest = slice_subrange(bytes, 1, bytes.len());
        assert(rest@ =~= bytes@.skip(1));
        if bytes[0] == 1 {
            match <(u32, u8) as Packet>::decode(rest) {
                Ok(((mastery, new_level), read)) => Ok(
                    (LevelUpMasteryResponse::Success { mastery, new_level }, 1 + read),
                ),
                Err(error) => Err(error),
            }
        } else if bytes[0] == 2 {
            match <LevelUpMasteryError as Packet>::decode(rest) {
                Ok((error, read)) => Ok((LevelUpMasteryResponse::Error(error), 1 + read)),
                Err(error) => Err(error),
            }
        } else {
            Err(DecodeError::UnknownDiscriminant(bytes[0] as u32))
        }
    }

    proof fn lemma_parse_bounds(bytes: Seq<u8>) {
        if bytes.len() >= 1 {
            <(u32, u8) as Packet>::lemma_parse_bounds(bytes.skip(1));
            <LevelUpMasteryError as Packet>::lemma_parse_bounds(bytes.skip(1));
        }
    }

    proof fn lemma_round_trip(value: LevelUpMasteryResponse, rest: Seq<u8>) {
        let all = Self::wire(value) + rest;
        match value {
            LevelUpMasteryResponse::Success { mastery, new_level } => {
                let body = <(u32, u8) as Packet>::wire((mastery, new_level));
                <(u32, u8) as Packet>::lemma_round_trip((mastery, new_level), rest);
                assert(all.skip(1) =~= body + rest);
            },
            LevelUpMasteryResponse::Error(error) => {
                let body = <LevelUpMasteryError as Packet>::wire(error);
                <LevelUpMasteryError as Packet>::lemma_round_trip(error, rest);
                assert(all.skip(1) =~= body + rest);
            },
        }
    }

    proof fn lemma_truncated(value: LevelUpMasteryResponse, cut: int) {
        let kept = Self::wire(value).take(cut);
        if cut >= 1 {
            match value {
                LevelUpMasteryResponse::Success { mastery, new_level } => {
                    let body = <(u32, u8) as Packet>::wire((mastery, new_level));
                    <(u32, u8) as Packet>::lemma_truncated((mastery, new_level), cut - 1);
                    assert(kept.skip(1) =~= body.take(cut - 1));
                },
                LevelUpMasteryResponse::Error(error) => {
                    let body = <LevelUpMasteryError as Packet>::wire(error);
                    <LevelUpMasteryError as Packet>::lemma_truncated(error, cut - 1);
                    assert(kept.skip(1) =~= body.take(cut - 1));
                },
            }
        }
    }
}

impl Packet for LearnSkill {
    type Model = LearnSkill;

    open spec fn model(&self) -> LearnSkill {
        *self
    }

    open spec fn encodable(value: LearnSkill) -> bool {
        true
    }

    open spec fn wire(value: LearnSkill) -> Seq<u8> {
        <u32 as Packet>::wire(value.0)
    }

    open spec fn parse(bytes: Seq<u8>) -> Result<(LearnSkill, nat), DecodeError> {
        match <u32 as Packet>::parse(bytes) {
            Ok((skill, read)) => Ok((LearnSkill(skill), read)),
            Err(error) => Err(error),
        }
    }

    fn encode(&self, buffer: &mut Vec<u8>) {
        self.0.encode(buffer);
    }

    fn decode(bytes: &[u8]) -> (result: Result<(LearnSkill, usize), DecodeError>) {
        match <u32 as Packet>::decode(bytes) {
            Ok((skill, read)) => Ok((LearnSkill(skill), read)),
            Err(error) => Err(error),
        }
    }

    proof fn lemma_parse_bounds(bytes: Seq<u8>) {
    }

    proof fn lemma_round_trip(value: LearnSkill, rest: Seq<u8>) {
        <u32 as Packet>::lemma_round_trip(value.0, rest);
    }

    proof fn lemma_truncated(value: LearnSkill, cut: int) {
        <u32 as Packet>::lemma_truncated(value.0, cut);
    }
}

impl Packet for LearnSkillResponse {
    type Model = LearnSkillResponse;

    open spec fn model(&self) -> LearnSkillResponse {
        *self
    }

    open spec fn encodable(value: LearnSkillResponse) -> bool {
        true
    }

    open spec fn wire(value: LearnSkillResponse) -> Seq<u8> {
        match value {
            LearnSkillResponse::Success(skill) => seq![1u8] + <u32 as Packet>::wire(skill),
            LearnSkillResponse::Error(error) => seq![2u8] + <LevelUpMasteryError as Packet>::wire(
                error,
            ),
        }
    }

    open spec fn parse(bytes: Seq<u8>) -> Result<(LearnSkillResponse, nat), DecodeError> {
        if bytes.len() < 1 {
            Err(DecodeError::UnexpectedEndOfInput)
        } else if bytes[0] == 1 {
            match <u32 as Packet>::parse(bytes.skip(1)) {
                Ok((skill, read)) => Ok((LearnSkillResponse::Success(skill), 1 + read)),
                Err(error) => Err(error),
            }
        } else if bytes[0] == 2 {
            match <LevelUpMasteryError as Packet>::parse(bytes.skip(1)) {
                Ok((error, read)) => Ok((LearnSkillResponse::Error(error), 1 + read)),
                Err(error) => Err(error),
            }
        } else {
            Err(DecodeError::UnknownDiscriminant(bytes[0] as u32))
        }
    }

    fn encode(&self, buffer: &mut Vec<u8>) {
        match self {
            LearnSkillResponse::Success(skill) => {
                buffer.push(1);
                skill.encode(buffer);
            },
            LearnSkillResponse::Error(error) => {
                buffer.push(2);
                error.encode(buffer);
            },
        }
        assert(buffer@ =~= old(buffer)@ + Self::wire(*self));
    }

    fn decode(bytes: &[u8]) -> (result: Result<(LearnSkillResponse, usize), DecodeError>) {
        if bytes.len() < 1 {
            return Err(DecodeError::UnexpectedEndOfInput);
        }
        let rest = slice_subrange(bytes, 1, bytes.len());
        assert(rest@ =~= bytes@.skip(1));
        if bytes[0] == 1 {
            match <u32 as Packet>::decode(rest) {
                Ok((skill, read)) => Ok((LearnSkillResponse::Success(skill), 1 + read)),
                Err(error) => Err(error),
            }
        } else if bytes[0] == 2 {
            match <LevelUpMasteryError as Packet>::decode(rest) {
                Ok((error, read)) => Ok((LearnSkillResponse::Error(error), 1 + read)),
                Err(error) => Err(error),
            }
        } else {
            Err(DecodeError::UnknownDiscriminant(bytes[0] as u32))
        }
    }

    proof fn lemma_parse_bounds(bytes: Seq<u8>) {
        if bytes.len() >= 1 {
            <LevelUpMasteryError as Packet>::lemma_parse_bounds(bytes.skip(1));
        }
    }

    proof fn lemma_round_trip(value: LearnSkillResponse, rest: Seq<u8>) {
        let all = Self::wire(value) + rest;
        match value {
            LearnSkillResponse::Success(skill) => {
                let body = <u32 as Packet>::wire(skill);
                <u32 as Packet>::lemma_round_trip(skill, rest);
                assert(all.skip(1) =~= body + rest);
            },
            LearnSkillResponse::Error(error) => {
                let body = <LevelUpMasteryError as Packet>::wire(error);
                <LevelUpMasteryError as Packet>::lemma_round_trip(error, rest);
                assert(all.skip(1) =~= body + rest);
            },
        }
    }

    proof fn lemma_truncated(value: LearnSkillResponse, cut: int) {
        let kept = Self::wire(value).take(cut);
        if cut >= 1 {
            match value {
                LearnSkillResponse::Success(skill) => {
                    let body = <u32 as Packet>::wire(skill);
                    <u32 as Packet>::lemma_truncated(skill, cut - 1);
                    assert(kept.skip(1) =~= body.take(cut - 1));
                },
                LearnSkillResponse::Error(error) => {
                    let body = <LevelUpMasteryError as Packet>::wire(error);
                    <LevelUpMasteryError as Packet>::lemma_truncated(error, cut - 1);
                    assert(kept.skip(1) =~= body.take(cut - 1));
                },
            }
        }
    }
}

} // verus!
