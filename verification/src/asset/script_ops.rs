//! The opcodes a scene script can carry, and the operand widths the known
//! ones take.

use vstd::prelude::*;

use crate::asset::param::{KnownUnknown, ParamDescriptor, ParamType};

verus! {

/// An opcode of a scene script: a known case, or a raw code carried
/// through.
pub type ScriptOpcode = KnownUnknown<KnownOpcode, u32>;

/// The script opcodes whose meaning and operand shape are known.
#[derive(Debug, Clone, Copy, PartialEq, Eq, Structural)]
pub enum KnownOpcode {
    EndScript,
    SetBackground,
    SetPlayerHealth,
    SetSceneName,
    WaitToMoveOn,
    CreateTimeLimitChallenge,
    CreateKillAllByTagChallenge,
    CreateFindTheGhoulieKeyChallenge,
    SpawnGhoulieWithBox,
    CreateWeaponsOnlyChallenge,
    CreateFindTheKeyChallenge,
    CreateNoBreakHouseChallenge,
    UpdateDoor,
    PlayWalkinCutscene,
    PlaySound,
}

impl KnownOpcode {
    /// The numeric code this opcode is stored as.
    pub open spec fn spec_code(self) -> u32 {
        match self {
            KnownOpcode::EndScript => 0x0,
            KnownOpcode::SetBackground => 0x1,
            KnownOpcode::SetPlayerHealth => 0x7,
            KnownOpcode::SetSceneName => 0xa,
            KnownOpcode::WaitToMoveOn => 0x0f,
            KnownOpcode::CreateTimeLimitChallenge => 0x1a,
            KnownOpcode::CreateKillAllByTagChallenge => 0x1c,
            KnownOpcode::CreateFindTheGhoulieKeyChallenge => 0x1f,
            KnownOpcode::SpawnGhoulieWithBox => 0x2a,
            KnownOpcode::CreateWeaponsOnlyChallenge => 0x23,
            KnownOpcode::CreateFindTheKeyChallenge => 0x27,
            KnownOpcode::CreateNoBreakHouseChallenge => 0x28,
            KnownOpcode::UpdateDoor => 0x29,
            KnownOpcode::PlayWalkinCutscene => 0x53,
            KnownOpcode::PlaySound => 0x8d,
        }
    }

    /// The known opcode a numeric code decodes to, if any.
    pub open spec fn spec_from_code(c: u32) -> Option<KnownOpcode> {
        if c == 0x0 {
            Some(KnownOpcode::EndScript)
        } else if c == 0x1 {
            Some(KnownOpcode::SetBackground)
        } else if c == 0x7 {
            Some(KnownOpcode::SetPlayerHealth)
        } else if c == 0xa {
            Some(KnownOpcode::SetSceneName)
        } else if c == 0x0f {
            Some(KnownOpcode::WaitToMoveOn)
        } else if c == 0x1a {
            Some(KnownOpcode::CreateTimeLimitChallenge)
        } else if c == 0x1c {
            Some(KnownOpcode::CreateKillAllByTagChallenge)
        } else if c == 0x1f {
            Some(KnownOpcode::CreateFindTheGhoulieKeyChallenge)
        } else if c == 0x2a {
            Some(KnownOpcode::SpawnGhoulieWithBox)
        } else if c == 0x23 {
            Some(KnownOpcode::CreateWeaponsOnlyChallenge)
        } else if c == 0x27 {
            Some(KnownOpcode::CreateFindTheKeyChallenge)
        } else if c == 0x28 {
            Some(KnownOpcode::CreateNoBreakHouseChallenge)
        } else if c == 0x29 {
            Some(KnownOpcode::UpdateDoor)
        } else if c == 0x53 {
            Some(KnownOpcode::PlayWalkinCutscene)
        } else if c == 0x8d {
            Some(KnownOpcode::PlaySound)
        } else {
            None
        }
    }

    /// The numeric code this opcode is stored as.
    pub fn code(self) -> (r: u32)
        ensures
            r == self.spec_code(),
    {
        match self {
            KnownOpcode::EndScript => 0x0,
            KnownOpcode::SetBackground => 0x1,
            KnownOpcode::SetPlayerHealth => 0x7,
            KnownOpcode::SetSceneName => 0xa,
            KnownOpcode::WaitToMoveOn => 0x0f,
            KnownOpcode::CreateTimeLimitChallenge => 0x1a,
            KnownOpcode::CreateKillAllByTagChallenge => 0x1c,
            KnownOpcode::CreateFindTheGhoulieKeyChallenge => 0x1f,
            KnownOpcode::SpawnGhoulieWithBox => 0x2a,
            KnownOpcode::CreateWeaponsOnlyChallenge => 0x23,
            KnownOpcode::CreateFindTheKeyChallenge => 0x27,
            KnownOpcode::CreateNoBreakHouseChallenge => 0x28,
            KnownOpcode::UpdateDoor => 0x29,
            KnownOpcode::PlayWalkinCutscene => 0x53,
            KnownOpcode::PlaySound => 0x8d,
        }
    }

    /// The byte width of the operands this opcode takes.
    pub open spec fn spec_operands_size(self) -> usize {
        match self {
            KnownOpcode::EndScript => 0x00,
            KnownOpcode::WaitToMoveOn => 0x00,
            KnownOpcode::CreateTimeLimitChallenge => 0x4,
            KnownOpcode::CreateKillAllByTagChallenge => 0x44,
            KnownOpcode::CreateFindTheGhoulieKeyChallenge => 0x00,
            KnownOpcode::CreateFindTheKeyChallenge => 0x00,
            KnownOpcode::CreateNoBreakHouseChallenge => 0x00,
            KnownOpcode::CreateWeaponsOnlyChallenge => 0x00,
            KnownOpcode::SetBackground => 0x80,
            KnownOpcode::SetSceneName => 0x48,
            KnownOpcode::SpawnGhoulieWithBox => 0x108,
            KnownOpcode::PlayWalkinCutscene => 0x80,
            KnownOpcode::PlaySound => 0x80,
            KnownOpcode::SetPlayerHealth => 0x4,
            KnownOpcode::UpdateDoor => 0x10,
        }
    }

    /// The byte width of the operands this opcode takes.
    pub fn operands_size(&self) -> (r: usize)
        ensures
            r == self.spec_operands_size(),
    {
        match self {
            KnownOpcode::EndScript => 0x00,
            KnownOpcode::WaitToMoveOn => 0x00,
            KnownOpcode::CreateTimeLimitChallenge => 0x4,
            KnownOpcode::CreateKillAllByTagChallenge => 0x44,
            KnownOpcode::CreateFindTheGhoulieKeyChallenge => 0x00,
            KnownOpcode::CreateFindTheKeyChallenge => 0x00,
            KnownOpcode::CreateNoBreakHouseChallenge => 0x00,
            KnownOpcode::CreateWeaponsOnlyChallenge => 0x00,
            KnownOpcode::SetBackground => 0x80,
            KnownOpcode::SetSceneName => 0x48,
            KnownOpcode::SpawnGhoulieWithBox => 0x108,
            KnownOpcode::PlayWalkinCutscene => 0x80,
            KnownOpcode::PlaySound => 0x80,
            KnownOpcode::SetPlayerHealth => 0x4,
            KnownOpcode::UpdateDoor => 0x10,
        }
    }
}

/// The opcode a raw code decodes to: the known case when the code names
/// one, the raw code itself otherwise.
pub open spec fn spec_opcode_from_u32(c: u32) -> ScriptOpcode {
    match KnownOpcode::spec_from_code(c) {
        Some(k) => KnownUnknown::Known(k),
        None => KnownUnknown::Unknown(c),
    }
}

/// The numeric code an opcode is stored as.
pub open spec fn spec_opcode_to_u32(op: ScriptOpcode) -> u32 {
    match op {
        KnownUnknown::Known(k) => k.spec_code(),
        KnownUnknown::Unknown(c) => c,
    }
}

/// Decodes a raw opcode value.
pub fn opcode_from_u32(c: u32) -> (r: ScriptOpcode)
    ensures
        r == spec_opcode_from_u32(c),
{
    if c == 0x0 {
        KnownUnknown::Known(KnownOpcode::EndScript)
    } else if c == 0x1 {
        KnownUnknown::Known(KnownOpcode::SetBackground)
    } else if c == 0x7 {
        KnownUnknown::Known(KnownOpcode::SetPlayerHealth)
    } else if c == 0xa {
        KnownUnknown::Known(KnownOpcode::SetSceneName)
    } else if c == 0x0f {
        KnownUnknown::Known(KnownOpcode::WaitToMoveOn)
    } else if c == 0x1a {
        KnownUnknown::Known(KnownOpcode::CreateTimeLimitChallenge)
    } else if c == 0x1c {
        KnownUnknown::Known(KnownOpcode::CreateKillAllByTagChallenge)
    } else if c == 0x1f {
        KnownUnknown::Known(KnownOpcode::CreateFindTheGhoulieKeyChallenge)
    } else if c == 0x2a {
        KnownUnknown::Known(KnownOpcode::SpawnGhoulieWithBox)
    } else if c == 0x23 {
        KnownUnknown::Known(KnownOpcode::CreateWeaponsOnlyChallenge)
    } else if c == 0x27 {
        KnownUnknown::Known(KnownOpcode::CreateFindTheKeyChallenge)
    } else if c == 0x28 {
        KnownUnknown::Known(KnownOpcode::CreateNoBreakHouseChallenge)
    } else if c == 0x29 {
        KnownUnknown::Known(KnownOpcode::UpdateDoor)
    } else if c == 0x53 {
        KnownUnknown::Known(KnownOpcode::PlayWalkinCutscene)
    } else if c == 0x8d {
        KnownUnknown::Known(KnownOpcode::PlaySound)
    } else {
        KnownUnknown::Unknown(c)
    }
}

/// Encodes an opcode as its raw value.
pub fn opcode_to_u32(op: &ScriptOpcode) -> (r: u32)
    ensures
        r == spec_opcode_to_u32(*op),
{
    match op {
        KnownUnknown::Known(k) => k.code(),
        KnownUnknown::Unknown(c) => *c,
    }
}

/// Appends one named parameter to a shape.
fn push_param(shape: &mut Vec<(String, ParamDescriptor)>, name: &str, param_type: ParamType, description: &str)
    ensures
        final(shape)@.len() == old(shape)@.len() + 1,
{
    shape.push((name.to_owned(), ParamDescriptor { param_type, description: description.to_owned() }));
}

impl KnownOpcode {
    /// How many named parameters this opcode takes.
    pub open spec fn spec_param_count(self) -> int {
        match self {
            KnownOpcode::EndScript => 0,
            KnownOpcode::WaitToMoveOn => 0,
            KnownOpcode::CreateFindTheGhoulieKeyChallenge => 0,
            KnownOpcode::CreateWeaponsOnlyChallenge => 0,
            KnownOpcode::CreateFindTheKeyChallenge => 0,
            KnownOpcode::CreateNoBreakHouseChallenge => 0,
            KnownOpcode::SetBackground => 1,
            KnownOpcode::SetSceneName => 4,
            KnownOpcode::CreateTimeLimitChallenge => 1,
            KnownOpcode::SpawnGhoulieWithBox => 3,
            KnownOpcode::PlayWalkinCutscene => 1,
            KnownOpcode::PlaySound => 1,
            KnownOpcode::CreateKillAllByTagChallenge => 2,
            KnownOpcode::SetPlayerHealth => 1,
            KnownOpcode::UpdateDoor => 4,
        }
    }

    /// The named parameters this opcode takes, in operand order, each with
    /// its primitive type and a prose description.
    pub fn param_shape(&self) -> (r: Vec<(String, ParamDescriptor)>)
        ensures
            r@.len() == self.spec_param_count(),
    {
        let mut shape: Vec<(String, ParamDescriptor)> = Vec::new();
        match self {
            KnownOpcode::EndScript
            | KnownOpcode::WaitToMoveOn
            | KnownOpcode::CreateFindTheGhoulieKeyChallenge
            | KnownOpcode::CreateWeaponsOnlyChallenge
            | KnownOpcode::CreateFindTheKeyChallenge
            | KnownOpcode::CreateNoBreakHouseChallenge => {},
            KnownOpcode::SetBackground => {
                push_param(
                    &mut shape,
                    "background_aid",
                    ParamType::String(0x80),
                    "The asset ID of the background to be loaded at the beginning of the scene.",
                );
            },
            KnownOpcode::SetSceneName => {
                push_param(
                    &mut shape,
                    "scene_name",
                    ParamType::String(0x40),
                    "The name of the current scene as a string.",
                );
                push_param(&mut shape, "unknown1", ParamType::Bytes(4), "Unknown value of size 4 bytes.");
                push_param(&mut shape, "unknown2", ParamType::Bytes(4), "Unknown value of size 4 bytes.");
                push_param(&mut shape, "unknown3", ParamType::Bytes(4), "Unknown value of size 4 bytes.");
            },
            KnownOpcode::CreateTimeLimitChallenge => {
                push_param(
                    &mut shape,
                    "duration",
                    ParamType::F32,
                    "The duration of the timer in the challenge.",
                );
            },
            KnownOpcode::SpawnGhoulieWithBox => {
                push_param(
                    &mut shape,
                    "ghoulybox_aid",
                    ParamType::String(0x80),
                    "The asset ID of the box that will be spawned.",
                );
                push_param(&mut shape, "spawn_count", ParamType::U32, "The number of entities spawned.");
                push_param(
                    &mut shape,
                    "actor_attribs_aid",
                    ParamType::String(0x80),
                    "The asset ID of the actor attributes that will be used.",
                );
            },
            KnownOpcode::PlayWalkinCutscene => {
                push_param(
                    &mut shape,
                    "cutscene_aid",
                    ParamType::String(0x80),
                    "The asset ID of the cutscene to be played on room walk in.",
                );
            },
            KnownOpcode::PlaySound => {
                push_param(
                    &mut shape,
                    "soundbank_id",
                    ParamType::String(0x80),
                    "The soundbank ID of the audio to be played.",
                );
            },
            KnownOpcode::CreateKillAllByTagChallenge => {
                push_param(
                    &mut shape,
                    "actor_tag",
                    ParamType::String(0x40),
                    "The tag of the actor which must be killed in the challenge.",
                );
                push_param(&mut shape, "unknownU32", ParamType::U32, "Unknown value, typically one.");
            },
            KnownOpcode::SetPlayerHealth => {
                push_param(
                    &mut shape,
                    "health",
                    ParamType::U32,
                    "The amount of health that the player starts this room with.",
                );
            },
            KnownOpcode::UpdateDoor => {
                push_param(&mut shape, "door_id", ParamType::U32, "The ID of the door which will be altered.");
                push_param(
                    &mut shape,
                    "open_status",
                    ParamType::U32,
                    "Whether the door is shut: zero for open, one for shut.",
                );
                push_param(&mut shape, "unknownU32_1", ParamType::U32, "Unknown value, only sometimes used.");
                push_param(&mut shape, "unknownU32_2", ParamType::U32, "Unknown value, only sometimes used.");
            },
        }
        shape
    }
}

} // verus!
