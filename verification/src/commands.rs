//! The command registry: a bidirectional mapping between semantic command
//! identifiers and their one-byte wire opcodes.
//!
//! Unrecognized opcodes are carried through losslessly by the `Unknown`
//! variant, so every byte round-trips: `opcode_of(command_of(b)) == b`.

use vstd::prelude::*;

verus! {

/// A semantic command identifier: a closed set of known commands plus an
/// open `Unknown` variant carrying a raw opcode byte.
#[derive(Debug, Clone, Copy, PartialEq, Eq, Structural)]
pub enum Command {
    // System definitions
    Undefined,
    Version,
    // Power & status
    PowerOn,
    PowerOff,
    IsPoweredOn,
    ReleaseAllServos,
    IsControllerConnected,
    ReadNextError,
    SetFreeMoveMode,
    IsFreeMoveMode,
    // MDI & operation
    GetAngles,
    WriteAngle,
    WriteAngles,
    GetCoords,
    WriteCoord,
    WriteCoords,
    ProgramPause,
    IsProgramPaused,
    ProgramResume,
    TaskStop,
    IsInPosition,
    CheckRunning,
    // Jogging
    JogAngle,
    JogAbsolute,
    JogCoord,
    SendJogIncrement,
    JogStop,
    // Encoder
    SetEncoder,
    GetEncoder,
    SetEncoders,
    GetEncoders,
    // Speed
    GetSpeed,
    SetSpeed,
    // IO
    SetPinMode,
    SetDigitalOut,
    GetDigitalIn,
    // Gripper / LED
    GripperMode,
    SetLedRgb,
    // Basic
    SetBasicOut,
    GetBasicIn,
    // Fallback for opcodes outside the known set
    Unknown(u8),
}

/// The wire opcode of a command.
pub open spec fn opcode_of(c: Command) -> u8 {
    match c {
        Command::Undefined => 0x00,
        Command::Version => 0x01,
        Command::PowerOn => 0x10,
        Command::PowerOff => 0x11,
        Command::IsPoweredOn => 0x12,
        Command::ReleaseAllServos => 0x13,
        Command::IsControllerConnected => 0x14,
        Command::ReadNextError => 0x15,
        Command::SetFreeMoveMode => 0x1A,
        Command::IsFreeMoveMode => 0x1B,
        Command::GetAngles => 0x20,
        Command::WriteAngle => 0x21,
        Command::WriteAngles => 0x22,
        Command::GetCoords => 0x23,
        Command::WriteCoord => 0x24,
        Command::WriteCoords => 0x25,
        Command::ProgramPause => 0x26,
        Command::IsProgramPaused => 0x27,
        Command::ProgramResume => 0x28,
        Command::TaskStop => 0x29,
        Command::IsInPosition => 0x2A,
        Command::CheckRunning => 0x2B,
        Command::JogAngle => 0x30,
        Command::JogAbsolute => 0x31,
        Command::JogCoord => 0x32,
        Command::SendJogIncrement => 0x33,
        Command::JogStop => 0x34,
        Command::SetEncoder => 0x3A,
        Command::GetEncoder => 0x3B,
        Command::SetEncoders => 0x3C,
        Command::GetEncoders => 0x3D,
        Command::GetSpeed => 0x40,
        Command::SetSpeed => 0x41,
        Command::SetPinMode => 0x60,
        Command::SetDigitalOut => 0x61,
        Command::GetDigitalIn => 0x62,
        Command::GripperMode => 0x66,
        Command::SetLedRgb => 0x6A,
        Command::SetBasicOut => 0xA0,
        Command::GetBasicIn => 0xA1,
        Command::Unknown(b) => b,
    }
}

/// The command a wire opcode stands for; bytes outside the known set map to
/// `Unknown`, preserving the byte.
pub open spec fn command_of(b: u8) -> Command {
    match b {
        0x00 => Command::Undefined,
        0x01 => Command::Version,
        0x10 => Command::PowerOn,
        0x11 => Command::PowerOff,
        0x12 => Command::IsPoweredOn,
        0x13 => Command::ReleaseAllServos,
        0x14 => Command::IsControllerConnected,
        0x15 => Command::ReadNextError,
        0x1A => Command::SetFreeMoveMode,
        0x1B => Command::IsFreeMoveMode,
        0x20 => Command::GetAngles,
        0x21 => Command::WriteAngle,
        0x22 => Command::WriteAngles,
        0x23 => Command::GetCoords,
        0x24 => Command::WriteCoord,
        0x25 => Command::WriteCoords,
        0x26 => Command::ProgramPause,
        0x27 => Command::IsProgramPaused,
        0x28 => Command::ProgramResume,
        0x29 => Command::TaskStop,
        0x2A => Command::IsInPosition,
        0x2B => Command::CheckRunning,
        0x30 => Command::JogAngle,
        0x31 => Command::JogAbsolute,
        0x32 => Command::JogCoord,
        0x33 => Command::SendJogIncrement,
        0x34 => Command::JogStop,
        0x3A => Command::SetEncoder,
        0x3B => Command::GetEncoder,
        0x3C => Command::SetEncoders,
        0x3D => Command::GetEncoders,
        0x40 => Command::GetSpeed,
        0x41 => Command::SetSpeed,
        0x60 => Command::SetPinMode,
        0x61 => Command::SetDigitalOut,
        0x62 => Command::GetDigitalIn,
        0x66 => Command::GripperMode,
        0x6A => Command::SetLedRgb,
        0xA0 => Command::SetBasicOut,
        0xA1 => Command::GetBasicIn,
        _ => Command::Unknown(b),
    }
}

/// A command is canonical when it is what decoding its own opcode yields:
/// every known command, and `Unknown(b)` only for bytes outside the known set.
pub open spec fn is_canonical(c: Command) -> bool {
    command_of(opcode_of(c)) == c
}

impl Command {
    /// The wire opcode of this command.
    pub fn opcode(self) -> (r: u8)
        ensures
            r == opcode_of(self),
    {
        match self {
            Command::Undefined => 0x00,
            Command::Version => 0x01,
            Command::PowerOn => 0x10,
            Command::PowerOff => 0x11,
            Command::IsPoweredOn => 0x12,
            Command::ReleaseAllServos => 0x13,
            Command::IsControllerConnected => 0x14,
            Command::ReadNextError => 0x15,
            Command::SetFreeMoveMode => 0x1A,
            Command::IsFreeMoveMode => 0x1B,
            Command::GetAngles => 0x20,
            Command::WriteAngle => 0x21,
            Command::WriteAngles => 0x22,
            Command::GetCoords => 0x23,
            Command::WriteCoord => 0x24,
            Command::WriteCoords => 0x25,
            Command::ProgramPause => 0x26,
            Command::IsProgramPaused => 0x27,
            Command::ProgramResume => 0x28,
            Command::TaskStop => 0x29,
            Command::IsInPosition => 0x2A,
            Command::CheckRunning => 0x2B,
            Command::JogAngle => 0x30,
            Command::JogAbsolute => 0x31,
            Command::JogCoord => 0x32,
            Command::SendJogIncrement => 0x33,
            Command::JogStop => 0x34,
            Command::SetEncoder => 0x3A,
            Command::GetEncoder => 0x3B,
            Command::SetEncoders => 0x3C,
            Command::GetEncoders => 0x3D,
            Command::GetSpeed => 0x40,
            Command::SetSpeed => 0x41,
            Command::SetPinMode => 0x60,
            Command::SetDigitalOut => 0x61,
            Command::GetDigitalIn => 0x62,
            Command::GripperMode => 0x66,
            Command::SetLedRgb => 0x6A,
            Command::SetBasicOut => 0xA0,
            Command::GetBasicIn => 0xA1,
            Command::Unknown(b) => b,
        }
    }

    /// The command a wire opcode stands for.
    pub fn from_byte(b: u8) -> (r: Command)
        ensures
            r == command_of(b),
    {
        match b {
            0x00 => Command::Undefined,
            0x01 => Command::Version,
            0x10 => Command::PowerOn,
            0x11 => Command::PowerOff,
            0x12 => Command::IsPoweredOn,
            0x13 => Command::ReleaseAllServos,
            0x14 => Command::IsControllerConnected,
            0x15 => Command::ReadNextError,
            0x1A => Command::SetFreeMoveMode,
            0x1B => Command::IsFreeMoveMode,
            0x20 => Command::GetAngles,
            0x21 => Command::WriteAngle,
            0x22 => Command::WriteAngles,
            0x23 => Command::GetCoords,
            0x24 => Command::WriteCoord,
            0x25 => Command::WriteCoords,
            0x26 => Command::ProgramPause,
            0x27 => Command::IsProgramPaused,
            0x28 => Command::ProgramResume,
            0x29 => Command::TaskStop,
            0x2A => Command::IsInPosition,
            0x2B => Command::CheckRunning,
            0x30 => Command::JogAngle,
            0x31 => Command::JogAbsolute,
            0x32 => Command::JogCoord,
            0x33 => Command::SendJogIncrement,
            0x34 => Command::JogStop,
            0x3A => Command::SetEncoder,
            0x3B => Command::GetEncoder,
            0x3C => Command::SetEncoders,
            0x3D => Command::GetEncoders,
            0x40 => Command::GetSpeed,
            0x41 => Command::SetSpeed,
            0x60 => Command::SetPinMode,
            0x61 => Command::SetDigitalOut,
            0x62 => Command::GetDigitalIn,
            0x66 => Command::GripperMode,
            0x6A => Command::SetLedRgb,
            0xA0 => Command::SetBasicOut,
            0xA1 => Command::GetBasicIn,
            _ => Command::Unknown(b),
        }
    }
}

/// Law: every known command survives the trip through its opcode.
pub proof fn lemma_known_command_round_trip(c: Command)
    requires
        !(c matches Command::Unknown(_)),
    ensures
        command_of(opcode_of(c)) == c,
{
}

/// Law: every opcode byte survives the trip through its command.
pub proof fn lemma_opcode_round_trip(b: u8)
    ensures
        opcode_of(command_of(b)) == b,
{
}

} // verus!
