//! The command that travels through the queues, and the codec's errors.

use vstd::prelude::*;

verus! {

/// Most channel bytes that one packet carries.
pub const MAX_PAYLOAD: usize = 512;

/// Highest universe that a packet can address: the port address has 15 bits.
pub const MAX_UNIVERSE: u16 = 32767;

/// A lighting command as the application sees it.
#[derive(Debug, PartialEq, Eq)]
pub enum Command {
    /// One frame of channel intensities for one universe.
    Output { universe: u16, channel_data: Vec<u8> },
}

/// What a [`Command`] stands for in contracts.
pub enum CommandModel {
    Output { universe: u16, channel_data: Seq<u8> },
}

impl View for Command {
    type V = CommandModel;

    open spec fn view(&self) -> CommandModel {
        match *self {
            Command::Output { universe, channel_data } => CommandModel::Output {
                universe,
                channel_data: channel_data@,
            },
        }
    }
}

/// What a list of commands stands for in contracts.
pub open spec fn models(commands: Seq<Command>) -> Seq<CommandModel> {
    commands.map_values(|command: Command| command@)
}

impl CommandModel {
    /// The universe that the command addresses.
    pub open spec fn universe(self) -> u16 {
        match self {
            CommandModel::Output { universe, .. } => universe,
        }
    }

    /// The channel intensities that the command carries.
    pub open spec fn channel_data(self) -> Seq<u8> {
        match self {
            CommandModel::Output { channel_data, .. } => channel_data,
        }
    }

    /// The payload fits into one packet.
    pub open spec fn fits(self) -> bool {
        self.channel_data().len() <= MAX_PAYLOAD
    }
}

impl Clone for Command {
    fn clone(&self) -> (copy: Self)
        ensures
            copy@ == self@,
    {
        match self {
            Command::Output { universe, channel_data } => {
                let data = channel_data.clone();
                assert(data@ =~= channel_data@);
                Command::Output { universe: *universe, channel_data: data }
            },
        }
    }
}

impl Command {
    /// A frame of `channel_data` for `universe`.
    pub fn output(universe: u16, channel_data: Vec<u8>) -> (command: Command)
        ensures
            command@ == (CommandModel::Output { universe, channel_data: channel_data@ }),
    {
        Command::Output { universe, channel_data }
    }

    /// The universe that the command addresses.
    pub fn universe(&self) -> (universe: u16)
        ensures
            universe == self@.universe(),
    {
        match self {
            Command::Output { universe, .. } => *universe,
        }
    }

    /// The channel intensities that the command carries.
    pub fn channel_data(&self) -> (data: &Vec<u8>)
        ensures
            data@ == self@.channel_data(),
    {
        match self {
            Command::Output { channel_data, .. } => channel_data,
        }
    }

    /// Whether the payload fits into one packet.
    pub fn fits(&self) -> (fits: bool)
        ensures
            fits == self@.fits(),
    {
        self.channel_data().len() <= MAX_PAYLOAD
    }
}

/// Why a command has no frame.
#[derive(Clone, Copy, Debug, PartialEq, Eq, Structural)]
pub enum EncodeError {
    /// More than [`MAX_PAYLOAD`] channel bytes.
    PayloadTooLarge,
    /// A universe above [`MAX_UNIVERSE`].
    UniverseOutOfRange,
}

/// Why a datagram is no command.
#[derive(Clone, Copy, Debug, PartialEq, Eq, Structural)]
pub enum DecodeError {
    /// The datagram ends before the header, or before the data that its
    /// length field announces.
    Truncated,
    /// The first eight bytes are not the protocol's identifier.
    BadMagic,
    /// An opcode other than that of an output packet.
    UnknownOpcode(u16),
    /// A protocol version other than 14.
    BadVersion,
    /// A port address above [`MAX_UNIVERSE`].
    UniverseOutOfRange,
    /// A length field above [`MAX_PAYLOAD`].
    LengthOutOfRange,
}

} // verus!
