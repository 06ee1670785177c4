use vstd::prelude::*;

verus! {

/// The phase of a connection. It decides what a packet ID means.
#[derive(Debug, Clone, Copy, PartialEq, Eq, Structural)]
pub enum SocketMode {
    Handshaking,
    Status,
    Login,
    Play,
}

/// The packets that a client sends while handshaking.
#[derive(Debug, Clone, Copy, PartialEq, Eq, Structural)]
pub enum HandshakingPacket {
    Handshaking,
}

/// The packets that a client sends while logging in.
#[derive(Debug, Clone, Copy, PartialEq, Eq, Structural)]
pub enum LoginPacket {
    LoginStart,
    EncryptionResponse,
    LoginPluginResponse,
}

/// The packets that the server sends while a client logs in.
#[derive(Debug, Clone, Copy, PartialEq, Eq, Structural)]
pub enum LoginPacketOut {
    Disconnect,
    EncryptionRequest,
    LoginSuccess,
}

/// The game mode of a player.
#[derive(Debug, Clone, Copy, PartialEq, Eq, Structural)]
pub enum GameMode {
    NoPreviousGameMode,
    Survival,
    Creative,
    Adventure,
    Spectator,
}

impl HandshakingPacket {
    /// The packet ID on the wire.
    pub open spec fn id(self) -> u8 {
        0x00
    }

    /// The packet with the given ID, if the phase has one.
    pub fn from_u8(id: u8) -> (packet: Option<HandshakingPacket>)
        ensures
            packet matches Some(p) ==> p.id() == id,
            packet is None ==> forall|p: HandshakingPacket| p.id() != id,
    {
        if id == 0x00 {
            Some(HandshakingPacket::Handshaking)
        } else {
            None
        }
    }
}

impl LoginPacket {
    /// The packet ID on the wire.
    pub open spec fn id(self) -> u8 {
        match self {
            LoginPacket::LoginStart => 0x00,
            LoginPacket::EncryptionResponse => 0x01,
            LoginPacket::LoginPluginResponse => 0x02,
        }
    }

    /// The packet with the given ID, if the phase has one.
    pub fn from_u8(id: u8) -> (packet: Option<LoginPacket>)
        ensures
            packet matches Some(p) ==> p.id() == id,
            packet is None ==> forall|p: LoginPacket| p.id() != id,
    {
        if id == 0x00 {
            Some(LoginPacket::LoginStart)
        } else if id == 0x01 {
            Some(LoginPacket::EncryptionResponse)
        } else if id == 0x02 {
            Some(LoginPacket::LoginPluginResponse)
        } else {
            None
        }
    }
}

impl LoginPacketOut {
    /// The packet ID on the wire.
    pub open spec fn id(self) -> u8 {
        match self {
            LoginPacketOut::Disconnect => 0x00,
            LoginPacketOut::EncryptionRequest => 0x01,
            LoginPacketOut::LoginSuccess => 0x02,
        }
    }

    /// The packet ID as an unsigned byte. Every packet has one.
    pub fn to_u8(&self) -> (id: Option<u8>)
        ensures
            id == Some(self.id()),
    {
        match self {
            LoginPacketOut::Disconnect => Some(0x00),
            LoginPacketOut::EncryptionRequest => Some(0x01),
            LoginPacketOut::LoginSuccess => Some(0x02),
        }
    }
}

impl GameMode {
    /// The number of the mode: `-1` where there was no earlier mode.
    pub open spec fn number(self) -> int {
        match self {
            GameMode::NoPreviousGameMode => -1,
            GameMode::Survival => 0,
            GameMode::Creative => 1,
            GameMode::Adventure => 2,
            GameMode::Spectator => 3,
        }
    }

    /// The number of the mode as an unsigned byte, where it is not negative.
    pub fn to_u8(&self) -> (n: Option<u8>)
        ensures
            self.number() >= 0 ==> n == Some(self.number() as u8),
            self.number() < 0 ==> n is None,
    {
        match self {
            GameMode::NoPreviousGameMode => None,
            GameMode::Survival => Some(0),
            GameMode::Creative => Some(1),
            GameMode::Adventure => Some(2),
            GameMode::Spectator => Some(3),
        }
    }

    /// The number of the mode as a signed byte.
    pub fn to_i8(&self) -> (n: Option<i8>)
        ensures
            n == Some(self.number() as i8),
    {
        match self {
            GameMode::NoPreviousGameMode => Some(-1),
            GameMode::Survival => Some(0),
            GameMode::Creative => Some(1),
            GameMode::Adventure => Some(2),
            GameMode::Spectator => Some(3),
        }
    }
}

} // verus!
