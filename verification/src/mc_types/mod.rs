pub mod ext;
pub mod fixed;
pub mod identifier;
pub mod string;
pub mod structured;
pub mod uuid;
pub mod varint;

pub use fixed::{Int, Long, MinecraftType, Short, UnsignedShort};
pub use identifier::McIdentifier;
pub use string::{McString, McStringError};
pub use uuid::McUUID;
pub use varint::{VarInt, VarIntError};
