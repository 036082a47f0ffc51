//! Decoding, deduplication and interpretation of VBus data: the three
//! protocol variants with their logical identity and order, time-stamped
//! sets of the latest value per identity, and a catalog-driven reading of
//! packet fields into values and text.
pub mod data;
pub mod data_set;
pub mod datagram;
pub mod decode;
pub mod format;
pub mod header;
pub mod packet;
pub mod search;
pub mod specification;
pub mod specification_file;
pub mod telegram;
pub mod text;
pub mod timestamp;

pub use data::Data;
pub use data_set::DataSet;
pub use datagram::Datagram;
pub use format::PacketFieldFormatter;
pub use header::Header;
pub use packet::Packet;
pub use decode::power_of_ten_i64;
pub use specification::{DataSetPacketField, DeviceSpec, PacketFieldSpec, PacketSpec, Specification};
pub use specification_file::{
    DeviceTemplate, Language, LocalizedText, PacketTemplate, PacketTemplateField,
    PacketTemplateFieldPart, SpecificationFile, Type, Unit, UnitFamily, UnitId,
};
pub use telegram::Telegram;
pub use timestamp::Timestamp;
