//! A codec for the text frames of a two-layer real-time messaging protocol:
//! transport frames that carry namespaced application messages.

pub mod error;
pub mod handshake_model;
pub mod laws;
pub mod my_socket_io_message;
pub mod my_socket_io_text_payload;
pub mod payload_deserializer;
pub mod payload_serializer;
pub mod socket_id_data_serializer;
pub mod socket_io_contract;
pub mod socket_io_data;
pub mod socket_io_message;
pub mod socket_io_protocol;
pub mod socket_io_settings;
pub mod text;

pub use error::SocketIoError;
pub use handshake_model::{
    compile_connect_payload, compile_negotiate_response, SocketIoHandshakeOpenModel,
};
pub use my_socket_io_message::{GrandAccessData, MySocketIoMessage};
pub use my_socket_io_text_payload::MySocketIoTextPayload;
pub use payload_deserializer::{deserialize_data, deserialize_event_data, SocketIoPayloadData};
pub use payload_serializer::{serialize_data, serialize_event_data, SocketIoPayload};
pub use socket_id_data_serializer::{SocketIoDataSerializer, SocketIoDataValue};
pub use socket_io_contract::SocketIoWsContract;
pub use socket_io_data::SocketIoEventParameter;
pub use socket_io_message::SocketIoMessage;
pub use socket_io_protocol::SocketIoProtocol;
pub use socket_io_settings::SocketIoSettings;
