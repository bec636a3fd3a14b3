//! A desktop client's connection to the AI Pass service: authorization with a proof key, tokens
//! that are kept and renewed, the list of models, and chats that are relayed to a consumer.
pub mod address;
pub mod ask;
pub mod callback;
pub mod chat;
pub mod clear;
pub mod clock;
pub mod connect;
pub mod disconnect;
pub mod encoding;
pub mod error;
pub mod failure;
pub mod form;
pub mod json;
pub mod limits;
pub mod metadata;
pub mod models;
pub mod profile;
pub mod renew;
pub mod secrets;
pub mod text;
pub mod tokens;
pub mod transfer;
