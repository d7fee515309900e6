//! Verified core of the Mutsuki runtime: the wire protocol and its binary and
//! JSON lines codecs, the agent runtime with its routing, election, events and
//! traces, and the QQBot adapters' payload rules and OpenAPI client.

pub mod abi;
pub mod agent;
pub mod binary;
pub mod election;
pub mod event;
pub mod failure;
pub mod bytes;
pub mod frame;
pub mod im_qqbot;
pub mod json;
pub mod jsonl;
pub mod msgpack;
pub mod operations;
pub mod plugin;
pub mod protocol;
pub mod qq_openapi;
pub mod qqbot;
pub mod redaction;
pub mod runtime;
pub mod schema;
pub mod text;
pub mod trace;
