//! The rules of an authenticated LAN file transfer agent: wire paths, content
//! hashing, framing, handshakes, manifests, resumable uploads and job control.

pub mod agent;
pub mod api;
pub mod auth;
pub mod benchmark;
pub mod bytes;
pub mod compare;
pub mod completion;
pub mod connections;
pub mod dataset;
pub mod decisions;
pub mod devices;
pub mod digest;
pub mod discovery;
pub mod error;
pub mod events;
pub mod filesystem;
pub mod finish;
pub mod frame;
pub mod hashing;
pub mod identity;
pub mod ids;
pub mod incoming;
pub mod jobs;
pub mod lease;
pub mod manifest;
pub mod metadata;
pub mod model;
pub mod negotiate;
pub mod negotiation;
pub mod order;
pub mod outgoing;
pub mod partial;
pub mod path;
pub mod plan;
pub mod preparing;
pub mod protocol;
pub mod receiver;
pub mod reconcile;
pub mod records;
pub mod region;
pub mod rows;
pub mod runner;
pub mod scan;
pub mod schema;
pub mod serving;
pub mod session;
pub mod storage;
pub mod stream;
pub mod text;
pub mod transfer;
pub mod upload;
