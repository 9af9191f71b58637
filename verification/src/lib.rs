//! Verified core logic of the Ring knowledge-collaboration server.
pub mod error;
pub mod text;
pub mod upload;
pub mod search;
pub mod chat;
pub mod privacy_filter;
pub mod blueprint;
pub mod archive;
pub mod git_service;
pub mod skill;
pub mod workflow;
pub mod llm;
pub mod super_chat;
pub mod graph;
pub mod sync;
pub mod archive_flow;
pub mod encryption;
pub mod access;
pub mod session;
pub mod self_data;
pub mod gitlab;
pub mod memory;
pub mod group_work;
pub mod ws_hub;
