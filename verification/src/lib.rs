//! Core of a multi-tenant document search service: named collections of
//! documents, each backed by an on-disk index of the tantivy engine, with a
//! registry that maps collection names to live handles, a shared/exclusive
//! writer discipline per handle, and a bitset-based permission model.

pub mod access_control;
pub mod auth;
pub mod authz;
pub mod config;
pub mod dto;
pub mod engine;
pub mod error;
pub mod index;
pub mod index_config;
pub mod index_manager;
pub mod name;
pub mod permissions;
pub mod permissions_storage;
pub mod privileges;
pub mod query;
pub mod shared;
pub mod strmap;
