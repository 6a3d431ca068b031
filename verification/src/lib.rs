//! Verified core of a client library for AxonServer, an event store and
//! message router for event-sourced CQRS applications.

pub mod messages;
pub mod text_map;
pub mod ids;
pub mod flow_control;
pub mod command_submit;
pub mod clock;
pub mod command_worker;
pub mod aggregate;
pub mod projection_cache;
pub mod handler_registry;
pub mod workers;
pub mod event_processor;
pub mod query_submit;
pub mod connection;
pub mod tracking_token;
pub mod query_models;
pub mod auth;
pub mod replica;
