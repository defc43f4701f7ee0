//! A typed invocation bridge: typed values are carried to and from a durable
//! execution engine that understands only opaque payloads and string task
//! identifiers. The codec serializes values, the bridge resolves identifiers
//! and demultiplexes engine resolutions, and the auth module holds the
//! business decisions of the sign-up and login flows.

pub mod auth;
pub mod bridge;
pub mod codec;
pub mod hashing;
