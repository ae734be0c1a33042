//! A publish/subscribe relay core: the wire grammar spoken between clients and
//! the broker, the subscriber registry, and the dispatcher that fans published
//! messages out to subscribers under the quality-of-service policy.

pub mod broker;
pub mod channel;
pub mod client;
pub mod dispatch;
pub mod laws;
pub mod registry;
pub mod text;
