//! Clients of the services that the test harness provides.

pub mod key_value;
