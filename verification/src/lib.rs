//! PSLinkB library: the decision logic, parsers and encoders of the PS5 to
//! Bilibili live streaming bridge.

pub mod biliapi;
pub mod cli;
pub mod cookie;
pub mod dns;
pub mod error;
pub mod helper;
pub mod ip;
pub mod live;
pub mod log;
pub mod login;
pub mod luci;
pub mod monitor;
pub mod packet;
pub mod params;
pub mod relay;
pub mod restart;
pub mod text;
pub mod ubus;
