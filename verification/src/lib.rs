//! Verified core of a market-quote tray poller: settings normalization,
//! credential failover, backoff policy, proxy resolution, quote request
//! construction and response interpretation, and the display-selection
//! state machine.
pub mod backoff;
pub mod display;
pub mod error;
pub mod failover;
pub mod jsonio;
pub mod logging;
pub mod market;
pub mod num;
pub mod poll;
pub mod price;
pub mod proxy;
pub mod quote;
pub mod settings;
pub mod text;
