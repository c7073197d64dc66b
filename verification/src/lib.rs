//! Shows the quota of a Codex account, or the balance of the relay that CCSwitch has selected, on the
//! dot matrix of a DP-104 keyboard.
//!
//! The library holds what the tool decides and computes: the limits and balances that it reads, the
//! samples of consumption, when the keyboard is written to, the frame and the reports that are sent,
//! and the installation. Files, processes, the network, the registry and the window are outside.

pub mod ccswitch;
pub mod clock;
pub mod codex;
pub mod consumption;
pub mod deploy;
pub mod double;
pub mod json;
pub mod keyboard;
pub mod quota;
pub mod service;
pub mod text;
pub mod window;
