//! The viewer's panels: their states and the logic behind them.

pub mod disasm;
pub mod hexdump;
pub mod info;
pub mod layout_map;
pub mod overview;
pub mod search;
pub mod strings;
pub mod tree;
