pub mod text;
pub mod table;
pub mod clock;
pub mod store;
pub mod paths;
pub mod search;
pub mod filter;
pub mod fmt;
pub mod icons;
pub mod layout;
pub mod jump;
pub mod entries;
pub mod explorer;
pub mod explorer_keys;
pub mod actions;
pub mod chrome;
pub mod cli;
pub mod preview;
pub mod scan;
pub mod media;
