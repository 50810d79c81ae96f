//! App Pro: installing, removing, watching and cleaning on a Linux desktop.
//!
//! Each module states what it computes as specifications over sequences and
//! maps and proves its functions against them; running commands and touching
//! files is left to the caller, who hands in what came of it.
pub mod text;
pub mod paths;
pub mod system;
pub mod records;
pub mod locations;
pub mod dashboard;
pub mod db;
pub mod installer;
pub mod launcher;
pub mod manager;
pub mod appearance;
pub mod cleaner;
pub mod cli;
pub mod sysinfo;
pub mod update_panel;
pub mod updater;
