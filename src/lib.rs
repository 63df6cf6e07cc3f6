//! Counting of distinct text keys extracted from lines, ranking by a chosen order, and
//! rendering of the ranking with exact fixed-point shares of the total.
pub mod args;
pub mod command;
pub mod egg;
pub mod extract;
pub mod fixed;
pub mod input;
pub mod ordered;
pub mod orderedstring;
pub mod rank;
pub mod render;
pub mod report;
pub mod table;
pub mod text;
pub mod version;
