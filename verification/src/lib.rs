//! Sprint velocity of a team whose backlog is a board of cards: story points read from card
//! titles, their sum per list, and the ledger of finished sprints.
pub mod cli;
pub mod configuration;
pub mod ledger;
pub mod points;
pub mod recorder;
pub mod report;
pub mod store;
pub mod text;
