pub mod model;
pub mod tree;
pub mod listing;
pub mod search;
pub mod logs;
pub mod report;
pub mod viewer;
