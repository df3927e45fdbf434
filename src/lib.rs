//! Feed windowing and comment-tree reconstruction for a terminal client of a
//! federated link aggregator.
pub mod action;
pub mod comment_path;
pub mod config;
pub mod comment_tree;
pub mod fetch_gate;
pub mod geometry;
pub mod listing;
pub mod listing_view;
pub mod page;
pub mod post;
