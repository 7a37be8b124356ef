//! Core rules of the NodeCask forum: pagination, text helpers, posting rules,
//! account rules, moderation decisions and configuration defaults.
use vstd::prelude::*;

pub mod account;
pub mod admin;
pub mod auth;
pub mod common;
pub mod files;
pub mod labels;
pub mod linkfilter;
pub mod markdown;
pub mod links;
pub mod mention;
pub mod moderate;
pub mod node;
pub mod notify;
pub mod pages;
pub mod pagination;
pub mod rewards;
pub mod system;
pub mod text;
pub mod topic;

pub mod wizard;
