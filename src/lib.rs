//! A local-first productivity store: workspaces, projects, tasks, ideas and
//! documents, with cross links, document version history, attachments and
//! search, all held in one verified in-memory store value.

pub mod outside;
pub mod error;
pub mod state;
pub mod order;
pub mod search;
pub mod projects;
pub mod tasks;
pub mod ideas;
pub mod docs;
pub mod metrics;
pub mod laws;
