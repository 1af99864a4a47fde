//! Persistence and consistency layer of a social blogging service.
//!
//! The five relations of the service (users, articles, comments, favorites
//! and follows) are held in a [`database::Db`] value. Every store operation is
//! a function on that value whose contract is stated over its mathematical
//! view, and every operation keeps the relations consistent: identities and
//! slugs stay unique, relationship rows refer to rows that exist, and the
//! favorite counter of an article equals the number of its favorite rows.

pub mod config;
pub mod database;
pub mod models;
