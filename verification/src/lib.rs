//! Conventional commits, semantic versions and changelogs.
//!
//! The library takes the commits of a repository as plain values and does
//! four things with them, each a function of its input alone:
//!
//! - [`parser`] reads a commit message against the grammar
//!   `type(scope)!: description` and gives a record or the reason why the
//!   message breaks the grammar ([`header`] writes such a message);
//! - [`filter`] chooses records by type, scope, author and breaking mark;
//! - [`version`] derives the next semantic version from a set of records
//!   ([`semver`] reads a version from its text, [`precedence`] orders versions);
//! - [`changelog`], [`arrange`] and [`render`] group records into the
//!   document of a changelog, put it in order and write it out with a
//!   template ([`template`], [`syntax`]).
//!
//! Every executable function carries a contract over the mathematical views
//! of its arguments, and the laws that relate several functions are proved
//! beside them. The library does no input or output and keeps no state.

pub mod text;
pub mod commit;
pub mod version;
pub mod parser;
pub mod header;
pub mod filter;
pub mod order;
pub mod config;
pub mod changelog;
pub mod template;
pub mod render;
pub mod syntax;
pub mod arrange;
pub mod semver;
pub mod precedence;
