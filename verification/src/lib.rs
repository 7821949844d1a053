//! Feature-driven scaffolding of a project tree from a template.
//!
//! A template is a tree of files. A project is made from it in one pass:
//! the features that are switched off decide which paths are left out
//! ([`features`]), what is left is copied with the project's name in place
//! of the placeholder ([`template`]), the manifest of the copy loses the
//! entries of those features ([`manifest`]), and an application either loses
//! the session provider of its root layout ([`layout`]) or gains an
//! environment file with a fresh secret ([`secret`]). [`scaffold`] puts the
//! steps together for an application and for a library, [`fullstack`] for a
//! project with a front end and a server, and [`next_app`] for the Next.js
//! template, whose manifest gains entries instead of losing them.
//!
//! Everything here works on values in memory: trees are lists of entries,
//! files are bytes. Reading a template from disk and writing a project to
//! it is left to the caller.

pub mod cli;
pub mod features;
pub mod fullstack;
pub mod layout;
pub mod manifest;
pub mod next_app;
pub mod runner;
pub mod scaffold;
pub mod secret;
pub mod template;
pub mod text;
pub mod ui;
