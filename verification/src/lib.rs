//! A small cluster, described once: the model of its fleet, network, image and
//! policy, the checks that hold the model to itself, and every artifact that is
//! rendered from it.
//!
//! [`cluster`], [`network`], [`images`] and [`policy`] are the model's parts,
//! and [`model`] joins them. [`check`] says what is wrong with a model, and
//! what a model that passes guarantees. [`render`] turns one into the files the
//! nodes run on. [`rollout`], [`drain`] and [`updater`] decide what a node does
//! with a new image, [`agent`] what happens to a session on it, and [`web`] what
//! the page says of both. [`registry`] and [`tasks`] keep the claims, the
//! committed tree and the repository in step.
pub mod address;
pub mod agent;
pub mod check;
pub mod cluster;
pub mod drain;
pub mod images;
pub mod lists;
pub mod model;
pub mod named;
pub mod network;
pub mod order;
pub mod policy;
pub mod registry;
pub mod render;
pub mod rollout;
pub mod tasks;
pub mod text;
pub mod updater;
pub mod web;
