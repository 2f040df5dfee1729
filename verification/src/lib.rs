//! Core of a wishlist price-tracking service: money parsing, storefront
//! clients that normalize heterogeneous price sources, an item repository
//! with append-only price history, a time-boxed refresh cache, and the
//! decision logic of the batch price updater.
#![allow(non_snake_case)]

pub mod cache;
pub mod clock;
pub mod config;
pub mod data;
pub mod error;
pub mod htmldoc;
pub mod jsonval;
pub mod middle;
pub mod store;
pub mod strutil;
pub mod utils;
pub mod web;

