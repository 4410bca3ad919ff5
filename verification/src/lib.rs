//! Finds the packages of a registry index that depend on a target package,
//! plans which of them still have to be fetched, drives the throttled
//! fetch-and-unpack run, and renders the nested progress lines.

pub mod cli;
pub mod dialog;
pub mod disp;
pub mod fetch;
pub mod plan;
pub mod registry;
pub mod report;
pub mod style;
pub mod template;
pub mod text;
