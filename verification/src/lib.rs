//! Aggregation and chart composition for a portfolio of source-code
//! repositories.
//!
//! Repository records are folded into a per-language size summary and into
//! commit totals, ranked, cut to a configured length, annotated with their
//! share of the whole, and laid out as a multi-panel SVG chart.

pub mod activity;
pub mod aggregate;
pub mod chart;
pub mod color;
pub mod config;
pub mod convert;
pub mod entries;
pub mod generated;
pub mod graphql;
pub mod markup;
pub mod names;
pub mod panel;
pub mod publish;
pub mod ranking;
pub mod renderer;
pub mod share;
pub mod text;
pub mod validate;

use vstd::prelude::*;

verus! {

/// What can go wrong between asking for the statistics and writing the
/// chart.
#[derive(Debug, Clone, Copy, PartialEq, Eq, Structural)]
pub enum AppError {
    /// A request could not be sent.
    RequestError,
    /// The answer to a request could not be read.
    ResponseError,
    /// The client for the GraphQL API could not be set up.
    GraphQLClientInitError,
    /// The GraphQL query could not be sent.
    GraphQLRequestError,
    /// The answer to the GraphQL query could not be read.
    GraphQLResponseError,
    /// The answer to the GraphQL query is not the JSON that was expected.
    JsonDeserializeError,
    /// A value could not be converted: a part of it is missing or out of
    /// range.
    ConvertError,
    /// The chart could not be drawn: there is something to show and no
    /// total to measure it against.
    SvgOutputError,
}

} // verus!
