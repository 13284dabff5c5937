//! Reports on structured invoices.
//!
//! An invoice arrives as XML. A walk over the document delivers its
//! structural events in document order ([`walker`], [`event`]). A builder
//! follows the events, keeps the path of open elements, and notes a line for
//! every attribute and every text that the catalogue of business terms knows
//! ([`catalogue`], [`report`]). The lines are rendered as an HTML page
//! ([`render`]). [`pipeline`] puts the three together, and [`service`] holds
//! the decisions of a conversion request that has such a page, or an
//! uploaded document, rendered to PDF.
//!
//! The behaviour of every function is stated over mathematical models of its
//! data (sequences of characters, of events, of lines) and proved against
//! them. The parsing itself is quick-xml's and is trusted: see [`walker`].

pub mod catalogue;
pub mod error;
pub mod event;
pub mod pipeline;
pub mod render;
pub mod report;
pub mod service;
pub mod text;
pub mod walker;
