//! A crawl-state machine for hidden-service sites: URL admission, outcome
//! bookkeeping, link extraction and the depth-first traversal order.
//!
//! The library does no I/O. A caller drives a [`Crawler`]: it sees a seed
//! with [`Crawler::crawl`], fetches what it is told to fetch, reports the
//! status with [`Crawler::answered`] and the outcome with
//! [`Crawler::parse`], and asks for the next pending link with
//! [`Crawler::next`] until nothing is left.
//!
//! [`address`] and [`classifier`] judge a URL, [`links`] reads the links of
//! a page, [`model`] states each transition over mathematical values,
//! [`session`] strings transitions together, and [`laws`] proves what
//! holds of every session.

pub mod address;
pub mod classifier;
pub mod crawler;
pub mod fetch;
pub mod laws;
pub mod links;
pub mod model;
pub mod session;
pub mod site_list;
pub mod text;
pub mod verdict;

pub use crate::crawler::{Crawler, Step};
pub use crate::fetch::FetchOutcome;
pub use crate::site_list::SiteList;
pub use crate::verdict::{AdmissionVerdict, RejectReason};
