//! Export documentation sites to Markdown: site detection, link discovery,
//! crawl and export planning, duplicate detection, bundling, and Markdown
//! normalization. Network, file system and browser access stay with the
//! caller, which drives the crawl and page-export state machines.
use vstd::prelude::*;

pub mod client;
pub mod crawl;
pub mod error;
pub mod export;
pub mod extractors;
pub mod html;
pub mod matching;
pub mod normalize;
pub mod page_export;
pub mod sorting;
pub mod text;
pub mod types;
pub mod urls;

pub use error::DocsiteError;
pub use types::{
    BrowserOptions, BundleOptions, CrawlManifest, CrawlOptions, ExportOptions, ExportResult,
    ExportedPage, FetchResult, Framework, PageError, PageRef, SiteProfile, SourceFormat,
};

verus! {

} // verus!
