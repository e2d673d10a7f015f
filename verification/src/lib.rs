//! The content model and the ingestion pipeline of a multilingual blog.
//!
//! A post is one content file: a YAML header between lines of `---`, and a
//! markdown body. Loading a post reads the header into typed metadata
//! ([`front_matter`]), resolves its language, translation key and slug from the
//! file name and the header ([`resolve`]), and renders the body to HTML with a
//! table of contents and a reading time ([`render`], [`markdown`], [`anchor`],
//! [`words`]). The loader walks the content directory and builds the catalog,
//! the list of all posts ([`loader`]), and fills in the navigation links of
//! the series ([`series`]).
//!
//! The catalog is then only read: listings by creation time ([`query`]), one
//! post per translation key for a preferred language ([`dedup`]), the posts of
//! a series ([`series`]), where a post stands in its series ([`nav`]), the
//! summaries of the series ([`summary`]), search ([`search`]), the feed and the
//! sitemap ([`feed`]). [`request`], [`page`], [`site`], [`filters`] and
//! [`translations`] hold what the pages around the catalog need. [`walk`]
//! relates the steps of the loader to a walk of the content directory.
//!
//! Strings are modelled by their characters, `Seq<char>`; each data type has a
//! model type of that kind as its view, and the contracts speak of the models.

pub mod anchor;
pub mod dedup;
pub mod feed;
pub mod filters;
pub mod front_matter;
pub mod lang;
pub mod loader;
pub mod markdown;
pub mod nav;
pub mod page;
pub mod post;
pub mod query;
pub mod render;
pub mod request;
pub mod resolve;
pub mod scan;
pub mod search;
pub mod series;
pub mod site;
pub mod sort;
pub mod summary;
pub mod text;
pub mod translations;
pub mod walk;
pub mod words;
