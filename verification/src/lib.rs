//! The core of a static site generator: it turns the posts of a blog into
//! the description of every page of the site.
//!
//! * [`url`] and [`normalize_url`] resolve the links of a post: a link to
//!   the source of another post becomes a link to that post's page.
//! * [`markdown`] and [`htmlrenderer`] convert the events of a markdown
//!   document for a post and render them to HTML.
//! * [`tag`], [`post`], [`parser`] and [`order`] make posts from what was
//!   read of their sources, and sort them, the newest first.
//! * [`write`] groups the posts by tag, cuts each group into index pages
//!   that are linked to each other, and describes every file to write.
//! * [`feed`] and [`config`] make the feed and the settings of a site.
//!
//! Nothing here touches a file: reading sources and writing pages is left
//! to the program around this library, which hands over what it has read
//! and gets back what there is to write.
//!
//! Every function is verified against its contract. The contracts speak
//! of texts as sequences of characters. A few functions of other crates
//! are called through small functions whose contracts are taken on trust;
//! each says in its documentation which function it calls. Where the
//! result of such a function cannot be stated in a few lines, it has a
//! name ([`url::parsed`], [`url::joined`], [`url::relative`],
//! [`htmlrenderer::href_escaped`], [`feed::parsed_date`]), and the
//! contracts say what is made of it.

pub mod config;
pub mod feed;
pub mod htmlrenderer;
pub mod markdown;
pub mod normalize_url;
pub mod order;
pub mod page;
pub mod parser;
pub mod post;
pub mod slice;
pub mod tag;
pub mod text;
pub mod url;
pub mod value;
pub mod write;
