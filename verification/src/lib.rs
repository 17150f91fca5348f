//! Makes an EPUB book of a kemono creator's posts: reading the creator out of
//! a profile address, deciding how to page through the posts, asking how to
//! title the book, rewriting the posts' images, and laying out the book's
//! documents and archive entries. Fetching, reading the terminal and writing
//! the archive are left to the caller.

pub mod text;
pub mod epub;

pub use epub::{Creator, Post, EpubRequest, Title, match_title, custom_title_replace};
pub use epub::simple_xml_builder::XMLElement;
