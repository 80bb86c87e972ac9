//! What the index page shows: the shortener's domain, where its assets live, and an
//! optional message.

use vstd::prelude::*;
use crate::configuration::Configuration;

verus! {

/// A titled message on the index page.
pub struct Message {
    pub title: String,
    pub body: String,
}

/// A message that hands out a short link, or one that reports an error.
pub enum MessageKind {
    Link(Message),
    Error(Message),
}

/// The values the index page is rendered from.
pub struct Index {
    pub vanity_domain: String,
    pub assets_url: String,
    pub message: Option<MessageKind>,
}

impl Index {
    /// The index page of the shortener with the given message, if any.
    pub fn new(message: Option<MessageKind>, config: &Configuration) -> (index: Index)
        ensures
            index.vanity_domain@ == config.spec_vanity_domain(),
            index.assets_url@ == config.spec_assets_url(),
            index.message == message,
    {
        Index {
            vanity_domain: config.vanity_domain().to_owned(),
            assets_url: config.assets_url().to_owned(),
            message,
        }
    }

    /// The index page without a message.
    pub fn blank(config: &Configuration) -> (index: Index)
        ensures
            index.vanity_domain@ == config.spec_vanity_domain(),
            index.assets_url@ == config.spec_assets_url(),
            index.message is None,
    {
        Index::new(None, config)
    }
}

} // verus!
