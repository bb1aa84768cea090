//! The browser plugin. Opening a link from inside a page must open a new
//! tab on the next frame, so the plugin keeps a queue of requested URLs:
//! pages push into it and the frame loop drains it in order.

pub mod webview;
pub mod widgets;

use vstd::prelude::*;

verus! {

/// The browser plugin: the URLs whose tabs are still to be opened, oldest
/// first.
#[derive(Clone, Debug)]
pub struct BrowserPlugin {
    pub pending_urls: Vec<String>,
}

impl BrowserPlugin {
    pub fn new() -> (r: BrowserPlugin)
        ensures
            r.pending_urls@.len() == 0,
    {
        BrowserPlugin { pending_urls: Vec::new() }
    }

    /// Queue a URL so the next frame opens a tab for it.
    pub fn request_tab(&mut self, url: String)
        ensures
            final(self).pending_urls@ == old(self).pending_urls@.push(url),
    {
        self.pending_urls.push(url);
    }

    /// All queued URLs in request order; the queue empties.
    pub fn take_pending(&mut self) -> (r: Vec<String>)
        ensures
            r@ == old(self).pending_urls@,
            final(self).pending_urls@.len() == 0,
    {
        self.pending_urls.split_off(0)
    }
}

pub fn create() -> (r: BrowserPlugin)
    ensures
        r.pending_urls@.len() == 0,
{
    BrowserPlugin::new()
}

} // verus!
