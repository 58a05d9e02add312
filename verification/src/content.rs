//! The payloads that travel between machines and the envelope that carries
//! them.

use vstd::prelude::*;

verus! {

/// One clipboard value that can be synchronised.
#[derive(Debug, PartialEq, Eq)]
pub enum ClipboardContent {
    /// Plain text.
    Text(String),
    /// A PNG image, base64 encoded, with the pixel dimensions it decodes to.
    Image { data: String, width: u32, height: u32 },
    /// An HTML fragment with its mandatory plain-text fallback.
    Html { html: String, text: String },
}

/// Mathematical model of a [`ClipboardContent`].
pub enum ContentView {
    Text(Seq<char>),
    Image { data: Seq<char>, width: u32, height: u32 },
    Html { html: Seq<char>, text: Seq<char> },
}

impl View for ClipboardContent {
    type V = ContentView;

    open spec fn view(&self) -> ContentView {
        match *self {
            ClipboardContent::Text(text) => ContentView::Text(text@),
            ClipboardContent::Image { data, width, height } => ContentView::Image {
                data: data@,
                width,
                height,
            },
            ClipboardContent::Html { html, text } => ContentView::Html { html: html@, text: text@ },
        }
    }
}

impl Clone for ClipboardContent {
    fn clone(&self) -> (copy: Self)
        ensures
            copy == *self,
    {
        match self {
            ClipboardContent::Text(text) => ClipboardContent::Text(text.clone()),
            ClipboardContent::Image { data, width, height } => ClipboardContent::Image {
                data: data.clone(),
                width: *width,
                height: *height,
            },
            ClipboardContent::Html { html, text } => ClipboardContent::Html {
                html: html.clone(),
                text: text.clone(),
            },
        }
    }
}

/// A content value on the wire: stamped with the time it was sent and, when
/// a client produced it, that client's identity.
#[derive(Debug, PartialEq, Eq)]
pub struct ClipboardMessage {
    pub content: ClipboardContent,
    /// Seconds since the Unix epoch.
    pub timestamp: u64,
    /// Identity of the producing client; `None` for the relay's own clipboard.
    pub client_id: Option<String>,
}

/// Mathematical model of a [`ClipboardMessage`].
pub struct MessageView {
    pub content: ContentView,
    pub timestamp: u64,
    pub client_id: Option<Seq<char>>,
}

impl View for ClipboardMessage {
    type V = MessageView;

    open spec fn view(&self) -> MessageView {
        MessageView {
            content: self.content@,
            timestamp: self.timestamp,
            client_id: match self.client_id {
                Some(id) => Some(id@),
                None => None,
            },
        }
    }
}

impl Clone for ClipboardMessage {
    fn clone(&self) -> (copy: Self)
        ensures
            copy == *self,
    {
        let client_id = match &self.client_id {
            Some(id) => Some(id.clone()),
            None => None,
        };
        ClipboardMessage { content: self.content.clone(), timestamp: self.timestamp, client_id }
    }
}

} // verus!
