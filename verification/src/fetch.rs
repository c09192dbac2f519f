//! Deciding where the audio to transcribe comes from: a video link the
//! user sent, or a file attached to the message.

use vstd::prelude::*;
use vstd::string::*;
use crate::text::{contains_text, has_substring};

verus! {

/// Shown when a message carries neither a usable file nor a link.
pub const MEDIA_HINT: &'static str = "Отправь мне гс/кружок/аудиофайл/видеофайл/ссылку на видео из VK/YouTube";

/// Shown when the text of a message is not a supported video link.
pub const NOT_A_LINK: &'static str = "это не похоже на ссылку";

/// Sent when the transcription server has been asked for a transcript.
pub const STARTED: &'static str = "Начал обработку";

/// The attachment of an incoming message, as far as transcription cares.
#[derive(Clone, Debug)]
pub enum MessageMedia {
    Video { file_id: String },
    Voice { file_id: String },
    Document { file_id: String },
    Audio { file_id: String },
    VideoNote { file_id: String },
    /// A common message with some other kind of content.
    Other,
    /// Not a common message at all (a service message, for instance).
    NotCommon,
}

/// The file that a message carries, if it carries one that can be
/// transcribed.
pub open spec fn media_file_id(media: MessageMedia) -> Option<Seq<char>> {
    match media {
        MessageMedia::Video { file_id } => Some(file_id@),
        MessageMedia::Voice { file_id } => Some(file_id@),
        MessageMedia::Document { file_id } => Some(file_id@),
        MessageMedia::Audio { file_id } => Some(file_id@),
        MessageMedia::VideoNote { file_id } => Some(file_id@),
        MessageMedia::Other => None,
        MessageMedia::NotCommon => None,
    }
}

/// The id of the file to download for `media`: videos, voice notes,
/// documents, audio and video notes have one; anything else has none.
pub fn file_id_of(media: &MessageMedia) -> (id: Option<String>)
    ensures
        match id {
            Some(x) => media_file_id(*media) == Some(x@),
            None => media_file_id(*media) is None,
        },
{
    match media {
        MessageMedia::Video { file_id } => Some(file_id.clone()),
        MessageMedia::Voice { file_id } => Some(file_id.clone()),
        MessageMedia::Document { file_id } => Some(file_id.clone()),
        MessageMedia::Audio { file_id } => Some(file_id.clone()),
        MessageMedia::VideoNote { file_id } => Some(file_id.clone()),
        MessageMedia::Other => None,
        MessageMedia::NotCommon => None,
    }
}

/// Links are accepted when they mention YouTube or VK.
pub open spec fn supported_url(url: Seq<char>) -> bool {
    has_substring(url, "youtube.com"@) || has_substring(url, "youtu.be"@) || has_substring(
        url,
        "vk.com"@,
    )
}

/// A link is accepted exactly when "youtube.com", "youtu.be" or "vk.com"
/// stands somewhere in it, whatever else it holds (Shorts, live streams,
/// embedded players, any path or query).
pub proof fn lemma_supported_links(url: Seq<char>)
    ensures
        supported_url(url) <==> (has_substring(url, "youtube.com"@) || has_substring(
            url,
            "youtu.be"@,
        ) || has_substring(url, "vk.com"@)),
{
}

/// Whether `url` looks like a YouTube or VK video link.
pub fn is_supported_url(url: &str) -> (b: bool)
    ensures
        b == supported_url(url@),
        b == (has_substring(url@, "youtube.com"@) || has_substring(url@, "youtu.be"@)
            || has_substring(url@, "vk.com"@)),
{
    contains_text(url, "youtube.com") || contains_text(url, "youtu.be") || contains_text(
        url,
        "vk.com",
    )
}

/// The transcription server's route for links, on the local machine.
pub fn url_tt_url(port: &str) -> (u: String)
    ensures
        u@ == "http://127.0.0.1:"@ + port@ + "/url_tt"@,
{
    let mut u = String::from_str("http://127.0.0.1:");
    u.append(port);
    u.append("/url_tt");
    u
}

/// The transcription server's route for uploaded files, on the local
/// machine.
pub fn file_tt_url(port: &str) -> (u: String)
    ensures
        u@ == "http://localhost:"@ + port@ + "/file_tt"@,
{
    let mut u = String::from_str("http://localhost:");
    u.append(port);
    u.append("/file_tt");
    u
}

/// What the user asked to transcribe.
#[derive(Clone, Debug)]
pub enum Source {
    /// The file attached to the message.
    File,
    /// The text of the message, taken as a video link.
    Link(String),
}

/// `Source` as a value of specifications.
pub enum SourceView {
    File,
    Link(Seq<char>),
}

impl View for Source {
    type V = SourceView;

    open spec fn view(&self) -> SourceView {
        match self {
            Source::File => SourceView::File,
            Source::Link(url) => SourceView::Link(url@),
        }
    }
}

/// What to fetch for a transcription.
#[derive(Clone, Debug)]
pub enum Fetch {
    /// Download the Telegram file with this id and upload it.
    File(String),
    /// Hand this video link to the server.
    Link(String),
}

/// Decides what to fetch for `source`, or, when there is nothing usable,
/// the reply that tells the user so.
pub fn fetch_plan(source: &Source, media: &MessageMedia) -> (plan: Result<Fetch, String>)
    ensures
        match source {
            Source::Link(url) => if supported_url(url@) {
                plan matches Ok(Fetch::Link(u)) && u@ == url@
            } else {
                plan matches Err(reply) && reply@ == NOT_A_LINK@
            },
            Source::File => match media_file_id(*media) {
                Some(id) => plan matches Ok(Fetch::File(f)) && f@ == id,
                None => plan matches Err(reply) && reply@ == MEDIA_HINT@,
            },
        },
{
    match source {
        Source::Link(url) => {
            if is_supported_url(url.as_str()) {
                Ok(Fetch::Link(url.clone()))
            } else {
                Err(String::from_str(NOT_A_LINK))
            }
        },
        Source::File => match file_id_of(media) {
            Some(id) => Ok(Fetch::File(id)),
            None => Err(String::from_str(MEDIA_HINT)),
        },
    }
}

} // verus!
