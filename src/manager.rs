//! The host side of the background media worker: requests go out on a bounded channel
//! without blocking, each under a fresh id, and answers come back on another.

use vstd::prelude::*;
use crate::index::{
    opt_view, row_matches, AnyRow, Link, MediaEntry, MediaFilter, Notification, PackIndex, Prompt,
};
use crate::types::MediaType;

verus! {

/// How many requests, and how many answers, the channels hold at most.
pub const CHANNEL_CAPACITY: usize = 20;

/// `async_channel::Sender`, the sending end of the request channel, carried opaquely.
#[verifier::external_type_specification]
#[verifier::external_body]
#[verifier::reject_recursive_types(T)]
pub struct ExSender<T>(async_channel::Sender<T>);

/// `async_channel::Receiver`, the receiving end of the answer channel, carried opaquely.
#[verifier::external_type_specification]
#[verifier::external_body]
#[verifier::reject_recursive_types(T)]
pub struct ExReceiver<T>(async_channel::Receiver<T>);

/// Events that wake the host's loop.
#[derive(Debug, Clone, Copy, PartialEq, Eq, Structural)]
pub enum UserEvent {
    /// An answer of the media worker is waiting.
    MediaResponse,
    /// The user asked for everything to stop.
    PanicButtonPressed,
}

/// What the host asks the worker for.
pub enum MediaRequest {
    /// A popup: an image only, or an image or video.
    RandomMedia { only_images: bool, tags: Option<Vec<String>> },
    RandomAudio { tags: Option<Vec<String>> },
    RandomNotification { tags: Option<Vec<String>> },
    RandomPrompt { tags: Option<Vec<String>> },
    RandomLink { tags: Option<Vec<String>> },
    RandomWallpaper { tags: Option<Vec<String>> },
}

/// A request under the id that the host gave it.
pub struct Request {
    pub id: u64,
    pub request: MediaRequest,
}

/// What the worker picked for a request.
pub enum Selection {
    Media(MediaEntry),
    Audio(MediaEntry),
    Notification(Notification),
    Prompt(Prompt),
    Link(Link),
    Wallpaper(MediaEntry),
}

/// The worker's answer to the request with the same id.
pub struct Response {
    pub id: u64,
    pub response: Selection,
}

/// The filter over media entries that a request draws from, where it draws from them.
pub open spec fn media_filter_of(r: MediaRequest) -> Option<MediaFilter> {
    match r {
        MediaRequest::RandomMedia { only_images, .. } => Some(
            if only_images {
                MediaFilter::OfType(MediaType::Image)
            } else {
                MediaFilter::Popup
            },
        ),
        MediaRequest::RandomAudio { .. } => Some(MediaFilter::OfType(MediaType::Audio)),
        MediaRequest::RandomWallpaper { .. } => Some(MediaFilter::Wallpaper),
        _ => None,
    }
}

pub open spec fn tags_of_request(r: MediaRequest) -> Option<Seq<String>> {
    match r {
        MediaRequest::RandomMedia { tags, .. } => opt_view(tags),
        MediaRequest::RandomAudio { tags } => opt_view(tags),
        MediaRequest::RandomNotification { tags } => opt_view(tags),
        MediaRequest::RandomPrompt { tags } => opt_view(tags),
        MediaRequest::RandomLink { tags } => opt_view(tags),
        MediaRequest::RandomWallpaper { tags } => opt_view(tags),
    }
}

/// Some row of the index answers the request.
pub open spec fn answerable(p: PackIndex, r: MediaRequest) -> bool {
    let tags = tags_of_request(r);
    match r {
        MediaRequest::RandomNotification { .. } => exists|i: int|
            0 <= i < p.notifications@.len() && row_matches(
                p.tags@,
                AnyRow,
                tags,
                #[trigger] p.notifications@[i],
            ),
        MediaRequest::RandomPrompt { .. } => exists|i: int|
            0 <= i < p.prompts@.len() && row_matches(p.tags@, AnyRow, tags, #[trigger] p.prompts@[i]),
        MediaRequest::RandomLink { .. } => exists|i: int|
            0 <= i < p.links@.len() && row_matches(p.tags@, AnyRow, tags, #[trigger] p.links@[i]),
        _ => exists|i: int|
            0 <= i < p.media@.len() && row_matches(
                p.tags@,
                media_filter_of(r)->0,
                tags,
                #[trigger] p.media@[i],
            ),
    }
}

/// The selection is of the kind the request asks for and comes from a row that
/// answers it.
pub open spec fn fits(p: PackIndex, r: MediaRequest, s: Selection) -> bool {
    let tags = tags_of_request(r);
    match (r, s) {
        (MediaRequest::RandomMedia { .. }, Selection::Media(e))
        | (MediaRequest::RandomAudio { .. }, Selection::Audio(e))
        | (MediaRequest::RandomWallpaper { .. }, Selection::Wallpaper(e)) => exists|i: int|
            0 <= i < p.media@.len() && row_matches(
                p.tags@,
                media_filter_of(r)->0,
                tags,
                #[trigger] p.media@[i],
            ) && p.media@[i].item == e,
        (MediaRequest::RandomNotification { .. }, Selection::Notification(n)) => exists|i: int|
            0 <= i < p.notifications@.len() && row_matches(
                p.tags@,
                AnyRow,
                tags,
                #[trigger] p.notifications@[i],
            ) && p.notifications@[i].item == n,
        (MediaRequest::RandomPrompt { .. }, Selection::Prompt(n)) => exists|i: int|
            0 <= i < p.prompts@.len() && row_matches(p.tags@, AnyRow, tags, #[trigger] p.prompts@[i])
                && p.prompts@[i].item == n,
        (MediaRequest::RandomLink { .. }, Selection::Link(n)) => exists|i: int|
            0 <= i < p.links@.len() && row_matches(p.tags@, AnyRow, tags, #[trigger] p.links@[i])
                && p.links@[i].item == n,
        _ => false,
    }
}

/// Serves one request from the index: an answer under the request's id exactly where
/// some row answers the request, drawn at random among those rows.
pub fn handle_request(pack: &PackIndex, request: Request) -> (r: Option<Response>)
    ensures
        r is Some <==> answerable(*pack, request.request),
        r matches Some(x) ==> x.id == request.id && fits(*pack, request.request, x.response),
{
    let id = request.id;
    let ghost req = request.request;
    let selection = match request.request {
        MediaRequest::RandomMedia { only_images, tags } => {
            if only_images {
                match pack.random_of_type(MediaType::Image, &tags) {
                    Some(e) => Some(Selection::Media(e)),
                    None => None,
                }
            } else {
                match pack.random_popup(&tags) {
                    Some(e) => Some(Selection::Media(e)),
                    None => None,
                }
            }
        },
        MediaRequest::RandomAudio { tags } => match pack.random_of_type(MediaType::Audio, &tags) {
            Some(e) => Some(Selection::Audio(e)),
            None => None,
        },
        MediaRequest::RandomNotification { tags } => match pack.random_notification(&tags) {
            Some(n) => Some(Selection::Notification(n)),
            None => None,
        },
        MediaRequest::RandomPrompt { tags } => match pack.random_prompt(&tags) {
            Some(n) => Some(Selection::Prompt(n)),
            None => None,
        },
        MediaRequest::RandomLink { tags } => match pack.random_link(&tags) {
            Some(n) => Some(Selection::Link(n)),
            None => None,
        },
        MediaRequest::RandomWallpaper { tags } => match pack.random_wallpaper(&tags) {
            Some(e) => Some(Selection::Wallpaper(e)),
            None => None,
        },
    };
    match selection {
        Some(s) => Some(Response { id, response: s }),
        None => None,
    }
}

/// The request that goes to the worker: the content asked for, under the given id.
pub fn request_for(id: u64, request: MediaRequest) -> (r: Request)
    ensures
        r.id == id,
        r.request == request,
{
    Request { id, request }
}

/// Relies on `async_channel::Sender::try_send`: whether the request was queued (it is
/// not where the channel is full or closed). Whether it is full depends on the worker.
#[verifier::external_body]
fn send_request(tx: &async_channel::Sender<Request>, request: Request) -> (r: bool) {
    tx.try_send(request).is_ok()
}

/// Relies on `async_channel::Receiver::try_recv`: a queued answer, if there is one.
#[verifier::external_body]
fn receive_answer<R>(rx: &async_channel::Receiver<R>) -> (r: Option<R>) {
    rx.try_recv().ok()
}

/// The host's handle on the media worker.
#[verifier::reject_recursive_types(R)]
pub struct MediaManager<R> {
    tx: async_channel::Sender<Request>,
    rx: async_channel::Receiver<R>,
    id: u64,
}

impl<R> MediaManager<R> {
    /// The id that the next accepted request gets.
    pub closed spec fn pending_id(&self) -> u64 {
        self.id
    }

    /// A manager over the request channel to a worker and the channel of its answers.
    pub fn new(tx: async_channel::Sender<Request>, rx: async_channel::Receiver<R>) -> (r: Self)
        ensures
            r.pending_id() == 0,
    {
        MediaManager { tx, rx, id: 0 }
    }

    /// The id that the next accepted request gets.
    pub fn next_id(&self) -> (r: u64)
        ensures
            r == self.pending_id(),
    {
        self.id
    }

    /// Queues a request without waiting. Accepted: its id is returned and the next id
    /// follows it (wrapping). Refused, because the channel is full or closed: `None`,
    /// and the id stays for the next attempt.
    fn try_send(&mut self, request: MediaRequest) -> (r: Option<u64>)
        ensures
            r matches Some(i) ==> i == old(self).pending_id() && final(self).pending_id()
                == old(self).pending_id().wrapping_add(1),
            r is None ==> final(self).pending_id() == old(self).pending_id(),
    {
        let id = self.id;
        if send_request(&self.tx, request_for(id, request)) {
            self.id = self.id.wrapping_add(1);
            Some(id)
        } else {
            None
        }
    }

    /// Asks for a popup (an image only, where `only_images`); see `try_send`.
    pub fn request_media(&mut self, tags: Option<Vec<String>>, only_images: bool) -> (r: Option<u64>)
        ensures
            r matches Some(i) ==> i == old(self).pending_id() && final(self).pending_id()
                == old(self).pending_id().wrapping_add(1),
            r is None ==> final(self).pending_id() == old(self).pending_id(),
    {
        self.try_send(MediaRequest::RandomMedia { only_images, tags })
    }

    /// Asks for an audio clip; see `try_send`.
    pub fn request_audio(&mut self, tags: Option<Vec<String>>) -> (r: Option<u64>)
        ensures
            r matches Some(i) ==> i == old(self).pending_id() && final(self).pending_id()
                == old(self).pending_id().wrapping_add(1),
            r is None ==> final(self).pending_id() == old(self).pending_id(),
    {
        self.try_send(MediaRequest::RandomAudio { tags })
    }

    /// Asks for a notification; see `try_send`.
    pub fn request_notification(&mut self, tags: Option<Vec<String>>) -> (r: Option<u64>)
        ensures
            r matches Some(i) ==> i == old(self).pending_id() && final(self).pending_id()
                == old(self).pending_id().wrapping_add(1),
            r is None ==> final(self).pending_id() == old(self).pending_id(),
    {
        self.try_send(MediaRequest::RandomNotification { tags })
    }

    /// Asks for a link; see `try_send`.
    pub fn request_link(&mut self, tags: Option<Vec<String>>) -> (r: Option<u64>)
        ensures
            r matches Some(i) ==> i == old(self).pending_id() && final(self).pending_id()
                == old(self).pending_id().wrapping_add(1),
            r is None ==> final(self).pending_id() == old(self).pending_id(),
    {
        self.try_send(MediaRequest::RandomLink { tags })
    }

    /// Asks for a prompt; see `try_send`.
    pub fn request_prompt(&mut self, tags: Option<Vec<String>>) -> (r: Option<u64>)
        ensures
            r matches Some(i) ==> i == old(self).pending_id() && final(self).pending_id()
                == old(self).pending_id().wrapping_add(1),
            r is None ==> final(self).pending_id() == old(self).pending_id(),
    {
        self.try_send(MediaRequest::RandomPrompt { tags })
    }

    /// Asks for a wallpaper; see `try_send`.
    pub fn request_wallpaper(&mut self, tags: Option<Vec<String>>) -> (r: Option<u64>)
        ensures
            r matches Some(i) ==> i == old(self).pending_id() && final(self).pending_id()
                == old(self).pending_id().wrapping_add(1),
            r is None ==> final(self).pending_id() == old(self).pending_id(),
    {
        self.try_send(MediaRequest::RandomWallpaper { tags })
    }

    /// An answer of the worker, if one is waiting.
    pub fn try_recv(&self) -> (r: Option<R>) {
        receive_answer(&self.rx)
    }
}

} // verus!
