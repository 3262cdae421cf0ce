//! What the two remote operations make of a response body.
//!
//! Sending the request is the caller's part. A body that is not a well-formed document is
//! the one hard failure; whatever else is missing from it is simply not found.

use crate::crawl::{crawl, crawl_described, eq_of, identical, related, respects};
use crate::document::{json_tree, Document, DocumentView};
use crate::error::ApiError;
use crate::structs::{
    get_playlist, get_video, opt_playlist, opt_video, playlist_of, video_of, Playlist,
    PlaylistView, Video, VideoView,
};
use vstd::prelude::*;
use vstd::std_specs::cmp::PartialEqSpec;

verus! {

/// The values of some videos.
pub open spec fn video_views(videos: Seq<Video>) -> Seq<VideoView> {
    Seq::new(videos.len(), |i: int| videos[i]@)
}

/// The values of some playlists.
pub open spec fn playlist_views(playlists: Seq<Playlist>) -> Seq<PlaylistView> {
    Seq::new(playlists.len(), |i: int| playlists[i]@)
}

/// The items that a document shows: each once, in the order in which a crawl meets them.
pub open spec fn videos_in(tree: DocumentView) -> Seq<VideoView> {
    crawl(tree, |node: DocumentView| video_of(node), identical::<VideoView>(), Seq::empty())
}

/// The collections that a browse page shows: each once, in the order in which a crawl
/// meets them.
pub open spec fn playlists_in(tree: DocumentView) -> Seq<PlaylistView> {
    crawl(tree, |node: DocumentView| playlist_of(node), identical::<PlaylistView>(), Seq::empty())
}

/// The items of a document.
pub fn videos_of_document(document: &Document) -> (videos: Vec<Video>)
    ensures
        video_views(videos@) == videos_in(document@),
{
    let ghost rel = |x: Video, y: VideoView| x@ == y;
    let ghost g = |node: DocumentView| video_of(node);
    assert(respects(rel, eq_of::<Video>(), identical::<VideoView>()));
    let videos = crawl_described::<Video, VideoView, _>(
        document,
        get_video,
        Ghost(g),
        Ghost(identical::<VideoView>()),
        Ghost(rel),
    );
    proof {
        let model = videos_in(document@);
        assert(related(videos@, model, rel));
        assert forall|i: int| 0 <= i < videos.len() implies video_views(videos@)[i]
            == model[i] by {
            assert(rel(videos@[i], model[i]));
        }
        assert(video_views(videos@) =~= model);
    }
    videos
}

/// The collections of a document.
pub fn playlists_of_document(document: &Document) -> (playlists: Vec<Playlist>)
    ensures
        playlist_views(playlists@) == playlists_in(document@),
{
    let ghost rel = |x: Playlist, y: PlaylistView| x@ == y;
    let ghost g = |node: DocumentView| playlist_of(node);
    assert(respects(rel, eq_of::<Playlist>(), identical::<PlaylistView>()));
    let playlists = crawl_described::<Playlist, PlaylistView, _>(
        document,
        get_playlist,
        Ghost(g),
        Ghost(identical::<PlaylistView>()),
        Ghost(rel),
    );
    proof {
        let model = playlists_in(document@);
        assert(related(playlists@, model, rel));
        assert forall|i: int| 0 <= i < playlists.len() implies playlist_views(playlists@)[i]
            == model[i] by {
            assert(rel(playlists@[i], model[i]));
        }
        assert(playlist_views(playlists@) =~= model);
    }
    playlists
}

/// What `search` owes for a response body: the items and the collections of the document
/// that the body denotes, or an error where it denotes none.
pub open spec fn search_result(
    body: Seq<char>,
    r: Result<(Vec<Video>, Vec<Playlist>), ApiError>,
) -> bool {
    match json_tree(body) {
        Some(tree) => r matches Ok(found) && video_views(found.0@) == videos_in(tree)
            && playlist_views(found.1@) == playlists_in(tree),
        None => r is Err,
    }
}

/// The result of a search, from the body of the service's response: the items and the
/// collections that the response shows.
pub fn search(body: &str) -> (r: Result<(Vec<Video>, Vec<Playlist>), ApiError>)
    ensures
        search_result(body@, r),
{
    match Document::parse(body) {
        Ok(document) => Ok((videos_of_document(&document), playlists_of_document(&document))),
        Err(e) => Err(e),
    }
}

/// What `browse_playlist` owes for a response body: the items of the document that the
/// body denotes, or an error where it denotes none.
pub open spec fn browse_result(body: Seq<char>, r: Result<Vec<Video>, ApiError>) -> bool {
    match json_tree(body) {
        Some(tree) => r matches Ok(videos) && video_views(videos@) == videos_in(tree),
        None => r is Err,
    }
}

/// The members of a collection, from the body of the service's response.
pub fn browse_playlist(body: &str) -> (r: Result<Vec<Video>, ApiError>)
    ensures
        browse_result(body@, r),
{
    match Document::parse(body) {
        Ok(document) => Ok(videos_of_document(&document)),
        Err(e) => Err(e),
    }
}

} // verus!
