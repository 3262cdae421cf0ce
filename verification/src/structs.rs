//! The entities that are extracted from a document, and the matchers that recognise them.
//!
//! Every matcher answers with nothing on any structural mismatch; none of them fails.

use crate::crawl::eq_of;
use crate::document::{
    lemma_child_decreases, lemma_children_of_view, opt_tree, Document, DocumentView,
};
use crate::strings::strip_prefix;
use crate::text::{get_text, opt_text, text_of, texts};
use vstd::laws_eq::obeys_eq;
use vstd::prelude::*;
use vstd::std_specs::cmp::{PartialEqSpec, PartialEqSpecImpl};

verus! {

/// A playable item.
#[derive(Debug, Eq, Hash)]
pub struct Video {
    pub title: String,
    pub author: String,
    /// May be empty.
    pub album: String,
    pub video_id: String,
    /// Always empty when extracted: the player fills it in.
    pub duration: String,
}

/// The value of a [`Video`].
pub struct VideoView {
    pub title: Seq<char>,
    pub author: Seq<char>,
    pub album: Seq<char>,
    pub video_id: Seq<char>,
    pub duration: Seq<char>,
}

impl View for Video {
    type V = VideoView;

    open spec fn view(&self) -> VideoView {
        VideoView {
            title: self.title@,
            author: self.author@,
            album: self.album@,
            video_id: self.video_id@,
            duration: self.duration@,
        }
    }
}

impl Clone for Video {
    fn clone(&self) -> (r: Self)
        ensures
            r == *self,
    {
        Video {
            title: self.title.clone(),
            author: self.author.clone(),
            album: self.album.clone(),
            video_id: self.video_id.clone(),
            duration: self.duration.clone(),
        }
    }
}

impl PartialEq for Video {
    fn eq(&self, other: &Self) -> (r: bool) {
        self.title == other.title && self.author == other.author && self.album == other.album
            && self.video_id == other.video_id && self.duration == other.duration
    }
}

impl PartialEqSpecImpl for Video {
    open spec fn obeys_eq_spec() -> bool {
        true
    }

    open spec fn eq_spec(&self, other: &Self) -> bool {
        self@ == other@
    }
}

impl Video {
    /// The line that shows the item in a list: the author, " | ", the title.
    pub fn label(&self) -> (r: String)
        ensures
            r@ == self.author@ + " | "@ + self.title@,
    {
        let mut out = self.author.clone();
        out.append(" | ");
        out.append(self.title.as_str());
        out
    }
}

/// A named group of items, which the service expands by its identifier.
#[derive(Debug, Eq, PartialOrd, Ord, Hash)]
pub struct Playlist {
    pub name: String,
    /// May be empty.
    pub subtitle: String,
    pub browse_id: String,
}

/// The value of a [`Playlist`].
pub struct PlaylistView {
    pub name: Seq<char>,
    pub subtitle: Seq<char>,
    pub browse_id: Seq<char>,
}

impl View for Playlist {
    type V = PlaylistView;

    open spec fn view(&self) -> PlaylistView {
        PlaylistView { name: self.name@, subtitle: self.subtitle@, browse_id: self.browse_id@ }
    }
}

impl Clone for Playlist {
    fn clone(&self) -> (r: Self)
        ensures
            r == *self,
    {
        Playlist {
            name: self.name.clone(),
            subtitle: self.subtitle.clone(),
            browse_id: self.browse_id.clone(),
        }
    }
}

impl PartialEq for Playlist {
    fn eq(&self, other: &Self) -> (r: bool) {
        self.name == other.name && self.subtitle == other.subtitle && self.browse_id
            == other.browse_id
    }
}

impl PartialEqSpecImpl for Playlist {
    open spec fn obeys_eq_spec() -> bool {
        true
    }

    open spec fn eq_spec(&self, other: &Self) -> bool {
        self@ == other@
    }
}

/// The value of an optional video.
pub open spec fn opt_video(v: Option<Video>) -> Option<VideoView> {
    match v {
        Some(v) => Some(v@),
        None => None,
    }
}

/// The value of an optional playlist.
pub open spec fn opt_playlist(p: Option<Playlist>) -> Option<PlaylistView> {
    match p {
        Some(p) => Some(p@),
        None => None,
    }
}

/// The value under `key` of an optional node.
pub open spec fn child(node: Option<DocumentView>, key: Seq<char>) -> Option<DocumentView> {
    match node {
        Some(node) => node.get(key),
        None => None,
    }
}

/// The text of an optional string node.
pub open spec fn leaf(node: Option<DocumentView>) -> Option<Seq<char>> {
    match node {
        Some(node) => node.as_str(),
        None => None,
    }
}

/// The first identifier found in the children of `node`, from the child at `from` on.
pub open spec fn first_child_id(node: DocumentView, from: nat) -> Option<Seq<char>>
    decreases node, node.children().len() - from,
{
    if from >= node.children().len() {
        None
    } else {
        proof {
            lemma_child_decreases(node, from as int);
        }
        match video_id_of(node.children()[from as int]) {
            Some(id) => Some(id),
            None => first_child_id(node, from + 1),
        }
    }
}

/// The first "videoId" string in a tree, depth-first: a mapping's own such field counts
/// before those of its values.
pub open spec fn video_id_of(node: DocumentView) -> Option<Seq<char>>
    decreases node, node.children().len() + 1,
{
    match node {
        DocumentView::Array(_) => first_child_id(node, 0),
        DocumentView::Object(_) => match leaf(node.get("videoId"@)) {
            Some(id) => Some(id),
            None => first_child_id(node, 0),
        },
        _ => None,
    }
}

/// Finds the first "videoId" string in `value`, depth-first.
pub fn get_videoid(value: &Document) -> (r: Option<String>)
    ensures
        opt_text(r) == video_id_of(value@),
    decreases value@,
{
    proof {
        lemma_children_of_view(*value);
    }
    match value {
        Document::Array(e) => {
            let mut i: usize = 0;
            while i < e.len()
                invariant
                    i <= e.len(),
                    *value == Document::Array(*e),
                    value@.children().len() == e.len(),
                    first_child_id(value@, 0) == first_child_id(value@, i as nat),
                decreases e.len() - i,
            {
                proof {
                    lemma_children_of_view(*value);
                    lemma_child_decreases(value@, i as int);
                }
                if let Some(id) = get_videoid(&e[i]) {
                    return Some(id);
                }
                i += 1;
            }
            None
        },
        Document::Object(e) => {
            if let Some(id) = value.get("videoId") {
                if let Some(id) = id.as_str() {
                    return Some(id.to_owned());
                }
            }
            let mut i: usize = 0;
            while i < e.len()
                invariant
                    i <= e.len(),
                    *value == Document::Object(*e),
                    value@.children().len() == e.len(),
                    leaf(value@.get("videoId"@)) is None,
                    first_child_id(value@, 0) == first_child_id(value@, i as nat),
                decreases e.len() - i,
            {
                proof {
                    lemma_children_of_view(*value);
                    lemma_child_decreases(value@, i as int);
                }
                if let Some(id) = get_videoid(&e[i].1) {
                    return Some(id);
                }
                i += 1;
            }
            None
        },
        _ => None,
    }
}

/// The text of one column of an item: the text of the first value of the column's
/// mapping, where a bare marker has none and runs are joined with " • ".
pub open spec fn item_column(column: DocumentView) -> Option<Seq<char>> {
    match column {
        DocumentView::Object(entries) => if entries.len() > 0 {
            text_of(entries[0].1, true, true)
        } else {
            None
        },
        _ => None,
    }
}

/// The text of one column of a search result card.
pub open spec fn card_column(column: DocumentView) -> Option<Seq<char>> {
    match child(
        child(Some(column), "musicResponsiveListItemFlexColumnRenderer"@),
        "text"@,
    ) {
        Some(text) => text_of(text, false, false),
        None => None,
    }
}

/// How the text of a column is found: as in an item, or as in a search result card.
pub open spec fn column_pick(of_item: bool) -> spec_fn(DocumentView) -> Option<Seq<char>> {
    if of_item {
        |c: DocumentView| item_column(c)
    } else {
        |c: DocumentView| card_column(c)
    }
}

/// The texts of the first `n` of `columns`, in order, without the columns that have none.
pub open spec fn column_texts(
    columns: Seq<DocumentView>,
    pick: spec_fn(DocumentView) -> Option<Seq<char>>,
    n: nat,
) -> Seq<Seq<char>>
    decreases n,
{
    if n == 0 || n > columns.len() {
        Seq::empty()
    } else {
        let before = column_texts(columns, pick, (n - 1) as nat);
        match pick(columns[n - 1]) {
            Some(t) => before.push(t),
            None => before,
        }
    }
}

/// The texts of the "flexColumns" of a node, or nothing where it has no such sequence.
pub open spec fn flex_columns(
    node: DocumentView,
    pick: spec_fn(DocumentView) -> Option<Seq<char>>,
) -> Option<Seq<Seq<char>>> {
    match node.get("flexColumns"@) {
        Some(DocumentView::Array(columns)) => Some(column_texts(columns, pick, columns.len())),
        _ => None,
    }
}

/// The item that a node shows, or nothing.
///
/// The node is a mapping with a "flexColumns" sequence, of which at least two columns have
/// a text, and it holds an identifier somewhere. The title is the first text, the author
/// the second, the album the third or empty; the duration is left empty.
pub open spec fn video_of(node: DocumentView) -> Option<VideoView> {
    match (flex_columns(node, column_pick(true)), video_id_of(node)) {
        (Some(texts), Some(id)) => if node is Object && texts.len() >= 2 {
            Some(
                VideoView {
                    title: texts[0],
                    author: texts[1],
                    album: if texts.len() >= 3 {
                        texts[2]
                    } else {
                        Seq::empty()
                    },
                    video_id: id,
                    duration: Seq::empty(),
                },
            )
        } else {
            None
        },
        _ => None,
    }
}

/// The identifier under "navigationEndpoint", "browseEndpoint", "browseId" of a node.
pub open spec fn browse_id_of(node: DocumentView) -> Option<Seq<char>> {
    leaf(child(child(node.get("navigationEndpoint"@), "browseEndpoint"@), "browseId"@))
}

/// The collection that a node of a browse page shows, or nothing.
///
/// The node is a mapping with a "title" that has a text, where a bare marker has none, and
/// with a browse identifier that starts with "VL". The identifier is kept without that
/// prefix; a missing subtitle is empty.
pub open spec fn playlist_of(node: DocumentView) -> Option<PlaylistView> {
    match (child(Some(node), "title"@), browse_id_of(node)) {
        (Some(title), Some(id)) => match text_of(title, true, false) {
            Some(name) => if "VL"@.is_prefix_of(id) {
                Some(
                    PlaylistView {
                        name,
                        subtitle: match child(Some(node), "subtitle"@) {
                            Some(subtitle) => match text_of(subtitle, false, false) {
                                Some(subtitle) => subtitle,
                                None => Seq::empty(),
                            },
                            None => Seq::empty(),
                        },
                        browse_id: id.skip("VL"@.len() as int),
                    },
                )
            } else {
                None
            },
            None => None,
        },
        _ => None,
    }
}

/// The identifier that the play button of a search result card leads to.
pub open spec fn card_playlist_id(node: DocumentView) -> Option<Seq<char>> {
    leaf(
        child(
            child(
                child(
                    child(
                        child(
                            child(node.get("overlay"@), "musicItemThumbnailOverlayRenderer"@),
                            "content"@,
                        ),
                        "musicPlayButtonRenderer"@,
                    ),
                    "playNavigationEndpoint"@,
                ),
                "watchPlaylistEndpoint"@,
            ),
            "playlistId"@,
        ),
    )
}

/// The collection that a search result card shows, or nothing.
///
/// The card's play button leads to a playlist, and at least two of its "flexColumns" have
/// a text: the name is the first text, the subtitle the second, and the identifier is kept
/// as it is.
pub open spec fn playlist_search_of(node: DocumentView) -> Option<PlaylistView> {
    match (card_playlist_id(node), flex_columns(node, column_pick(false))) {
        (Some(id), Some(titles)) => if titles.len() >= 2 {
            Some(PlaylistView { name: titles[0], subtitle: titles[1], browse_id: id })
        } else {
            None
        },
        _ => None,
    }
}

/// `==` on items compares all fields, and is an equivalence.
pub proof fn lemma_video_eq()
    ensures
        obeys_eq::<Video>(),
        forall|a: Video, b: Video| #[trigger] eq_of::<Video>()(a, b) <==> a@ == b@,
{
    reveal(vstd::laws_eq::obeys_eq_spec_properties);
}

/// `==` on collections compares all fields, and is an equivalence.
pub proof fn lemma_playlist_eq()
    ensures
        obeys_eq::<Playlist>(),
        forall|a: Playlist, b: Playlist| #[trigger] eq_of::<Playlist>()(a, b) <==> a@ == b@,
{
    reveal(vstd::laws_eq::obeys_eq_spec_properties);
}

/// There are at most as many texts as columns.
pub proof fn lemma_column_texts_len(
    columns: Seq<DocumentView>,
    pick: spec_fn(DocumentView) -> Option<Seq<char>>,
    n: nat,
)
    ensures
        column_texts(columns, pick, n).len() <= n,
    decreases n,
{
    if n > 0 && n <= columns.len() {
        lemma_column_texts_len(columns, pick, (n - 1) as nat);
    }
}

/// An item needs a title and an author: a node with fewer than two columns shows no
/// item, nor does one without an identifier, and the duration of an item is empty.
pub proof fn lemma_video_needs_two_columns(node: DocumentView)
    ensures
        node.get("flexColumns"@) matches Some(DocumentView::Array(columns)) && columns.len() < 2
            ==> video_of(node) is None,
        video_id_of(node) is None ==> video_of(node) is None,
        video_of(node) matches Some(v) ==> v.duration.len() == 0 && Some(v.video_id)
            == video_id_of(node),
{
    if let Some(DocumentView::Array(columns)) = node.get("flexColumns"@) {
        lemma_column_texts_len(columns, column_pick(true), columns.len());
    }
}

/// A collection is taken whole or not at all: without a browse identifier that starts
/// with "VL" a node shows no collection, and the identifier of a collection is the browse
/// identifier without that prefix.
pub proof fn lemma_playlist_needs_prefix(node: DocumentView)
    ensures
        browse_id_of(node) matches Some(id) && !"VL"@.is_prefix_of(id) ==> playlist_of(node)
            is None,
        browse_id_of(node) is None ==> playlist_of(node) is None,
        playlist_of(node) matches Some(p) ==> browse_id_of(node) == Some("VL"@ + p.browse_id),
{
    if let Some(p) = playlist_of(node) {
        let id = browse_id_of(node)->0;
        assert(id =~= "VL"@ + id.skip("VL"@.len() as int));
    }
}

/// The value under `key` of an optional node.
fn get_child<'a>(node: Option<&'a Document>, key: &str) -> (r: Option<&'a Document>)
    ensures
        opt_tree(r) == child(opt_tree(node), key@),
{
    match node {
        Some(node) => node.get(key),
        None => None,
    }
}

/// The texts of the columns that have one, with `true` for the columns of an item and
/// `false` for those of a search result card.
fn column_strings(columns: &Vec<Document>, of_item: bool) -> (titles: Vec<String>)
    ensures
        texts(titles@) == column_texts(
            Document::Array(*columns)@->Array_0,
            column_pick(of_item),
            columns.len() as nat,
        ),
{
    let ghost all = Document::Array(*columns)@->Array_0;
    let ghost pick = column_pick(of_item);
    let mut titles: Vec<String> = Vec::new();
    let mut i: usize = 0;
    while i < columns.len()
        invariant
            i <= columns.len(),
            all == Document::Array(*columns)@->Array_0,
            all.len() == columns.len(),
            pick == column_pick(of_item),
            texts(titles@) == column_texts(all, pick, i as nat),
        decreases columns.len() - i,
    {
        assert(all[i as int] == columns[i as int]@);
        let ghost before = titles@;
        let text = if of_item {
            match columns[i].as_object() {
                Some(entries) => if entries.len() > 0 {
                    assert(columns[i as int]@->Object_0[0].1 == entries[0].1@);
                    get_text(&entries[0].1, true, true)
                } else {
                    None
                },
                None => None,
            }
        } else {
            match get_child(
                columns[i].get("musicResponsiveListItemFlexColumnRenderer"),
                "text",
            ) {
                Some(text) => get_text(text, false, false),
                None => None,
            }
        };
        assert(opt_text(text) == pick(all[i as int]));
        if let Some(text) = text {
            titles.push(text);
            assert(texts(titles@) =~= texts(before).push(text@));
        }
        i += 1;
    }
    titles
}

/// Tries to extract an item from `value`: see [`video_of`].
pub fn get_video(value: &Document) -> (r: Option<Video>)
    ensures
        opt_video(r) == video_of(value@),
{
    let columns = match value.as_object() {
        Some(_) => match value.get("flexColumns") {
            Some(columns) => match columns.as_array() {
                Some(columns) => columns,
                None => {
                    return None;
                },
            },
            None => {
                return None;
            },
        },
        None => {
            return None;
        },
    };
    let video_id = match get_videoid(value) {
        Some(video_id) => video_id,
        None => {
            return None;
        },
    };
    let texts = column_strings(columns, true);
    if texts.len() < 2 {
        return None;
    }
    let album = if texts.len() >= 3 {
        texts[2].clone()
    } else {
        String::new()
    };
    Some(
        Video {
            video_id,
            title: texts[0].clone(),
            author: texts[1].clone(),
            album,
            duration: String::new(),
        },
    )
}

/// Tries to extract a collection from `value`, a node of a browse page: see
/// [`playlist_of`].
pub fn get_playlist(value: &Document) -> (r: Option<Playlist>)
    ensures
        opt_playlist(r) == playlist_of(value@),
{
    let title_text = match value.get("title") {
        Some(title) => match get_text(title, true, false) {
            Some(text) => text,
            None => {
                return None;
            },
        },
        None => {
            return None;
        },
    };
    let subtitle = match value.get("subtitle") {
        Some(subtitle) => get_text(subtitle, false, false),
        None => None,
    };
    let browse_id = match get_leaf(
        get_child(get_child(value.get("navigationEndpoint"), "browseEndpoint"), "browseId"),
    ) {
        Some(id) => id,
        None => {
            return None;
        },
    };
    match strip_prefix(browse_id, "VL") {
        Some(id) => Some(
            Playlist {
                name: title_text,
                subtitle: match subtitle {
                    Some(subtitle) => subtitle,
                    None => String::new(),
                },
                browse_id: id.to_owned(),
            },
        ),
        None => None,
    }
}

/// The text of an optional string node.
fn get_leaf<'a>(node: Option<&'a Document>) -> (r: Option<&'a str>)
    ensures
        match r {
            Some(s) => leaf(opt_tree(node)) == Some(s@),
            None => leaf(opt_tree(node)) is None,
        },
{
    match node {
        Some(node) => node.as_str(),
        None => None,
    }
}

/// The identifier that the play button of a search result card leads to.
fn get_card_playlist_id(value: &Document) -> (r: Option<&str>)
    ensures
        match r {
            Some(s) => card_playlist_id(value@) == Some(s@),
            None => card_playlist_id(value@) is None,
        },
{
    let overlay = get_child(value.get("overlay"), "musicItemThumbnailOverlayRenderer");
    let button = get_child(get_child(overlay, "content"), "musicPlayButtonRenderer");
    let endpoint = get_child(
        get_child(button, "playNavigationEndpoint"),
        "watchPlaylistEndpoint",
    );
    get_leaf(get_child(endpoint, "playlistId"))
}

/// Tries to extract a collection from `value`, a card of a search result: see
/// [`playlist_search_of`].
pub fn get_playlist_search(value: &Document) -> (r: Option<Playlist>)
    ensures
        opt_playlist(r) == playlist_search_of(value@),
{
    let playlist_id = match get_card_playlist_id(value) {
        Some(id) => id,
        None => {
            return None;
        },
    };
    let titles = match value.get("flexColumns") {
        Some(columns) => match columns.as_array() {
            Some(columns) => column_strings(columns, false),
            None => {
                return None;
            },
        },
        None => {
            return None;
        },
    };
    if titles.len() < 2 {
        return None;
    }
    Some(
        Playlist {
            name: titles[0].clone(),
            subtitle: titles[1].clone(),
            browse_id: playlist_id.to_owned(),
        },
    )
}

} // verus!
