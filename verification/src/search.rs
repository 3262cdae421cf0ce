//! The incremental search pipeline: local hits at once, remote hits after a pause in the
//! input, and collections that are expanded one by one.
//!
//! The pipeline is a state machine. Each method takes one event and says what state
//! follows and what the caller has to do next: stop a remote task, start one, search,
//! expand a collection, write a log line. The caller waits, talks to the service and
//! hands the outcome back as the next event.

use crate::client::{playlist_views, video_views};
use crate::strings::{
    contains, lowercased, occurs_in, pop_char, push_char, str_eq, to_lowercase, trim, trimmed,
};
use crate::structs::{Playlist, PlaylistView, Video, VideoView};
use crate::query::{search_query, search_query_text};
use vstd::prelude::*;

verus! {

/// How long the input has to pause before the service is asked, in milliseconds.
pub const DEBOUNCE_MS: u64 = 300;

/// How many local hits are shown at most.
pub const LOCAL_LIMIT: usize = 100;

/// The screens that the search screen can hand over to.
#[derive(Clone, Copy, Debug, PartialEq, Eq, Structural)]
pub enum Screens {
    MusicPlayer,
    Playlist,
    Search,
    PlaylistViewer,
}

/// A key, as far as the search screen tells keys apart.
#[derive(Clone, Copy, Debug, PartialEq, Eq, Structural)]
pub enum Key {
    Esc,
    Delete,
    Backspace,
    Char(char),
    Other,
}

/// One line of the result list.
#[derive(Debug, PartialEq)]
pub enum Status {
    /// An item that the local index holds.
    Local(Video),
    /// An item that the local index does not hold.
    Unknown(Video),
    /// A collection with its members.
    PlayList(Playlist, Vec<Video>),
}

/// The value of a [`Status`].
pub enum StatusView {
    Local(VideoView),
    Unknown(VideoView),
    PlayList(PlaylistView, Seq<VideoView>),
}

impl View for Status {
    type V = StatusView;

    open spec fn view(&self) -> StatusView {
        match self {
            Status::Local(v) => StatusView::Local(v@),
            Status::Unknown(v) => StatusView::Unknown(v@),
            Status::PlayList(p, v) => StatusView::PlayList(p@, video_views(v@)),
        }
    }
}

/// The values of some lines.
pub open spec fn status_views(list: Seq<Status>) -> Seq<StatusView> {
    Seq::new(list.len(), |i: int| list[i]@)
}

/// A copy of some videos.
fn clone_videos(videos: &Vec<Video>) -> (r: Vec<Video>)
    ensures
        r@ == videos@,
{
    let mut out: Vec<Video> = Vec::new();
    let mut i: usize = 0;
    while i < videos.len()
        invariant
            i <= videos.len(),
            out@ == videos@.take(i as int),
        decreases videos.len() - i,
    {
        out.push(videos[i].clone());
        assert(out@ =~= videos@.take(i + 1));
        i += 1;
    }
    assert(videos@.take(videos.len() as int) =~= videos@);
    out
}

impl Clone for Status {
    fn clone(&self) -> (r: Self)
        ensures
            r@ == self@,
    {
        match self {
            Status::Local(v) => Status::Local(v.clone()),
            Status::Unknown(v) => Status::Unknown(v.clone()),
            Status::PlayList(p, v) => Status::PlayList(p.clone(), clone_videos(v)),
        }
    }
}

/// The two styles that a line is drawn in.
#[derive(Clone, Copy, Debug, PartialEq, Eq, Structural)]
pub enum LineStyle {
    /// The style of what is ready to play.
    Next,
    /// The style of what has to be fetched first.
    Downloading,
}

/// How a line is drawn: in which style, and whether with colours swapped.
#[derive(Clone, Copy, Debug, PartialEq, Eq, Structural)]
pub struct RenderStyle {
    pub style: LineStyle,
    pub inverted: bool,
}

/// How a line is drawn: an item that the local index does not hold as something to
/// fetch, every other line as ready to play, and the line under the cursor inverted.
pub open spec fn style_of(e: StatusView, selected: bool) -> RenderStyle {
    RenderStyle {
        style: match e {
            StatusView::Unknown(_) => LineStyle::Downloading,
            _ => LineStyle::Next,
        },
        inverted: selected,
    }
}

impl Status {
    /// How the line is drawn, under the cursor or not.
    pub fn render_style(&self, selected: bool) -> (r: RenderStyle)
        ensures
            r == style_of(self@, selected),
    {
        let style = match self {
            Status::Local(_) => LineStyle::Next,
            Status::Unknown(_) => LineStyle::Downloading,
            Status::PlayList(_, _) => LineStyle::Next,
        };
        RenderStyle { style, inverted: selected }
    }
}

/// What the screen answers to its manager.
#[derive(Debug, PartialEq)]
pub enum EventResponse {
    /// Nothing: the screen stays.
    Nothing,
    /// Go to a screen.
    ChangeState(Screens),
    /// Go to the player, coming from a screen.
    PlayerFrom(Screens),
    /// Go to the collection viewer with a name, the screen to come back to, and the members.
    Inspect(String, Screens, Vec<Video>),
}

/// The value of an [`EventResponse`].
pub enum EventResponseView {
    Nothing,
    ChangeState(Screens),
    PlayerFrom(Screens),
    Inspect(Seq<char>, Screens, Seq<VideoView>),
}

impl View for EventResponse {
    type V = EventResponseView;

    open spec fn view(&self) -> EventResponseView {
        match self {
            EventResponse::Nothing => EventResponseView::Nothing,
            EventResponse::ChangeState(s) => EventResponseView::ChangeState(*s),
            EventResponse::PlayerFrom(s) => EventResponseView::PlayerFrom(*s),
            EventResponse::Inspect(name, from, videos) => EventResponseView::Inspect(
                name@,
                *from,
                video_views(videos@),
            ),
        }
    }
}

/// What follows from the choice of a line.
#[derive(Debug, PartialEq)]
pub struct Selection {
    /// The item to hand to the player and to start caching, if any.
    pub play: Option<Video>,
    pub response: EventResponse,
}

/// The value of a [`Selection`].
pub struct SelectionView {
    pub play: Option<VideoView>,
    pub response: EventResponseView,
}

impl View for Selection {
    type V = SelectionView;

    open spec fn view(&self) -> SelectionView {
        SelectionView {
            play: match self.play {
                Some(v) => Some(v@),
                None => None,
            },
            response: self.response@,
        }
    }
}

/// A remote task to start: it waits, and then reports under its number that it has.
#[derive(Clone, Copy, Debug, PartialEq, Eq, Structural)]
pub struct RemoteTask {
    pub task: u64,
    /// How long the task waits before it reports, in milliseconds.
    pub wait_ms: u64,
}

/// What follows from a key.
#[derive(Debug, PartialEq)]
pub struct KeyOutcome {
    pub selection: Selection,
    /// The remote task to stop, if one was in flight.
    pub abort: Option<u64>,
    /// The remote task to start, if any.
    pub start: Option<RemoteTask>,
}

/// The value of a [`KeyOutcome`].
pub struct KeyOutcomeView {
    pub selection: SelectionView,
    pub abort: Option<u64>,
    pub start: Option<RemoteTask>,
}

impl View for KeyOutcome {
    type V = KeyOutcomeView;

    open spec fn view(&self) -> KeyOutcomeView {
        KeyOutcomeView { selection: self.selection@, abort: self.abort, start: self.start }
    }
}

/// What follows from the end of a remote search.
#[derive(Debug)]
pub struct RemoteOutcome<E> {
    /// The collections to expand, each in a task of its own.
    pub expand: Vec<Playlist>,
    /// The failure to write to the log, if the search failed.
    pub log: Option<E>,
}

/// The search screen: the query, the result list, and the remote task in flight.
#[derive(Debug)]
pub struct Search {
    pub text: String,
    pub goto: Screens,
    pub list: Vec<Status>,
    /// The number of the remote task in flight. There is at most one.
    pub search_handle: Option<u64>,
    /// Whether there is a service to ask.
    pub api: bool,
    /// The local hits of the current query: what a remote result is appended to.
    pub local: Vec<Status>,
    /// The number of the remote task that was started last.
    pub started: u64,
}

/// The value of a [`Search`].
pub struct SearchView {
    pub text: Seq<char>,
    pub goto: Screens,
    pub list: Seq<StatusView>,
    pub search_handle: Option<u64>,
    pub api: bool,
    pub local: Seq<StatusView>,
    pub started: u64,
}

impl View for Search {
    type V = SearchView;

    open spec fn view(&self) -> SearchView {
        SearchView {
            text: self.text@,
            goto: self.goto,
            list: status_views(self.list@),
            search_handle: self.search_handle,
            api: self.api,
            local: status_views(self.local@),
            started: self.started,
        }
    }
}

/// The value of an optional line.
pub open spec fn opt_status(e: Option<Status>) -> Option<StatusView> {
    match e {
        Some(e) => Some(e@),
        None => None,
    }
}

/// Whether an item answers a query: the query, in lower case, occurs in the lower-case
/// title or author.
pub open spec fn answers_query(video: VideoView, needle: Seq<char>) -> bool {
    occurs_in(needle, lowercased(video.title)) || occurs_in(needle, lowercased(video.author))
}

/// The local hits among the first `n` items of the index: those that answer the query,
/// in the order of the index, and no more than `LOCAL_LIMIT` of them.
pub open spec fn local_hits(index: Seq<VideoView>, needle: Seq<char>, n: nat) -> Seq<StatusView>
    decreases n,
{
    if n == 0 || n > index.len() {
        Seq::empty()
    } else {
        let before = local_hits(index, needle, (n - 1) as nat);
        if before.len() < LOCAL_LIMIT && answers_query(index[n - 1], needle) {
            before.push(StatusView::Local(index[n - 1]))
        } else {
            before
        }
    }
}

/// Whether the index holds an item with the identifier `id`.
pub open spec fn held_locally(index: Seq<VideoView>, id: Seq<char>) -> bool {
    exists|i: int| 0 <= i < index.len() && (#[trigger] index[i]).video_id == id
}

/// A remote item as a line: known locally where the index holds its identifier.
pub open spec fn classified(index: Seq<VideoView>, video: VideoView) -> StatusView {
    if held_locally(index, video.video_id) {
        StatusView::Local(video)
    } else {
        StatusView::Unknown(video)
    }
}

/// The text after a key: without its last character after `Delete` or `Backspace`, with
/// one more after a character, unchanged otherwise.
pub open spec fn edited(text: Seq<char>, key: Key) -> Seq<char> {
    match key {
        Key::Delete | Key::Backspace => if text.len() == 0 {
            text
        } else {
            text.drop_last()
        },
        Key::Char(c) => text.push(c),
        _ => text,
    }
}

/// What follows from the choice of the line `e`.
///
/// An item is handed to the player and cached; the screen changes to the player unless
/// the modifier is held. A collection is shown in the collection viewer.
pub open spec fn chosen(e: StatusView, control: bool) -> SelectionView {
    match e {
        StatusView::Local(v) | StatusView::Unknown(v) => SelectionView {
            play: Some(v),
            response: if control {
                EventResponseView::Nothing
            } else {
                EventResponseView::PlayerFrom(Screens::Playlist)
            },
        },
        StatusView::PlayList(p, v) => SelectionView {
            play: None,
            response: EventResponseView::Inspect(p.name, Screens::Search, v),
        },
    }
}

/// A selection that asks for nothing.
pub open spec fn nothing_chosen() -> SelectionView {
    SelectionView { play: None, response: EventResponseView::Nothing }
}

/// The number of the remote task that is started after the task `started`.
pub open spec fn next_task(started: u64) -> u64 {
    if started == u64::MAX {
        0
    } else {
        (started + 1) as u64
    }
}

/// The state and the outcome after a key.
///
/// `Esc` leaves the screen. A key that chooses a line has the outcome of that choice.
/// Any other key edits the text. Where the trimmed text is then another, the remote task
/// in flight is stopped, the result list becomes the local hits of the new text, and a
/// new remote task is started if there is a service: it waits `DEBOUNCE_MS`.
pub open spec fn key_pressed(
    s: SearchView,
    key: Key,
    selected: Option<StatusView>,
    control: bool,
    index: Seq<VideoView>,
) -> (SearchView, KeyOutcomeView) {
    if key == Key::Esc {
        (
            s,
            KeyOutcomeView {
                selection: SelectionView {
                    play: None,
                    response: EventResponseView::ChangeState(s.goto),
                },
                abort: None,
                start: None,
            },
        )
    } else if selected is Some {
        (s, KeyOutcomeView { selection: chosen(selected->0, control), abort: None, start: None })
    } else {
        let text = edited(s.text, key);
        if trimmed(s.text) == trimmed(text) {
            (
                SearchView { text, ..s },
                KeyOutcomeView { selection: nothing_chosen(), abort: None, start: None },
            )
        } else {
            let local = local_hits(index, lowercased(text), index.len());
            let start = if s.api {
                Some(RemoteTask { task: next_task(s.started), wait_ms: DEBOUNCE_MS })
            } else {
                None
            };
            (
                SearchView {
                    text,
                    list: local,
                    local,
                    search_handle: if s.api {
                        Some(next_task(s.started))
                    } else {
                        None
                    },
                    started: if s.api {
                        next_task(s.started)
                    } else {
                        s.started
                    },
                    ..s
                },
                KeyOutcomeView { selection: nothing_chosen(), abort: s.search_handle, start },
            )
        }
    }
}

/// The query that the remote task `task` sends once it has waited, or nothing where the
/// task is no longer the one in flight.
pub open spec fn query_after_wait(s: SearchView, task: u64) -> Option<Seq<char>> {
    if s.search_handle == Some(task) {
        Some(search_query_text(s.text))
    } else {
        None
    }
}

/// The remote items as lines, in their order.
pub open spec fn classified_all(index: Seq<VideoView>, videos: Seq<VideoView>) -> Seq<
    StatusView,
> {
    Seq::new(videos.len(), |i: int| classified(index, videos[i]))
}

/// The state after the remote search of the task `task` has ended.
///
/// The outcome of a task that is no longer in flight is dropped. A failed search leaves
/// the local hits. A search that succeeded appends its items to the local hits. Either
/// way no task is in flight afterwards.
pub open spec fn remote_finished_state(
    s: SearchView,
    task: u64,
    found: Option<Seq<VideoView>>,
    index: Seq<VideoView>,
) -> SearchView {
    if s.search_handle != Some(task) {
        s
    } else {
        SearchView {
            list: match found {
                Some(videos) => s.local + classified_all(index, videos),
                None => s.local,
            },
            search_handle: None,
            ..s
        }
    }
}

/// The items that a remote search has brought, or nothing where it failed.
pub open spec fn found_items<E>(result: Result<(Vec<Video>, Vec<Playlist>), E>) -> Option<
    Seq<VideoView>,
> {
    match result {
        Ok(found) => Some(video_views(found.0@)),
        Err(_) => None,
    }
}

/// The members that an expansion has brought, or nothing where it failed.
pub open spec fn found_members<E>(result: Result<Vec<Video>, E>) -> Option<Seq<VideoView>> {
    match result {
        Ok(videos) => Some(video_views(videos@)),
        Err(_) => None,
    }
}

/// The state as the screen opens: no text, no result, no remote task, and the player as
/// the screen to leave to.
pub open spec fn opening(api: bool) -> SearchView {
    SearchView {
        text: Seq::empty(),
        goto: Screens::MusicPlayer,
        list: Seq::empty(),
        search_handle: None,
        api,
        local: Seq::empty(),
        started: 0,
    }
}

/// The state after a collection has been expanded: only the list changes.
pub open spec fn playlist_expanded_state(
    s: SearchView,
    playlist: PlaylistView,
    members: Option<Seq<VideoView>>,
) -> SearchView {
    SearchView { list: playlist_expanded_list(s.list, playlist, members), ..s }
}

/// The list after a collection has been expanded: with one more line for the collection
/// where it has members, unchanged where it has none or the expansion failed.
pub open spec fn playlist_expanded_list(
    list: Seq<StatusView>,
    playlist: PlaylistView,
    members: Option<Seq<VideoView>>,
) -> Seq<StatusView> {
    match members {
        Some(videos) => if videos.len() > 0 {
            list.push(StatusView::PlayList(playlist, videos))
        } else {
            list
        },
        None => list,
    }
}

/// Whether every collection in a list has members.
pub open spec fn no_empty_playlist(list: Seq<StatusView>) -> bool {
    forall|i: int|
        0 <= i < list.len() ==> ((#[trigger] list[i]) matches StatusView::PlayList(_, v)
            ==> v.len() > 0)
}

impl SearchView {
    /// What holds of every state that the screen reaches: the task in flight is the one
    /// that was started last, and no list holds a collection without members.
    pub open spec fn wf(self) -> bool {
        &&& self.search_handle matches Some(task) ==> task == self.started
        &&& no_empty_playlist(self.list)
        &&& no_empty_playlist(self.local)
    }
}

/// Local hits are items, never collections.
pub proof fn lemma_local_hits_are_items(index: Seq<VideoView>, needle: Seq<char>, n: nat)
    ensures
        forall|i: int|
            0 <= i < local_hits(index, needle, n).len() ==> (#[trigger] local_hits(
                index,
                needle,
                n,
            )[i]) is Local,
        local_hits(index, needle, n).len() <= LOCAL_LIMIT,
        no_empty_playlist(local_hits(index, needle, n)),
    decreases n,
{
    if n > 0 && n <= index.len() {
        lemma_local_hits_are_items(index, needle, (n - 1) as nat);
    }
}

/// A key keeps the state well-formed.
pub proof fn lemma_key_pressed_wf(
    s: SearchView,
    key: Key,
    selected: Option<StatusView>,
    control: bool,
    index: Seq<VideoView>,
)
    requires
        s.wf(),
    ensures
        key_pressed(s, key, selected, control, index).0.wf(),
{
    lemma_local_hits_are_items(index, lowercased(edited(s.text, key)), index.len());
}

/// The end of a remote search keeps the state well-formed.
pub proof fn lemma_remote_finished_wf(
    s: SearchView,
    task: u64,
    found: Option<Seq<VideoView>>,
    index: Seq<VideoView>,
)
    requires
        s.wf(),
    ensures
        remote_finished_state(s, task, found, index).wf(),
{
    let after = remote_finished_state(s, task, found, index);
    assert forall|i: int| 0 <= i < after.list.len() implies ((#[trigger] after.list[i]) matches StatusView::PlayList(
        _,
        v,
    ) ==> v.len() > 0) by {
        if s.search_handle == Some(task) && i < s.local.len() {
            assert(after.list[i] == s.local[i]);
        }
    }
}

/// The screen opens in a well-formed state.
pub proof fn lemma_opening_wf(api: bool)
    ensures
        opening(api).wf(),
{
}

/// A collection without members never gets a line: the expansion of a collection keeps
/// the state well-formed, so that every collection on the list has at least one member,
/// and an expansion that brought no member leaves the state as it was.
pub proof fn lemma_empty_playlist_never_listed(
    s: SearchView,
    playlist: PlaylistView,
    members: Option<Seq<VideoView>>,
)
    ensures
        s.wf() ==> playlist_expanded_state(s, playlist, members).wf(),
        members == Some(Seq::<VideoView>::empty()) ==> playlist_expanded_state(
            s,
            playlist,
            members,
        ) == s,
{
}

/// At most one remote task is in flight: a key that starts a remote task stops the one in
/// flight, and the new task is the only one in flight afterwards, under a number that the
/// stopped one did not have.
pub proof fn lemma_single_flight(
    s: SearchView,
    key: Key,
    selected: Option<StatusView>,
    control: bool,
    index: Seq<VideoView>,
)
    requires
        s.wf(),
        key_pressed(s, key, selected, control, index).1.start is Some,
    ensures
        ({
            let (after, outcome) = key_pressed(s, key, selected, control, index);
            &&& outcome.abort == s.search_handle
            &&& after.search_handle == Some(outcome.start->0.task)
            &&& s.search_handle != Some(outcome.start->0.task)
            &&& outcome.start->0.wait_ms == DEBOUNCE_MS
        }),
{
}

/// Debounce: of two keys that each change the text and start a remote task, the task of
/// the first never asks the service once the second key is in; only the task of the
/// second does, and it asks for the text as it stands after both keys.
pub proof fn lemma_superseded_task_is_silent(
    s: SearchView,
    first: Key,
    second: Key,
    index: Seq<VideoView>,
)
    requires
        s.wf(),
        key_pressed(s, first, None, false, index).1.start is Some,
        key_pressed(key_pressed(s, first, None, false, index).0, second, None, false, index).1.start
            is Some,
    ensures
        ({
            let (s1, o1) = key_pressed(s, first, None, false, index);
            let (s2, o2) = key_pressed(s1, second, None, false, index);
            &&& o2.abort == Some(o1.start->0.task)
            &&& query_after_wait(s2, o1.start->0.task) is None
            &&& query_after_wait(s2, o2.start->0.task) == Some(
                search_query_text(edited(edited(s.text, first), second)),
            )
        }),
{
    let (s1, o1) = key_pressed(s, first, None, false, index);
    lemma_key_pressed_wf(s, first, None, false, index);
    lemma_single_flight(s1, second, None, false, index);
}

/// A remote search that fails leaves the local hits of the query on the list: after a key
/// that starts a remote task, the failure of that task leaves exactly the local hits that
/// the key brought, and no task in flight.
pub proof fn lemma_failed_search_keeps_local_hits(
    s: SearchView,
    key: Key,
    index: Seq<VideoView>,
    later_index: Seq<VideoView>,
)
    requires
        key_pressed(s, key, None, false, index).1.start is Some,
    ensures
        ({
            let (s1, o1) = key_pressed(s, key, None, false, index);
            let s2 = remote_finished_state(s1, o1.start->0.task, None, later_index);
            &&& s2.list == s1.list
            &&& s2.list == local_hits(index, lowercased(s1.text), index.len())
            &&& s2.search_handle is None
        }),
{
}

/// Once the limit is reached, the rest of the index adds no hit.
proof fn lemma_local_hits_full(index: Seq<VideoView>, needle: Seq<char>, i: nat, n: nat)
    requires
        i <= n <= index.len(),
        local_hits(index, needle, i).len() >= LOCAL_LIMIT,
    ensures
        local_hits(index, needle, n) == local_hits(index, needle, i),
    decreases n,
{
    if i < n {
        lemma_local_hits_full(index, needle, i, (n - 1) as nat);
    }
}

/// Whether one of two texts holds the query.
pub fn holds_query(title: &str, author: &str, needle: &str) -> (r: bool)
    ensures
        r == (occurs_in(needle@, title@) || occurs_in(needle@, author@)),
{
    contains(title, needle) || contains(author, needle)
}

/// The local hits for a query: the items of the index whose title or author holds the
/// query, without regard to case, in the order of the index and at most `LOCAL_LIMIT`.
pub fn local_matches(database: &Vec<Video>, text: &str) -> (r: Vec<Status>)
    ensures
        status_views(r@) == local_hits(
            video_views(database@),
            lowercased(text@),
            database.len() as nat,
        ),
{
    let needle = to_lowercase(text);
    let ghost index = video_views(database@);
    let mut out: Vec<Status> = Vec::new();
    let mut i: usize = 0;
    while i < database.len() && out.len() < LOCAL_LIMIT
        invariant
            i <= database.len(),
            index == video_views(database@),
            needle@ == lowercased(text@),
            status_views(out@) == local_hits(index, needle@, i as nat),
        decreases database.len() - i,
    {
        let x = &database[i];
        let ghost before = out@;
        assert(index[i as int] == x@);
        let title = to_lowercase(x.title.as_str());
        let author = to_lowercase(x.author.as_str());
        if holds_query(title.as_str(), author.as_str(), needle.as_str()) {
            out.push(Status::Local(x.clone()));
            assert(status_views(out@) =~= status_views(before).push(StatusView::Local(x@)));
        }
        i += 1;
    }
    proof {
        if i < database.len() {
            lemma_local_hits_full(index, needle@, i as nat, database.len() as nat);
        }
    }
    out
}

/// Whether the index holds an item with the identifier `id`.
pub fn is_local(database: &Vec<Video>, id: &str) -> (r: bool)
    ensures
        r == held_locally(video_views(database@), id@),
{
    let mut i: usize = 0;
    while i < database.len()
        invariant
            i <= database.len(),
            forall|j: int| 0 <= j < i ==> (#[trigger] video_views(database@)[j]).video_id != id@,
        decreases database.len() - i,
    {
        if str_eq(database[i].video_id.as_str(), id) {
            assert(video_views(database@)[i as int].video_id == id@);
            return true;
        }
        i += 1;
    }
    false
}

/// A copy of some lines.
fn clone_lines(list: &Vec<Status>) -> (r: Vec<Status>)
    ensures
        status_views(r@) == status_views(list@),
{
    let mut out: Vec<Status> = Vec::new();
    let mut i: usize = 0;
    while i < list.len()
        invariant
            i <= list.len(),
            status_views(out@) == status_views(list@).take(i as int),
        decreases list.len() - i,
    {
        let ghost before = out@;
        out.push(list[i].clone());
        assert(status_views(out@) =~= status_views(before).push(list[i as int]@));
        assert(status_views(out@) =~= status_views(list@).take(i + 1));
        i += 1;
    }
    assert(status_views(list@).take(list.len() as int) =~= status_views(list@));
    out
}

/// Appends the remote items `videos` to `list`, each as a line: known locally where the
/// index holds its identifier.
fn push_remote(list: &mut Vec<Status>, videos: &Vec<Video>, database: &Vec<Video>)
    ensures
        status_views(final(list)@) == status_views(old(list)@) + classified_all(
            video_views(database@),
            video_views(videos@),
        ),
{
    let ghost index = video_views(database@);
    let ghost remote = classified_all(index, video_views(videos@));
    let ghost start = status_views(list@);
    assert(start + remote.take(0) =~= start);
    let mut k: usize = 0;
    while k < videos.len()
        invariant
            k <= videos.len(),
            index == video_views(database@),
            remote == classified_all(index, video_views(videos@)),
            status_views(list@) == start + remote.take(k as int),
        decreases videos.len() - k,
    {
        let video = videos[k].clone();
        assert(video@ == video_views(videos@)[k as int]);
        let line = if is_local(database, video.video_id.as_str()) {
            Status::Local(video)
        } else {
            Status::Unknown(video)
        };
        assert(line@ == remote[k as int]);
        let ghost before = list@;
        list.push(line);
        assert(status_views(list@) =~= status_views(before).push(remote[k as int]));
        assert(remote.take(k + 1) =~= remote.take(k as int).push(remote[k as int]));
        assert(status_views(list@) =~= start + remote.take(k + 1));
        k += 1;
    }
    assert(remote.take(videos.len() as int) =~= remote);
}

impl Search {
    /// The screen as it opens: no text, no result, no remote task, and the player as the
    /// screen to leave to.
    pub fn new(api: bool) -> (s: Search)
        ensures
            s@ == opening(api),
            s@.wf(),
    {
        let s = Search {
            text: String::new(),
            goto: Screens::MusicPlayer,
            list: Vec::new(),
            search_handle: None,
            api,
            local: Vec::new(),
            started: 0,
        };
        assert(status_views(s.list@) =~= Seq::empty());
        assert(status_views(s.local@) =~= Seq::empty());
        s
    }

    /// What follows from the choice of the line `e`, with or without the modifier held.
    pub fn execute_status(&self, e: Status, control: bool) -> (r: Selection)
        ensures
            r@ == chosen(e@, control),
    {
        match e {
            Status::Local(e) | Status::Unknown(e) => Selection {
                play: Some(e),
                response: if control {
                    EventResponse::Nothing
                } else {
                    EventResponse::PlayerFrom(Screens::Playlist)
                },
            },
            Status::PlayList(e, v) => Selection {
                play: None,
                response: EventResponse::Inspect(e.name, Screens::Search, v),
            },
        }
    }

    /// Takes a key: see [`key_pressed`]. `selected` is the line that the key chooses in
    /// the result list, if it chooses one, and `database` the local index.
    pub fn on_key_press(
        &mut self,
        key: Key,
        selected: Option<Status>,
        control: bool,
        database: &Vec<Video>,
    ) -> (r: KeyOutcome)
        ensures
            (final(self)@, r@) == key_pressed(
                old(self)@,
                key,
                opt_status(selected),
                control,
                video_views(database@),
            ),
            old(self)@.wf() ==> final(self)@.wf(),
    {
        proof {
            if old(self)@.wf() {
                lemma_key_pressed_wf(
                    old(self)@,
                    key,
                    opt_status(selected),
                    control,
                    video_views(database@),
                );
            }
        }
        if let Key::Esc = key {
            return KeyOutcome {
                selection: Selection { play: None, response: EventResponse::ChangeState(self.goto) },
                abort: None,
                start: None,
            };
        }
        if let Some(e) = selected {
            return KeyOutcome {
                selection: self.execute_status(e, control),
                abort: None,
                start: None,
            };
        }
        let textbefore = trim(self.text.as_str()).to_owned();
        match key {
            Key::Delete | Key::Backspace => {
                pop_char(&mut self.text);
            },
            Key::Char(a) => {
                push_char(&mut self.text, a);
            },
            _ => {},
        }
        let nothing = Selection { play: None, response: EventResponse::Nothing };
        if str_eq(textbefore.as_str(), trim(self.text.as_str())) {
            return KeyOutcome { selection: nothing, abort: None, start: None };
        }
        let abort = self.search_handle;
        self.search_handle = None;
        self.local = local_matches(database, self.text.as_str());
        self.list = clone_lines(&self.local);
        let mut start: Option<RemoteTask> = None;
        if self.api {
            let task = self.started.wrapping_add(1);
            self.started = task;
            self.search_handle = Some(task);
            start = Some(RemoteTask { task, wait_ms: DEBOUNCE_MS });
        }
        KeyOutcome { selection: nothing, abort, start }
    }

    /// The query that the remote task `task` is to send now that it has waited, or nothing
    /// where the task is no longer the one in flight: a task that was superseded while it
    /// waited never asks the service.
    pub fn debounce_elapsed(&self, task: u64) -> (r: Option<String>)
        ensures
            crate::text::opt_text(r) == query_after_wait(self@, task),
    {
        match self.search_handle {
            Some(handle) => if handle == task {
                Some(search_query(self.text.as_str()))
            } else {
                None
            },
            None => None,
        }
    }

    /// Takes the outcome of the remote search of the task `task`: see
    /// [`remote_finished_state`].
    ///
    /// The collections of a search that succeeded are handed back to be expanded, and the
    /// failure of one that failed is handed back to be logged, once. The outcome of a task
    /// that is no longer in flight asks for neither.
    pub fn remote_finished<E>(
        &mut self,
        task: u64,
        result: Result<(Vec<Video>, Vec<Playlist>), E>,
        database: &Vec<Video>,
    ) -> (r: RemoteOutcome<E>)
        ensures
            final(self)@ == remote_finished_state(
                old(self)@,
                task,
                found_items(result),
                video_views(database@),
            ),
            r.expand@ == match result {
                Ok(found) => if old(self).search_handle == Some(task) {
                    found.1@
                } else {
                    Seq::empty()
                },
                Err(_) => Seq::empty(),
            },
            r.log == match result {
                Ok(_) => None,
                Err(e) => if old(self).search_handle == Some(task) {
                    Some(e)
                } else {
                    None
                },
            },
            old(self)@.wf() ==> final(self)@.wf(),
    {
        proof {
            if old(self)@.wf() {
                lemma_remote_finished_wf(
                    old(self)@,
                    task,
                    found_items(result),
                    video_views(database@),
                );
            }
        }
        let in_flight = match self.search_handle {
            Some(handle) => handle == task,
            None => false,
        };
        if !in_flight {
            return RemoteOutcome { expand: Vec::new(), log: None };
        }
        self.search_handle = None;
        self.list = clone_lines(&self.local);
        match result {
            Ok((videos, playlists)) => {
                push_remote(&mut self.list, &videos, database);
                RemoteOutcome { expand: playlists, log: None }
            },
            Err(e) => RemoteOutcome { expand: Vec::new(), log: Some(e) },
        }
    }

    /// Takes the outcome of the expansion of `playlist`: a collection with members gets a
    /// line at the end of the list, one without gets none, and a failure is handed back
    /// to be logged.
    pub fn playlist_expanded<E>(&mut self, playlist: Playlist, result: Result<Vec<Video>, E>) -> (log:
        Option<E>)
        ensures
            final(self)@ == playlist_expanded_state(
                old(self)@,
                playlist@,
                found_members(result),
            ),
            log == match result {
                Ok(_) => None,
                Err(e) => Some(e),
            },
            old(self)@.wf() ==> final(self)@.wf(),
    {
        match result {
            Ok(e) => {
                if e.len() == 0 {
                    return None;
                }
                let ghost before = self.list@;
                let ghost line = StatusView::PlayList(playlist@, video_views(e@));
                self.list.push(Status::PlayList(playlist, e));
                assert(status_views(self.list@) =~= status_views(before).push(line));
                None
            },
            Err(e) => Some(e),
        }
    }
}

} // verus!
