use ytermusic::search::{
    holds_query, is_local, local_matches, EventResponse, Key, KeyOutcome, LineStyle, RemoteTask,
    RenderStyle, Screens, Search, Selection, Status, DEBOUNCE_MS, LOCAL_LIMIT,
};
use ytermusic::structs::{Playlist, Video};

fn video(title: &str, author: &str, id: &str) -> Video {
    Video {
        title: title.to_string(),
        author: author.to_string(),
        album: String::new(),
        video_id: id.to_string(),
        duration: String::new(),
    }
}

fn playlist(name: &str) -> Playlist {
    Playlist { name: name.to_string(), subtitle: "s".to_string(), browse_id: "id".to_string() }
}

fn index() -> Vec<Video> {
    vec![
        video("Abba Gold", "Various", "1"),
        video("Blue", "ABBA", "2"),
        video("Cello", "Bach", "3"),
        video("Dune", "None", "4"),
    ]
}

fn nothing() -> Selection {
    Selection { play: None, response: EventResponse::Nothing }
}

fn typed(s: &mut Search, text: &str, database: &Vec<Video>) -> Vec<KeyOutcome> {
    text.chars().map(|c| s.on_key_press(Key::Char(c), None, false, database)).collect()
}

#[test]
fn the_screen_opens_empty() {
    let s = Search::new(true);
    assert_eq!(s.text, "");
    assert_eq!(s.goto, Screens::MusicPlayer);
    assert_eq!(s.list, vec![]);
    assert_eq!(s.local, vec![]);
    assert_eq!(s.search_handle, None);
    assert!(s.api);
    assert!(!Search::new(false).api);
    assert_eq!(DEBOUNCE_MS, 300);
    assert_eq!(LOCAL_LIMIT, 100);
}

#[test]
fn a_second_key_inside_the_pause_supersedes_the_first_task() {
    let database = index();
    let mut s = Search::new(true);
    let first = s.on_key_press(Key::Char('a'), None, false, &database);
    assert_eq!(first, KeyOutcome { selection: nothing(), abort: None, start: Some(RemoteTask { task: 1, wait_ms: 300 }) });
    assert_eq!(s.search_handle, Some(1));
    let second = s.on_key_press(Key::Char('b'), None, false, &database);
    assert_eq!(second, KeyOutcome { selection: nothing(), abort: Some(1), start: Some(RemoteTask { task: 2, wait_ms: 300 }) });
    assert_eq!(s.search_handle, Some(2));
    assert_eq!(s.debounce_elapsed(1), None);
    assert_eq!(s.debounce_elapsed(2), Some("ab".to_string()));
    assert_eq!(s.debounce_elapsed(3), None);
}

#[test]
fn the_outcome_of_a_superseded_task_is_dropped() {
    let database = index();
    let mut s = Search::new(true);
    typed(&mut s, "ab", &database);
    let before = s.list.clone();
    let outcome = s.remote_finished(1, Ok((vec![video("X", "Y", "9")], vec![playlist("Mix")])), &database);
    assert_eq!(outcome.expand, vec![]);
    assert_eq!(outcome.log, None::<String>);
    assert_eq!(s.list, before);
    assert_eq!(s.search_handle, Some(2));
    let outcome = s.remote_finished(1, Err::<(Vec<Video>, Vec<Playlist>), _>("late".to_string()), &database);
    assert_eq!(outcome.log, None);
    assert_eq!(s.search_handle, Some(2));
}

#[test]
fn a_failed_search_leaves_the_local_hits_and_one_log_entry() {
    let database = index();
    let mut s = Search::new(true);
    typed(&mut s, "ab", &database);
    let local = vec![
        Status::Local(video("Abba Gold", "Various", "1")),
        Status::Local(video("Blue", "ABBA", "2")),
    ];
    assert_eq!(s.list, local);
    let outcome = s.remote_finished(2, Err::<(Vec<Video>, Vec<Playlist>), _>("no route".to_string()), &database);
    assert_eq!(outcome.log, Some("no route".to_string()));
    assert_eq!(outcome.expand, vec![]);
    assert_eq!(s.list, local);
    assert_eq!(s.search_handle, None);
    let again = s.remote_finished(2, Err::<(Vec<Video>, Vec<Playlist>), _>("no route".to_string()), &database);
    assert_eq!(again.log, None);
    assert_eq!(s.list, local);
}

#[test]
fn a_search_that_succeeds_appends_its_items_to_the_local_hits() {
    let database = index();
    let mut s = Search::new(true);
    typed(&mut s, "cel", &database);
    assert_eq!(s.list, vec![Status::Local(video("Cello", "Bach", "3"))]);
    let outcome = s.remote_finished(
        3,
        Ok::<_, String>((
            vec![video("Cello Suites", "Yo-Yo Ma", "77"), video("Renamed", "Other", "3")],
            vec![playlist("Mix A"), playlist("Mix B")],
        )),
        &database,
    );
    assert_eq!(outcome.log, None);
    assert_eq!(outcome.expand, vec![playlist("Mix A"), playlist("Mix B")]);
    assert_eq!(
        s.list,
        vec![
            Status::Local(video("Cello", "Bach", "3")),
            Status::Unknown(video("Cello Suites", "Yo-Yo Ma", "77")),
            Status::Local(video("Renamed", "Other", "3")),
        ]
    );
    assert_eq!(s.search_handle, None);
}

#[test]
fn a_collection_without_members_gets_no_line() {
    let mut s = Search::new(true);
    assert_eq!(s.playlist_expanded(playlist("Empty"), Ok::<_, String>(vec![])), None);
    assert_eq!(s.list, vec![]);
    assert_eq!(
        s.playlist_expanded(playlist("Full"), Ok::<_, String>(vec![video("a", "b", "c")])),
        None
    );
    assert_eq!(s.list, vec![Status::PlayList(playlist("Full"), vec![video("a", "b", "c")])]);
    assert_eq!(
        s.playlist_expanded(playlist("Broken"), Err::<Vec<Video>, _>("gone".to_string())),
        Some("gone".to_string())
    );
    assert_eq!(s.list.len(), 1);
}

#[test]
fn an_expansion_is_appended_whatever_task_is_in_flight() {
    let database = index();
    let mut s = Search::new(true);
    typed(&mut s, "a", &database);
    s.playlist_expanded(playlist("Late"), Ok::<_, String>(vec![video("a", "b", "c")]));
    assert_eq!(s.list.len(), 4);
    assert_eq!(s.list[3], Status::PlayList(playlist("Late"), vec![video("a", "b", "c")]));
    assert_eq!(s.search_handle, Some(1));
}

#[test]
fn a_new_text_replaces_the_whole_list() {
    let database = index();
    let mut s = Search::new(true);
    typed(&mut s, "a", &database);
    s.playlist_expanded(playlist("Late"), Ok::<_, String>(vec![video("a", "b", "c")]));
    typed(&mut s, "b", &database);
    assert_eq!(
        s.list,
        vec![Status::Local(video("Abba Gold", "Various", "1")), Status::Local(video("Blue", "ABBA", "2"))]
    );
}

#[test]
fn escape_leaves_the_screen() {
    let database = index();
    let mut s = Search::new(true);
    typed(&mut s, "a", &database);
    let line = Status::Local(video("t", "a", "i"));
    for selected in [None, Some(line)] {
        let outcome = s.on_key_press(Key::Esc, selected, false, &database);
        assert_eq!(
            outcome,
            KeyOutcome {
                selection: Selection { play: None, response: EventResponse::ChangeState(Screens::MusicPlayer) },
                abort: None,
                start: None,
            }
        );
    }
    assert_eq!(s.text, "a");
    assert_eq!(s.search_handle, Some(1));
    s.goto = Screens::Playlist;
    let outcome = s.on_key_press(Key::Esc, None, true, &database);
    assert_eq!(outcome.selection.response, EventResponse::ChangeState(Screens::Playlist));
}

#[test]
fn a_key_that_chooses_a_line_does_not_edit_the_text() {
    let database = index();
    let mut s = Search::new(true);
    typed(&mut s, "a", &database);
    let line = Status::Unknown(video("t", "a", "i"));
    let outcome = s.on_key_press(Key::Char('x'), Some(line), false, &database);
    assert_eq!(
        outcome,
        KeyOutcome {
            selection: Selection {
                play: Some(video("t", "a", "i")),
                response: EventResponse::PlayerFrom(Screens::Playlist),
            },
            abort: None,
            start: None,
        }
    );
    assert_eq!(s.text, "a");
    assert_eq!(s.search_handle, Some(1));
}

#[test]
fn the_choice_of_an_item_plays_it() {
    let s = Search::new(true);
    for line in [Status::Local(video("t", "a", "i")), Status::Unknown(video("t", "a", "i"))] {
        assert_eq!(
            s.execute_status(line.clone(), false),
            Selection { play: Some(video("t", "a", "i")), response: EventResponse::PlayerFrom(Screens::Playlist) }
        );
        assert_eq!(
            s.execute_status(line, true),
            Selection { play: Some(video("t", "a", "i")), response: EventResponse::Nothing }
        );
    }
}

#[test]
fn the_choice_of_a_collection_shows_its_members() {
    let s = Search::new(false);
    let members = vec![video("a", "b", "c"), video("d", "e", "f")];
    for control in [false, true] {
        assert_eq!(
            s.execute_status(Status::PlayList(playlist("Mix"), members.clone()), control),
            Selection {
                play: None,
                response: EventResponse::Inspect("Mix".to_string(), Screens::Search, members.clone()),
            }
        );
    }
}

#[test]
fn a_key_that_leaves_the_trimmed_text_alone_starts_nothing() {
    let database = index();
    let mut s = Search::new(true);
    assert_eq!(
        s.on_key_press(Key::Char(' '), None, false, &database),
        KeyOutcome { selection: nothing(), abort: None, start: None }
    );
    assert_eq!(s.text, " ");
    assert_eq!(s.on_key_press(Key::Other, None, false, &database).start, None);
    assert_eq!(s.on_key_press(Key::Backspace, None, false, &database).start, None);
    assert_eq!(s.text, "");
    assert_eq!(s.on_key_press(Key::Delete, None, false, &database).start, None);
    assert_eq!(s.text, "");
    typed(&mut s, "a", &database);
    assert_eq!(
        s.on_key_press(Key::Char(' '), None, false, &database),
        KeyOutcome { selection: nothing(), abort: None, start: None }
    );
    assert_eq!(s.text, "a ");
    assert_eq!(s.search_handle, Some(1));
    assert_eq!(s.debounce_elapsed(1), Some("a+".to_string()));
}

#[test]
fn deleting_edits_the_text_from_its_end() {
    let database = index();
    let mut s = Search::new(true);
    typed(&mut s, "abé", &database);
    assert_eq!(s.text, "abé");
    let outcome = s.on_key_press(Key::Backspace, None, false, &database);
    assert_eq!(outcome, KeyOutcome { selection: nothing(), abort: Some(3), start: Some(RemoteTask { task: 4, wait_ms: 300 }) });
    assert_eq!(s.text, "ab");
    let outcome = s.on_key_press(Key::Delete, None, false, &database);
    assert_eq!(outcome, KeyOutcome { selection: nothing(), abort: Some(4), start: Some(RemoteTask { task: 5, wait_ms: 300 }) });
    assert_eq!(s.text, "a");
}

#[test]
fn without_a_service_no_task_is_started() {
    let database = index();
    let mut s = Search::new(false);
    let outcomes = typed(&mut s, "ce", &database);
    assert!(outcomes.iter().all(|o| o.start.is_none() && o.abort.is_none()));
    assert_eq!(s.search_handle, None);
    assert_eq!(s.list, vec![Status::Local(video("Cello", "Bach", "3"))]);
    assert_eq!(s.debounce_elapsed(0), None);
}

#[test]
fn local_hits_ignore_case_and_look_at_title_and_author() {
    let database = index();
    let titles = |text: &str| -> Vec<String> {
        local_matches(&database, text)
            .into_iter()
            .map(|line| match line {
                Status::Local(v) => v.title,
                _ => unreachable!(),
            })
            .collect()
    };
    assert_eq!(titles("abba"), vec!["Abba Gold", "Blue"]);
    assert_eq!(titles("ABBA"), vec!["Abba Gold", "Blue"]);
    assert_eq!(titles("B"), vec!["Abba Gold", "Blue", "Cello"]);
    assert_eq!(titles("ach"), vec!["Cello"]);
    assert_eq!(titles("zzz"), Vec::<String>::new());
    assert_eq!(titles(""), vec!["Abba Gold", "Blue", "Cello", "Dune"]);
    assert_eq!(titles("abba "), vec!["Abba Gold"]);
    assert_eq!(titles(" abba"), Vec::<String>::new());
}

#[test]
fn local_hits_are_capped() {
    let database: Vec<Video> =
        (0..250).map(|i| video(&format!("Song {}", i), if i % 2 == 0 { "even" } else { "odd" }, &i.to_string())).collect();
    let all = local_matches(&database, "song");
    assert_eq!(all.len(), 100);
    assert_eq!(all[99], Status::Local(video("Song 99", "odd", "99")));
    let even = local_matches(&database, "EVEN");
    assert_eq!(even.len(), 100);
    assert_eq!(even[0], Status::Local(video("Song 0", "even", "0")));
    assert_eq!(even[99], Status::Local(video("Song 198", "even", "198")));
    let few = local_matches(&database, "song 24");
    assert_eq!(few.len(), 11);
}

#[test]
fn an_item_is_local_by_its_identifier() {
    let database = index();
    assert!(is_local(&database, "1"));
    assert!(is_local(&database, "4"));
    assert!(!is_local(&database, "5"));
    assert!(!is_local(&database, ""));
    assert!(!is_local(&vec![], "1"));
}

#[test]
fn a_query_is_held_by_title_or_author() {
    assert!(holds_query("abba gold", "various", "gold"));
    assert!(holds_query("blue", "abba", "bb"));
    assert!(holds_query("blue", "abba", ""));
    assert!(!holds_query("blue", "abba", "Blue"));
    assert!(!holds_query("blue", "abba", "eab"));
    assert!(!holds_query("", "", "a"));
}

#[test]
fn a_line_is_drawn_by_its_kind() {
    let item = video("t", "a", "i");
    assert_eq!(
        Status::Local(item.clone()).render_style(false),
        RenderStyle { style: LineStyle::Next, inverted: false }
    );
    assert_eq!(
        Status::Unknown(item.clone()).render_style(false),
        RenderStyle { style: LineStyle::Downloading, inverted: false }
    );
    assert_eq!(
        Status::Unknown(item.clone()).render_style(true),
        RenderStyle { style: LineStyle::Downloading, inverted: true }
    );
    assert_eq!(
        Status::PlayList(playlist("Mix"), vec![item]).render_style(true),
        RenderStyle { style: LineStyle::Next, inverted: true }
    );
}

#[test]
fn task_numbers_wrap_around() {
    let database = index();
    let mut s = Search::new(true);
    s.started = u64::MAX;
    let outcome = s.on_key_press(Key::Char('a'), None, false, &database);
    assert_eq!(outcome.start, Some(RemoteTask { task: 0, wait_ms: 300 }));
    assert_eq!(s.search_handle, Some(0));
}
