use votrans::dialogue::{
    handle_message, Action, Keyboard, State, BACK_BUTTON, HIGHLIGHT_AGAIN, HIGHLIGHT_LEFT,
    HIGHLIGHT_PROMPT, SELECT_WORDS_BUTTON, SELECT_WORDS_COMMAND, SELECT_WORDS_PROMPT,
    START_COMMAND, START_GREETING, Data,
};
use votrans::fetch::{
    fetch_plan, file_id_of, file_tt_url, is_supported_url, url_tt_url, Fetch, MessageMedia,
    Source, MEDIA_HINT, NOT_A_LINK,
};
use votrans::words::{highlight_words, mark_word, render_transcript, WordSet};

fn state_after(state: State, text: Option<&str>) -> State {
    let mut s = state.clone();
    for a in handle_message(&state, text) {
        if let Action::SetState(next) = a {
            s = next;
        }
    }
    s
}

#[test]
fn words_are_chosen_lowercase_without_repeats() {
    let w = WordSet::from_text("Привет Мир привет");
    assert!(w.contains("привет"));
    assert!(w.contains("мир"));
    assert!(!w.contains("Привет"));
    assert!(!w.contains("пока"));
}

#[test]
fn inserting_twice_keeps_one_word() {
    let mut w = WordSet::new();
    w.insert("a".to_string());
    w.insert("a".to_string());
    assert!(w.contains("a"));
    let c = w.clone();
    assert!(c.contains("a"));
    assert!(!c.contains("b"));
}

#[test]
fn chosen_words_are_marked_whatever_their_case() {
    let w = WordSet::from_text("world");
    assert_eq!(highlight_words("hello World x", &w), "hello __World__ x");
}

#[test]
fn nothing_chosen_leaves_the_text() {
    let w = WordSet::new();
    assert_eq!(highlight_words("a  b ", &w), "a  b ");
    let v = WordSet::from_text("zzz");
    assert_eq!(highlight_words("один два", &v), "один два");
}

#[test]
fn transcript_is_screened_then_marked() {
    let w = WordSet::from_text("мир мир.");
    let msgs = render_transcript("мир мир. тест", Some(&w));
    assert_eq!(msgs, vec!["__мир__ мир\\. тест".to_string()]);
    let plain = render_transcript("мир.", None);
    assert_eq!(plain, vec!["мир\\.".to_string()]);
}

#[test]
fn supported_links() {
    assert!(is_supported_url("https://www.youtube.com/watch?v=x"));
    assert!(is_supported_url("https://youtu.be/x"));
    assert!(is_supported_url("https://vk.com/video1"));
    assert!(!is_supported_url("https://example.org"));
}

#[test]
fn files_that_can_be_transcribed() {
    let id = |m: MessageMedia| file_id_of(&m);
    assert_eq!(id(MessageMedia::Video { file_id: "v".into() }), Some("v".to_string()));
    assert_eq!(id(MessageMedia::Voice { file_id: "o".into() }), Some("o".to_string()));
    assert_eq!(id(MessageMedia::Document { file_id: "d".into() }), Some("d".to_string()));
    assert_eq!(id(MessageMedia::Audio { file_id: "a".into() }), Some("a".to_string()));
    assert_eq!(id(MessageMedia::VideoNote { file_id: "n".into() }), Some("n".to_string()));
    assert_eq!(id(MessageMedia::Other), None);
    assert_eq!(id(MessageMedia::NotCommon), None);
}

#[test]
fn fetch_plans_and_their_refusals() {
    let media = MessageMedia::Voice { file_id: "f1".into() };
    match fetch_plan(&Source::File, &media) {
        Ok(Fetch::File(id)) => assert_eq!(id, "f1"),
        other => panic!("{other:?}"),
    }
    match fetch_plan(&Source::File, &MessageMedia::Other) {
        Err(reply) => assert_eq!(reply, MEDIA_HINT),
        other => panic!("{other:?}"),
    }
    match fetch_plan(&Source::Link("https://youtu.be/q".into()), &MessageMedia::Other) {
        Ok(Fetch::Link(u)) => assert_eq!(u, "https://youtu.be/q"),
        other => panic!("{other:?}"),
    }
    match fetch_plan(&Source::Link("hello".into()), &media) {
        Err(reply) => assert_eq!(reply, NOT_A_LINK),
        other => panic!("{other:?}"),
    }
}

#[test]
fn server_routes() {
    assert_eq!(url_tt_url("8080"), "http://127.0.0.1:8080/url_tt");
    assert_eq!(file_tt_url("8080"), "http://localhost:8080/file_tt");
}

#[test]
fn start_transcribes_files_and_links() {
    let a = handle_message(&State::Start, None);
    assert_eq!(a.len(), 1);
    assert!(matches!(&a[0], Action::Transcribe { source: Source::File, words: None }));
    let b = handle_message(&State::Start, Some("https://youtu.be/x"));
    assert_eq!(b.len(), 1);
    match &b[0] {
        Action::Transcribe { source: Source::Link(u), words: None } => {
            assert_eq!(u, "https://youtu.be/x")
        }
        other => panic!("{other:?}"),
    }
}

#[test]
fn start_command_greets() {
    let a = handle_message(&State::Start, Some(START_COMMAND));
    assert_eq!(a.len(), 1);
    match &a[0] {
        Action::Send { text, keyboard } => {
            assert_eq!(text, START_GREETING);
            assert_eq!(*keyboard, Some(Keyboard::Start));
        }
        other => panic!("{other:?}"),
    }
    assert!(matches!(state_after(State::Start, Some(START_COMMAND)), State::Start));
}

#[test]
fn choosing_words_from_the_start() {
    for cmd in [SELECT_WORDS_COMMAND, SELECT_WORDS_BUTTON] {
        let a = handle_message(&State::Start, Some(cmd));
        assert_eq!(a.len(), 2);
        assert!(matches!(&a[0], Action::SetState(State::SelectWords)));
        match &a[1] {
            Action::Send { text, keyboard } => {
                assert_eq!(text, SELECT_WORDS_PROMPT);
                assert_eq!(*keyboard, Some(Keyboard::SelectWords));
            }
            other => panic!("{other:?}"),
        }
    }
}

#[test]
fn sending_the_word_list() {
    let a = handle_message(&State::SelectWords, Some("Кот пёс"));
    assert_eq!(a.len(), 2);
    match &a[0] {
        Action::Send { text, keyboard } => {
            assert_eq!(text, HIGHLIGHT_PROMPT);
            assert_eq!(*keyboard, None);
        }
        other => panic!("{other:?}"),
    }
    match &a[1] {
        Action::SetState(State::WordsHighlight { words_list }) => {
            assert!(words_list.contains("кот"));
            assert!(words_list.contains("пёс"));
        }
        other => panic!("{other:?}"),
    }
}

#[test]
fn select_words_without_text_asks_again() {
    let a = handle_message(&State::SelectWords, None);
    assert_eq!(a.len(), 1);
    match &a[0] {
        Action::Send { text, keyboard } => {
            assert_eq!(text, SELECT_WORDS_PROMPT);
            assert_eq!(*keyboard, None);
        }
        other => panic!("{other:?}"),
    }
}

#[test]
fn back_leads_to_the_start() {
    assert!(matches!(state_after(State::SelectWords, Some(BACK_BUTTON)), State::Start));
    let marking = State::WordsHighlight { words_list: WordSet::from_text("a") };
    let a = handle_message(&marking, Some(BACK_BUTTON));
    match &a[1] {
        Action::Send { text, keyboard } => {
            assert_eq!(text, HIGHLIGHT_LEFT);
            assert_eq!(*keyboard, Some(Keyboard::Start));
        }
        other => panic!("{other:?}"),
    }
    assert!(matches!(state_after(marking, Some(BACK_BUTTON)), State::Start));
}

#[test]
fn chosen_words_stay_while_marking() {
    let marking = State::WordsHighlight { words_list: WordSet::from_text("слово") };
    for text in [None, Some("https://vk.com/v")] {
        let a = handle_message(&marking, text);
        assert_eq!(a.len(), 3);
        match &a[0] {
            Action::Transcribe { words: Some(w), .. } => assert!(w.contains("слово")),
            other => panic!("{other:?}"),
        }
        match &a[1] {
            Action::Send { text, .. } => assert_eq!(text, HIGHLIGHT_AGAIN),
            other => panic!("{other:?}"),
        }
        match state_after(marking.clone(), text) {
            State::WordsHighlight { words_list } => assert!(words_list.contains("слово")),
            other => panic!("{other:?}"),
        }
    }
}

#[test]
fn whole_word_choosing_flow() {
    let s1 = state_after(State::Start, Some(SELECT_WORDS_BUTTON));
    assert!(matches!(s1, State::SelectWords));
    match state_after(s1, Some("Один ДВА")) {
        State::WordsHighlight { words_list } => {
            assert!(words_list.contains("один"));
            assert!(words_list.contains("два"));
        }
        other => panic!("{other:?}"),
    }
}

#[test]
fn earlier_data_is_not_handled() {
    let s = State::HighlightWords { data: Data::Url("u".into()) };
    assert!(handle_message(&s, Some("x")).is_empty());
    assert!(matches!(State::default(), State::Start));
}

#[test]
fn keyboard_buttons_do_what_they_say() {
    let start_rows = Keyboard::Start.rows();
    assert_eq!(start_rows, vec![vec![SELECT_WORDS_BUTTON.to_string()]]);
    assert!(matches!(state_after(State::Start, Some(&start_rows[0][0])), State::SelectWords));
    let back_rows = Keyboard::SelectWords.rows();
    assert_eq!(back_rows, vec![vec![BACK_BUTTON.to_string()]]);
    assert!(matches!(state_after(State::SelectWords, Some(&back_rows[0][0])), State::Start));
}

#[test]
fn one_word_is_marked_by_its_lowercase_form() {
    let w = WordSet::from_text("кот");
    assert_eq!(mark_word("КОТ", "кот", &w), "__КОТ__");
    assert_eq!(mark_word("кот.", "кот.", &w), "кот.");
    assert_eq!(highlight_words("Кот кот. КОТ", &w), "__Кот__ кот. __КОТ__");
}
