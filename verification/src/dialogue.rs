//! The bot's conversation: what it does with each incoming message, given
//! the state the chat is in.

use vstd::prelude::*;
use vstd::string::*;
use crate::text::same_text;
use crate::words::{WordSet, word_set_of};
use crate::fetch::{Source, SourceView};

verus! {

/// Asks the user for the words to mark.
pub const SELECT_WORDS_PROMPT: &'static str = "Скинь список слов, разделенных пробелом, которые я потом выделю в тексте";

/// Greets the user and says what the bot does.
pub const START_GREETING: &'static str = "Отправь мне гс/кружок/аудиофайл/видеофайл/ссылку на видео из VK/YouTube, а я переведу речь из видео в текст";

/// Sent once the words to mark have been chosen.
pub const HIGHLIGHT_PROMPT: &'static str = "Отправь мне гс/видеофайл ссылку на видео из VK/YouTube, а я переведу речь из видео в текст и выделю твои слова";

/// Sent when the user leaves word marking.
pub const HIGHLIGHT_LEFT: &'static str = "Отправь мне ссылку на видео из VK/YouTube, а я переведу речь из видео в текст";

/// Sent after each transcript with marked words.
pub const HIGHLIGHT_AGAIN: &'static str = "Отправь мне гс/кружок/аудиофайл/видеофайл/ссылку на видео из VK/YouTube, а я переведу речь в текст и выделю твои слова";

/// The command that starts choosing words.
pub const SELECT_WORDS_COMMAND: &'static str = "/select_words";

/// The button that starts choosing words.
pub const SELECT_WORDS_BUTTON: &'static str = "Выбрать слова";

/// The command that shows the greeting.
pub const START_COMMAND: &'static str = "/start";

/// The button that goes back to the start.
pub const BACK_BUTTON: &'static str = "Назад";

/// Something the user sent earlier for word marking.
#[derive(Clone, Debug)]
pub enum Data {
    Url(String),
    FileId(String),
}

/// The state of a chat.
#[derive(Clone, Debug)]
pub enum State {
    /// Plain transcription.
    Start,
    /// Waiting for the words to mark.
    SelectWords,
    /// Transcribing with the chosen words marked.
    WordsHighlight { words_list: WordSet },
    /// Marking words in something sent earlier.
    HighlightWords { data: Data },
}

impl Default for State {
    fn default() -> (s: State)
        ensures
            s == State::Start,
    {
        State::Start
    }
}

/// The reply keyboards the bot shows.
#[derive(Clone, Copy, Debug, PartialEq, Eq, Structural)]
pub enum Keyboard {
    /// Shown at the start: a button to choose words.
    Start,
    /// Shown while choosing words: a button to go back.
    SelectWords,
}

/// `Data` as a value of specifications.
pub enum DataView {
    Url(Seq<char>),
    FileId(Seq<char>),
}

/// `State` as a value of specifications.
pub enum StateView {
    Start,
    SelectWords,
    WordsHighlight { words: Set<Seq<char>> },
    HighlightWords { data: DataView },
}

impl View for Data {
    type V = DataView;

    open spec fn view(&self) -> DataView {
        match self {
            Data::Url(u) => DataView::Url(u@),
            Data::FileId(f) => DataView::FileId(f@),
        }
    }
}

impl View for State {
    type V = StateView;

    open spec fn view(&self) -> StateView {
        match self {
            State::Start => StateView::Start,
            State::SelectWords => StateView::SelectWords,
            State::WordsHighlight { words_list } => StateView::WordsHighlight { words: words_list@ },
            State::HighlightWords { data } => StateView::HighlightWords { data: data@ },
        }
    }
}

/// One step of handling a message; the steps run in order, and a failing
/// step ends the handling.
#[derive(Clone, Debug)]
pub enum Action {
    /// Move the chat to this state.
    SetState(State),
    /// Send this text, with this reply keyboard if there is one.
    Send { text: String, keyboard: Option<Keyboard> },
    /// Transcribe what the user asked for and send the transcript back,
    /// with these words marked if there are any.
    Transcribe { source: Source, words: Option<WordSet> },
}

/// `Action` as a value of specifications.
pub enum ActionView {
    SetState(StateView),
    Send { text: Seq<char>, keyboard: Option<Keyboard> },
    Transcribe { source: SourceView, words: Option<Set<Seq<char>>> },
}

impl View for Action {
    type V = ActionView;

    open spec fn view(&self) -> ActionView {
        match self {
            Action::SetState(s) => ActionView::SetState(s@),
            Action::Send { text, keyboard } => ActionView::Send { text: text@, keyboard: *keyboard },
            Action::Transcribe { source, words } => ActionView::Transcribe {
                source: source@,
                words: match words {
                    Some(w) => Some(w@),
                    None => None,
                },
            },
        }
    }
}

/// The text of a message, if it has one.
pub open spec fn text_view(text: Option<&str>) -> Option<Seq<char>> {
    match text {
        Some(t) => Some(t@),
        None => None,
    }
}

/// What the bot does with a message whose text is `text` (none for a
/// message without text) in a chat in state `state`.
pub open spec fn next_actions(state: StateView, text: Option<Seq<char>>) -> Seq<ActionView> {
    match state {
        StateView::Start => match text {
            None => seq![ActionView::Transcribe { source: SourceView::File, words: None }],
            Some(t) => if t == SELECT_WORDS_COMMAND@ || t == SELECT_WORDS_BUTTON@ {
                seq![
                    ActionView::SetState(StateView::SelectWords),
                    ActionView::Send {
                        text: SELECT_WORDS_PROMPT@,
                        keyboard: Some(Keyboard::SelectWords),
                    },
                ]
            } else if t == START_COMMAND@ {
                seq![ActionView::Send { text: START_GREETING@, keyboard: Some(Keyboard::Start) }]
            } else {
                seq![ActionView::Transcribe { source: SourceView::Link(t), words: None }]
            },
        },
        StateView::SelectWords => match text {
            None => seq![ActionView::Send { text: SELECT_WORDS_PROMPT@, keyboard: None }],
            Some(t) => if t == BACK_BUTTON@ {
                seq![
                    ActionView::SetState(StateView::Start),
                    ActionView::Send { text: START_GREETING@, keyboard: Some(Keyboard::Start) },
                ]
            } else {
                seq![
                    ActionView::Send { text: HIGHLIGHT_PROMPT@, keyboard: None },
                    ActionView::SetState(StateView::WordsHighlight { words: word_set_of(t) }),
                ]
            },
        },
        StateView::WordsHighlight { words } => {
            if text == Some(BACK_BUTTON@) {
                seq![
                    ActionView::SetState(StateView::Start),
                    ActionView::Send { text: HIGHLIGHT_LEFT@, keyboard: Some(Keyboard::Start) },
                ]
            } else {
                let source = match text {
                    Some(t) => SourceView::Link(t),
                    None => SourceView::File,
                };
                seq![
                    ActionView::Transcribe { source, words: Some(words) },
                    ActionView::Send { text: HIGHLIGHT_AGAIN@, keyboard: None },
                    ActionView::SetState(StateView::WordsHighlight { words }),
                ]
            }
        },
        StateView::HighlightWords { .. } => Seq::empty(),
    }
}

fn send(text: &str, keyboard: Option<Keyboard>) -> (a: Action)
    ensures
        a@ == (ActionView::Send { text: text@, keyboard }),
{
    Action::Send { text: String::from_str(text), keyboard }
}

/// Decides what to do with a message whose text is `text` (none for a
/// message without text, such as a voice note) in a chat in state `state`.
pub fn handle_message(state: &State, text: Option<&str>) -> (actions: Vec<Action>)
    ensures
        actions@.map_values(|a: Action| a@) == next_actions(state@, text_view(text)),
{
    let mut actions: Vec<Action> = Vec::new();
    match state {
        State::Start => match text {
            None => {
                actions.push(Action::Transcribe { source: Source::File, words: None });
            },
            Some(t) => {
                if same_text(t, SELECT_WORDS_COMMAND) || same_text(t, SELECT_WORDS_BUTTON) {
                    actions.push(Action::SetState(State::SelectWords));
                    actions.push(send(SELECT_WORDS_PROMPT, Some(Keyboard::SelectWords)));
                } else if same_text(t, START_COMMAND) {
                    actions.push(send(START_GREETING, Some(Keyboard::Start)));
                } else {
                    actions.push(
                        Action::Transcribe { source: Source::Link(String::from_str(t)), words: None },
                    );
                }
            },
        },
        State::SelectWords => match text {
            None => {
                actions.push(send(SELECT_WORDS_PROMPT, None));
            },
            Some(t) => {
                if same_text(t, BACK_BUTTON) {
                    actions.push(Action::SetState(State::Start));
                    actions.push(send(START_GREETING, Some(Keyboard::Start)));
                } else {
                    let words_list = WordSet::from_text(t);
                    actions.push(send(HIGHLIGHT_PROMPT, None));
                    actions.push(Action::SetState(State::WordsHighlight { words_list }));
                }
            },
        },
        State::WordsHighlight { words_list } => {
            let back = match text {
                Some(t) => same_text(t, BACK_BUTTON),
                None => false,
            };
            if back {
                actions.push(Action::SetState(State::Start));
                actions.push(send(HIGHLIGHT_LEFT, Some(Keyboard::Start)));
            } else {
                let source = match text {
                    Some(t) => Source::Link(String::from_str(t)),
                    None => Source::File,
                };
                actions.push(Action::Transcribe { source, words: Some(words_list.clone()) });
                actions.push(send(HIGHLIGHT_AGAIN, None));
                actions.push(
                    Action::SetState(State::WordsHighlight { words_list: words_list.clone() }),
                );
            }
        },
        State::HighlightWords { .. } => {},
    }
    assert(actions@.map_values(|a: Action| a@) =~= next_actions(state@, text_view(text)));
    actions
}

/// The buttons of `keyboard`, row by row.
pub open spec fn keyboard_rows(keyboard: Keyboard) -> Seq<Seq<Seq<char>>> {
    match keyboard {
        Keyboard::Start => seq![seq![SELECT_WORDS_BUTTON@]],
        Keyboard::SelectWords => seq![seq![BACK_BUTTON@]],
    }
}

impl Keyboard {
    /// The labels of the keyboard's buttons, row by row.
    pub fn rows(&self) -> (rows: Vec<Vec<String>>)
        ensures
            rows@.map_values(|r: Vec<String>| r@.map_values(|b: String| b@)) == keyboard_rows(
                *self,
            ),
    {
        let label = match self {
            Keyboard::Start => String::from_str(SELECT_WORDS_BUTTON),
            Keyboard::SelectWords => String::from_str(BACK_BUTTON),
        };
        let mut row: Vec<String> = Vec::new();
        row.push(label);
        let mut rows: Vec<Vec<String>> = Vec::new();
        rows.push(row);
        assert(rows@[0]@.map_values(|b: String| b@) =~= keyboard_rows(*self)[0]);
        assert(rows@.map_values(|r: Vec<String>| r@.map_values(|b: String| b@)) =~= keyboard_rows(
            *self,
        ));
        rows
    }
}

/// The state a chat is in after `actions` have run in state `state`: the
/// last state they set, or `state` when they set none.
pub open spec fn state_after(actions: Seq<ActionView>, state: StateView) -> StateView
    decreases actions.len(),
{
    if actions.len() == 0 {
        state
    } else {
        match actions.last() {
            ActionView::SetState(s) => s,
            _ => state_after(actions.drop_last(), state),
        }
    }
}

/// The state a chat in state `state` is in once a message with text `text`
/// has been handled.
pub open spec fn next_state(state: StateView, text: Option<Seq<char>>) -> StateView {
    state_after(next_actions(state, text), state)
}

/// "Назад" leads back to the start, from choosing words and from marking
/// them.
pub proof fn lemma_back_goes_to_start(state: StateView)
    requires
        state is SelectWords || state is WordsHighlight,
    ensures
        next_state(state, Some(BACK_BUTTON@)) == StateView::Start,
{
    reveal_with_fuel(state_after, 3);
}

/// While words are being marked, every message other than "Назад" is
/// transcribed with the chosen words marked, and the chosen words stay.
pub proof fn lemma_chosen_words_kept(words: Set<Seq<char>>, text: Option<Seq<char>>)
    requires
        text != Some(BACK_BUTTON@),
    ensures
        next_state(StateView::WordsHighlight { words }, text) == (StateView::WordsHighlight {
            words,
        }),
        next_actions(StateView::WordsHighlight { words }, text)[0] matches ActionView::Transcribe {
            words: w,
            ..
        } && w == Some(words),
{
}

/// While words are being marked, what gets transcribed is what the message
/// carries: the text of a message with text (other than "Назад") as a link,
/// and the attached file of a message without text; the chosen words are
/// marked in it.
pub proof fn lemma_marking_transcribes_what_was_sent(words: Set<Seq<char>>, text: Option<Seq<char>>)
    requires
        text != Some(BACK_BUTTON@),
    ensures
        next_actions(StateView::WordsHighlight { words }, text).len() == 3,
        match text {
            Some(t) => next_actions(StateView::WordsHighlight { words }, text)[0] == (
            ActionView::Transcribe { source: SourceView::Link(t), words: Some(words) }),
            None => next_actions(StateView::WordsHighlight { words }, text)[0] == (
            ActionView::Transcribe { source: SourceView::File, words: Some(words) }),
        },
        next_actions(StateView::WordsHighlight { words }, text)[1] == (ActionView::Send {
            text: HIGHLIGHT_AGAIN@,
            keyboard: None,
        }),
        next_actions(StateView::WordsHighlight { words }, text)[2] == ActionView::SetState(
            StateView::WordsHighlight { words },
        ),
{
}

/// "Назад" is answered, not only obeyed: while choosing words it moves the
/// chat to the start and then sends the greeting with the start keyboard;
/// while marking words it moves the chat to the start and then says what
/// the bot does now, with the start keyboard.
pub proof fn lemma_back_is_answered(words: Set<Seq<char>>)
    ensures
        next_actions(StateView::SelectWords, Some(BACK_BUTTON@)) == seq![
            ActionView::SetState(StateView::Start),
            ActionView::Send { text: START_GREETING@, keyboard: Some(Keyboard::Start) },
        ],
        next_actions(StateView::WordsHighlight { words }, Some(BACK_BUTTON@)) == seq![
            ActionView::SetState(StateView::Start),
            ActionView::Send { text: HIGHLIGHT_LEFT@, keyboard: Some(Keyboard::Start) },
        ],
{
}

/// At the start, every message other than the two ways of choosing words
/// leaves the chat at the start.
pub proof fn lemma_start_stays(text: Option<Seq<char>>)
    requires
        text != Some(SELECT_WORDS_COMMAND@),
        text != Some(SELECT_WORDS_BUTTON@),
    ensures
        next_state(StateView::Start, text) == StateView::Start,
{
    reveal_with_fuel(state_after, 3);
}

/// Choosing words from the start, then sending the list `t`, makes the
/// words of `t` (lowercased) the ones that get marked.
pub proof fn lemma_choose_words(command: Seq<char>, t: Seq<char>)
    requires
        command == SELECT_WORDS_COMMAND@ || command == SELECT_WORDS_BUTTON@,
        t != BACK_BUTTON@,
    ensures
        next_state(StateView::Start, Some(command)) == StateView::SelectWords,
        next_state(next_state(StateView::Start, Some(command)), Some(t)) == (
        StateView::WordsHighlight { words: word_set_of(t) }),
{
    reveal_with_fuel(state_after, 3);
}

/// The button of each keyboard does what it says in the state the
/// keyboard is shown in: at the start it begins choosing words, while
/// choosing words it goes back.
pub proof fn lemma_keyboard_buttons()
    ensures
        next_state(StateView::Start, Some(keyboard_rows(Keyboard::Start)[0][0]))
            == StateView::SelectWords,
        next_state(StateView::SelectWords, Some(keyboard_rows(Keyboard::SelectWords)[0][0]))
            == StateView::Start,
{
    reveal_with_fuel(state_after, 3);
}

} // verus!
