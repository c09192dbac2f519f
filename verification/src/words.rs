//! The words a user asks to have marked in a transcript, and the marking
//! itself.

use vstd::prelude::*;
use vstd::string::*;
use crate::text::{split_on, join_with, lowercase_of, lowercase, split_text, join_text, lemma_join_split};
use crate::markup::screened;
use crate::markup::txt_screening;
use crate::chunks::message_chunks;
use crate::chunks::{message_chunks_spec, concat_all, lemma_chunks_rejoin};

verus! {

/// A set of lowercase words, without repetitions.
#[derive(Debug)]
pub struct WordSet {
    words: Vec<String>,
}

/// The set of words that a message `t` chooses: its pieces between spaces,
/// lowercased.
pub open spec fn word_set_of(t: Seq<char>) -> Set<Seq<char>> {
    split_on(t, ' ').map_values(|w: Seq<char>| lowercase_of(w)).to_set()
}

impl Clone for WordSet {
    /// A second set with the same words.
    fn clone(&self) -> (r: Self)
        ensures
            r@ == self@,
    {
        self.copied()
    }
}

impl View for WordSet {
    type V = Set<Seq<char>>;

    closed spec fn view(&self) -> Set<Seq<char>> {
        self.words@.map_values(|w: String| w@).to_set()
    }
}

impl WordSet {
    #[verifier::type_invariant]
    closed spec fn no_repeats(self) -> bool {
        self.words@.map_values(|w: String| w@).no_duplicates()
    }

    /// The empty set.
    pub fn new() -> (r: WordSet)
        ensures
            r@ == Set::<Seq<char>>::empty(),
    {
        let r = WordSet { words: Vec::new() };
        assert(r.words@.map_values(|w: String| w@) =~= Seq::<Seq<char>>::empty());
        r
    }

    /// Whether `word` is in the set.
    pub fn contains(&self, word: &str) -> (b: bool)
        ensures
            b == self@.contains(word@),
    {
        let ghost views = self.words@.map_values(|w: String| w@);
        let target = String::from_str(word);
        for k in 0..self.words.len()
            invariant
                views == self.words@.map_values(|w: String| w@),
                target@ == word@,
                forall|j: int| 0 <= j < k ==> views[j] != word@,
        {
            if self.words[k] == target {
                assert(views[k as int] == word@);
                assert(views.to_set().contains(word@));
                return true;
            }
        }
        assert(!views.contains(word@));
        false
    }

    /// Adds `word` to the set.
    pub fn insert(&mut self, word: String)
        ensures
            final(self)@ == old(self)@.insert(word@),
    {
        proof {
            use_type_invariant(&*self);
        }
        if !self.contains(word.as_str()) {
            let ghost before = self.words@.map_values(|w: String| w@);
            let ghost wv = word@;
            let mut taken = WordSet::new();
            std::mem::swap(self, &mut taken);
            let mut words = taken.words;
            words.push(word);
            proof {
                assert(words@.map_values(|w: String| w@) =~= before.push(wv));
            }
            *self = WordSet { words };
            proof {
                assert(self.words@.map_values(|w: String| w@) =~= before.push(wv));
                before.lemma_push_to_set_commute(wv);
                assert(!before.contains(wv));
            }
        } else {
            assert(old(self)@.insert(word@) =~= old(self)@);
        }
    }

    /// A second set with the same words.
    pub fn copied(&self) -> (r: WordSet)
        ensures
            r@ == self@,
    {
        proof {
            use_type_invariant(self);
        }
        let mut words: Vec<String> = Vec::new();
        for k in 0..self.words.len()
            invariant
                words@.map_values(|w: String| w@) == self.words@.map_values(|w: String| w@).take(
                    k as int,
                ),
        {
            let ghost before = words@.map_values(|w: String| w@);
            words.push(self.words[k].clone());
            assert(words@.map_values(|w: String| w@) =~= before.push(self.words@[k as int]@));
            assert(self.words@.map_values(|w: String| w@).take(k + 1) =~= self.words@.map_values(
                |w: String| w@,
            ).take(k as int).push(self.words@[k as int]@));
        }
        assert(self.words@.map_values(|w: String| w@).take(self.words.len() as int)
            =~= self.words@.map_values(|w: String| w@));
        WordSet { words }
    }

    /// The words that the message `txt` chooses: its pieces between single
    /// spaces, each lowercased, repetitions dropped.
    pub fn from_text(txt: &str) -> (r: WordSet)
        ensures
            r@ == word_set_of(txt@),
    {
        let parts = split_text(txt, ' ');
        let ghost views = parts@.map_values(|p: String| p@);
        let mut set = WordSet::new();
        for k in 0..parts.len()
            invariant
                views == parts@.map_values(|p: String| p@),
                set@ == views.take(k as int).map_values(|w: Seq<char>| lowercase_of(w)).to_set(),
        {
            let word = lowercase(parts[k].as_str());
            let ghost before = views.take(k as int).map_values(|w: Seq<char>| lowercase_of(w));
            set.insert(word);
            proof {
                assert(views.take(k + 1).map_values(|w: Seq<char>| lowercase_of(w)) =~= before.push(
                    lowercase_of(views[k as int]),
                ));
                before.lemma_push_to_set_commute(lowercase_of(views[k as int]));
            }
        }
        assert(views.take(parts.len() as int) =~= views);
        set
    }
}

/// What a word of the transcript becomes: wrapped in double underscores
/// when its lowercase form is one of the chosen words, unchanged otherwise.
pub open spec fn marked(w: Seq<char>, words: Set<Seq<char>>) -> Seq<char> {
    if words.contains(lowercase_of(w)) {
        "__"@ + w + "__"@
    } else {
        w
    }
}

/// The transcript `s` with the chosen words marked; words are the pieces
/// between single spaces, and the spaces stay as they were.
pub open spec fn highlighted(s: Seq<char>, words: Set<Seq<char>>) -> Seq<char> {
    join_with(split_on(s, ' ').map_values(|w: Seq<char>| marked(w, words)), ' ')
}

/// What the word `word`, whose lowercase form is `lowered`, becomes:
/// wrapped in double underscores when `lowered` is one of the chosen words,
/// unchanged otherwise.
pub fn mark_word(word: &str, lowered: &str, words: &WordSet) -> (r: String)
    ensures
        r@ == (if words@.contains(lowered@) {
            "__"@ + word@ + "__"@
        } else {
            word@
        }),
{
    if words.contains(lowered) {
        let mut m = String::from_str("__");
        m.append(word);
        m.append("__");
        m
    } else {
        String::from_str(word)
    }
}

/// Marks the chosen words in `resp` (underlined in MarkdownV2).
pub fn highlight_words(resp: &str, words: &WordSet) -> (res: String)
    ensures
        res@ == highlighted(resp@, words@),
{
    let parts = split_text(resp, ' ');
    let ghost views = parts@.map_values(|p: String| p@);
    let mut out: Vec<String> = Vec::new();
    for k in 0..parts.len()
        invariant
            views == parts@.map_values(|p: String| p@),
            out@.map_values(|p: String| p@) == views.take(k as int).map_values(
                |w: Seq<char>| marked(w, words@),
            ),
    {
        let ghost before = out@.map_values(|p: String| p@);
        let lw = lowercase(parts[k].as_str());
        let piece = mark_word(parts[k].as_str(), lw.as_str(), words);
        assert(piece@ == marked(views[k as int], words@));
        out.push(piece);
        assert(out@.map_values(|p: String| p@) =~= before.push(marked(views[k as int], words@)));
        assert(views.take(k + 1).map_values(|w: Seq<char>| marked(w, words@)) =~= views.take(
            k as int,
        ).map_values(|w: Seq<char>| marked(w, words@)).push(marked(views[k as int], words@)));
    }
    assert(views.take(parts.len() as int) =~= views);
    join_text(&out, ' ')
}

/// When no word of `s` is chosen, marking leaves `s` as it is; in
/// particular with no chosen words at all.
pub proof fn lemma_highlight_nothing_chosen(s: Seq<char>, words: Set<Seq<char>>)
    requires
        forall|i: int|
            0 <= i < split_on(s, ' ').len() ==> !words.contains(
                lowercase_of(#[trigger] split_on(s, ' ')[i]),
            ),
    ensures
        highlighted(s, words) == s,
{
    let parts = split_on(s, ' ');
    assert(parts.map_values(|w: Seq<char>| marked(w, words)) =~= parts);
    lemma_join_split(s, ' ');
}

/// The messages a transcript is sent back as: screened, with the chosen
/// words marked when there are any, cut into Telegram-sized pieces.
pub open spec fn transcript_messages(resp: Seq<char>, words: Option<Set<Seq<char>>>) -> Seq<
    Seq<char>,
> {
    let text = match words {
        Some(w) => highlighted(screened(resp), w),
        None => screened(resp),
    };
    message_chunks_spec(text)
}

/// The messages that the transcript `resp` is sent back as.
pub fn render_transcript(resp: &str, words: Option<&WordSet>) -> (msgs: Vec<String>)
    ensures
        msgs@.map_values(|m: String| m@) == transcript_messages(
            resp@,
            match words {
                Some(w) => Some(w@),
                None => None,
            },
        ),
{
    let safe = txt_screening(resp);
    match words {
        Some(w) => {
            let marked_text = highlight_words(safe.as_str(), w);
            message_chunks(marked_text.as_str())
        },
        None => message_chunks(safe.as_str()),
    }
}

/// The messages of a transcript, put back together, are the whole screened
/// (and, with chosen words, marked) transcript.
pub proof fn lemma_transcript_rejoins(resp: Seq<char>, words: Option<Set<Seq<char>>>)
    ensures
        concat_all(transcript_messages(resp, words)) == match words {
            Some(w) => highlighted(screened(resp), w),
            None => screened(resp),
        },
{
    match words {
        Some(w) => lemma_chunks_rejoin(highlighted(screened(resp), w)),
        None => lemma_chunks_rejoin(screened(resp)),
    }
}

} // verus!
