//! Escaping of transcripts before they are sent with Telegram's MarkdownV2
//! parse mode.

use vstd::prelude::*;

verus! {

/// The characters that the screening puts a backslash in front of.
pub open spec fn is_markup_char(c: char) -> bool {
    c == '_' || c == '*' || c == ',' || c == '[' || c == ']' || c == '(' || c == '~'
        || c == '`' || c == '>' || c == '#' || c == '+' || c == '-' || c == '=' || c == '|'
        || c == '{' || c == '}' || c == '.' || c == '!'
}

/// What one character of the input becomes: a markup character is preceded
/// by a backslash (an opening round bracket comes out as `\)`), every other
/// character is kept.
pub open spec fn escape_char(c: char) -> Seq<char> {
    if c == '(' {
        seq!['\\', ')']
    } else if is_markup_char(c) {
        seq!['\\', c]
    } else {
        seq![c]
    }
}

/// The screened form of `s`: each character replaced by its escape.
pub open spec fn screened(s: Seq<char>) -> Seq<char>
    decreases s.len(),
{
    if s.len() == 0 {
        Seq::empty()
    } else {
        screened(s.drop_last()) + escape_char(s.last())
    }
}

fn is_markup(c: char) -> (b: bool)
    ensures
        b == is_markup_char(c),
{
    c == '_' || c == '*' || c == ',' || c == '[' || c == ']' || c == '(' || c == '~' || c
        == '`' || c == '>' || c == '#' || c == '+' || c == '-' || c == '=' || c == '|' || c
        == '{' || c == '}' || c == '.' || c == '!'
}

/// Escapes the characters that MarkdownV2 treats as markup, so that a
/// transcript is shown as plain text.
pub fn txt_screening(txt: &str) -> (res: String)
    ensures
        res@ == screened(txt@),
{
    let ghost s = txt@;
    let mut res = String::new();
    for c in it: txt.chars()
        invariant
            it.seq() == s,
            res@ == screened(s.take(it.index() as int)),
    {
        let ghost i = it.index() as int;
        proof {
            assert(s.take(i + 1).drop_last() == s.take(i));
            assert(s.take(i + 1).last() == c);
        }
        if c == '(' {
            res.push('\\');
            res.push(')');
        } else if is_markup(c) {
            res.push('\\');
            res.push(c);
        } else {
            res.push(c);
        }
        assert(res@ == screened(s.take(i)) + escape_char(c));
    }
    assert(s.take(s.len() as int) == s);
    res
}

/// Screening works character by character: screening a concatenation is
/// the concatenation of the screened parts.
pub proof fn lemma_screened_concat(a: Seq<char>, b: Seq<char>)
    ensures
        screened(a + b) == screened(a) + screened(b),
    decreases b.len(),
{
    if b.len() == 0 {
        assert(a + b == a);
    } else {
        lemma_screened_concat(a, b.drop_last());
        assert((a + b).drop_last() == a + b.drop_last());
        assert((a + b).last() == b.last());
    }
}

/// Screening touches only the characters `_ * , [ ] ( ~ ` > # + - = | { } . !`:
/// every other character comes out as itself, and a text made only of other
/// characters (Cyrillic letters, digits, spaces, a closing round bracket,
/// a backslash, ...) comes out unchanged.
pub proof fn lemma_screening_keeps_other_chars(s: Seq<char>)
    requires
        forall|i: int|
            0 <= i < s.len() ==> {
                let c = #[trigger] s[i];
                c != '_' && c != '*' && c != ',' && c != '[' && c != ']' && c != '(' && c != '~'
                    && c != '`' && c != '>' && c != '#' && c != '+' && c != '-' && c != '='
                    && c != '|' && c != '{' && c != '}' && c != '.' && c != '!'
            },
    ensures
        screened(s) == s,
    decreases s.len(),
{
    if s.len() > 0 {
        let t = s.drop_last();
        assert forall|i: int| 0 <= i < t.len() implies {
            let c = #[trigger] t[i];
            c != '_' && c != '*' && c != ',' && c != '[' && c != ']' && c != '(' && c != '~'
                && c != '`' && c != '>' && c != '#' && c != '+' && c != '-' && c != '='
                && c != '|' && c != '{' && c != '}' && c != '.' && c != '!'
        } by {
            assert(t[i] == s[i]);
        }
        lemma_screening_keeps_other_chars(t);
        let c = s[s.len() - 1];
        assert(escape_char(c) == seq![c]);
        assert(t.push(s.last()) == s);
    }
}

/// Each of the characters `_ * , [ ] ~ ` > # + - = | { } . !` comes out with
/// a backslash before it, and `(` comes out as `\)`.
pub proof fn lemma_screening_escapes_each(c: char)
    ensures
        (c == '_' || c == '*' || c == ',' || c == '[' || c == ']' || c == '~' || c == '`' || c
            == '>' || c == '#' || c == '+' || c == '-' || c == '=' || c == '|' || c == '{' || c
            == '}' || c == '.' || c == '!') ==> screened(seq![c]) == seq!['\\', c],
        c == '(' ==> screened(seq![c]) == seq!['\\', ')'],
{
    let one = seq![c];
    assert(one.len() == 1);
    assert(one.last() == c);
    assert(one.drop_last() =~= Seq::<char>::empty());
    assert(screened(one.drop_last()) =~= Seq::<char>::empty());
    assert(screened(one) == screened(one.drop_last()) + escape_char(c));
    assert(screened(one) =~= escape_char(c));
}

/// Text without markup characters passes through screening unchanged.
pub proof fn lemma_screened_plain(s: Seq<char>)
    requires
        forall|i: int| 0 <= i < s.len() ==> !is_markup_char(#[trigger] s[i]),
    ensures
        screened(s) == s,
    decreases s.len(),
{
    if s.len() > 0 {
        let t = s.drop_last();
        assert forall|i: int| 0 <= i < t.len() implies !is_markup_char(#[trigger] t[i]) by {
            assert(t[i] == s[i]);
        }
        lemma_screened_plain(t);
        assert(!is_markup_char(s[s.len() - 1]));
        assert(t.push(s.last()) == s);
    }
}

/// In screened text every markup character stands right after a backslash,
/// so none of them is left for MarkdownV2 to interpret.
pub proof fn lemma_screened_escapes_markup(s: Seq<char>)
    ensures
        forall|i: int|
            0 <= i < screened(s).len() && is_markup_char(#[trigger] screened(s)[i]) ==> i > 0
                && screened(s)[i - 1] == '\\',
    decreases s.len(),
{
    if s.len() > 0 {
        let t = s.drop_last();
        lemma_screened_escapes_markup(t);
        let p = screened(t);
        let e = escape_char(s.last());
        assert(screened(s) == p + e);
        assert forall|i: int|
            0 <= i < screened(s).len() && is_markup_char(#[trigger] screened(s)[i]) implies i > 0
                && screened(s)[i - 1] == '\\' by {
            if i < p.len() {
                assert(screened(s)[i] == p[i]);
                assert(screened(s)[i - 1] == p[i - 1]);
            } else {
                assert(screened(s)[i] == e[i - p.len()]);
                assert(i - p.len() == 1);
                assert(screened(s)[i - 1] == e[0]);
            }
        }
    }
}

} // verus!
