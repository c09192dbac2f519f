use votrans::chunks::{concat_chunks, message_chunks, MSG_CH_LIMIT};
use votrans::markup::txt_screening;
use votrans::text::{contains_text, join_text, push_decimal, split_text};

#[test]
fn screening_escapes_each_markup_character() {
    assert_eq!(
        txt_screening("_*,[]~`>#+-=|{}.!"),
        "\\_\\*\\,\\[\\]\\~\\`\\>\\#\\+\\-\\=\\|\\{\\}\\.\\!"
    );
}

#[test]
fn screening_turns_opening_bracket_into_escaped_closing_one() {
    assert_eq!(txt_screening("(x)"), "\\)x)");
}

#[test]
fn screening_keeps_plain_text() {
    assert_eq!(txt_screening("Привет мир"), "Привет мир");
    assert_eq!(txt_screening(""), "");
    assert_eq!(txt_screening("a\\b"), "a\\b");
}

#[test]
fn screening_a_sentence() {
    assert_eq!(
        txt_screening("Hello, world! 2+2=4."),
        "Hello\\, world\\! 2\\+2\\=4\\."
    );
}

#[test]
fn screening_distributes_over_concatenation() {
    let a = "first_part.";
    let b = "(second)-part";
    let whole = format!("{a}{b}");
    assert_eq!(
        txt_screening(&whole),
        format!("{}{}", txt_screening(a), txt_screening(b))
    );
}

#[test]
fn screened_markup_is_always_escaped() {
    let out: Vec<char> = txt_screening("a_b*c(d)e[f]g.h!i\\j").chars().collect();
    let markup = "_*,[]~`>#+-=|{}.!(";
    for (i, c) in out.iter().enumerate() {
        if markup.contains(*c) {
            assert!(i > 0 && out[i - 1] == '\\');
        }
    }
}

#[test]
fn empty_reply_gives_no_message() {
    assert!(message_chunks("").is_empty());
}

#[test]
fn short_reply_is_one_message() {
    assert_eq!(message_chunks("hello"), vec!["hello".to_string()]);
}

#[test]
fn reply_of_exactly_the_limit_is_one_message() {
    let s = "a".repeat(MSG_CH_LIMIT);
    let msgs = message_chunks(&s);
    assert_eq!(msgs.len(), 1);
    assert_eq!(msgs[0], s);
}

#[test]
fn long_reply_is_cut_by_characters() {
    let s = "ж".repeat(MSG_CH_LIMIT + 5);
    let msgs = message_chunks(&s);
    assert_eq!(msgs.len(), 2);
    assert_eq!(msgs[0].chars().count(), MSG_CH_LIMIT);
    assert_eq!(msgs[1], "ж".repeat(5));
    assert_eq!(msgs.concat(), s);
}

#[test]
fn messages_rejoin_to_the_reply() {
    let s: String = (0..10000).map(|i| if i % 7 == 0 { ' ' } else { 'б' }).collect();
    let msgs = message_chunks(&s);
    assert_eq!(msgs.len(), 3);
    for m in &msgs {
        let n = m.chars().count();
        assert!(n > 0 && n <= MSG_CH_LIMIT);
    }
    assert_eq!(msgs.concat(), s);
}

#[test]
fn downloaded_pieces_are_put_together_in_order() {
    let pieces = vec![vec![1u8, 2], vec![], vec![3u8], vec![4u8, 5, 6]];
    assert_eq!(concat_chunks(&pieces), vec![1u8, 2, 3, 4, 5, 6]);
    assert!(concat_chunks(&Vec::new()).is_empty());
}

#[test]
fn substring_search() {
    assert!(contains_text("https://www.youtube.com/watch", "youtube.com"));
    assert!(contains_text("abc", ""));
    assert!(!contains_text("ab", "abc"));
    assert!(!contains_text("youtub.com", "youtube.com"));
}

#[test]
fn split_and_join_at_spaces() {
    let parts = split_text(" a  b ", ' ');
    assert_eq!(parts, vec!["", "a", "", "b", ""]);
    assert_eq!(join_text(&parts, ' '), " a  b ");
    assert_eq!(split_text("", ' '), vec![""]);
}

#[test]
fn decimal_numbers() {
    let mut s = String::from("n=");
    push_decimal(&mut s, 0);
    assert_eq!(s, "n=0");
    let mut t = String::new();
    push_decimal(&mut t, u64::MAX);
    assert_eq!(t, u64::MAX.to_string());
    let mut u = String::new();
    push_decimal(&mut u, 1090);
    assert_eq!(u, "1090");
}
