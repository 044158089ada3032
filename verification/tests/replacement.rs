use beautyxt_rs::replacement::left_text;
use beautyxt_rs::sources::{replace_in, try_replace};
use typst::syntax::Source;

fn replaced(old: &str, new: &str) -> String {
    let mut source = Source::detached(old);
    assert!(try_replace(&mut source, new));
    source.text().to_owned()
}

#[test]
fn ascii_texts_are_replaced() {
    assert_eq!(replaced("= Title", "= Other title"), "= Other title");
    assert_eq!(replaced("", "abc"), "abc");
    assert_eq!(replaced("abc", ""), "");
    assert_eq!(replaced("abc", "abc"), "abc");
    assert_eq!(replaced("aa", "aaa"), "aaa");
}

#[test]
fn texts_with_different_last_bytes_are_replaced() {
    assert_eq!(replaced("Grüße", "Grüne"), "Grüne");
    assert_eq!(replaced("ä", "äĤ"), "äĤ");
    assert_eq!(replaced("ä", "ö"), "ö");
    assert_eq!(replaced("ascii", "für"), "für");
    assert_eq!(replaced("für", "ascii"), "ascii");
}

#[test]
fn characters_with_one_last_byte_clash() {
    // U+00E4 and U+0124 both end in the byte A4: the old one stays.
    assert_eq!(replaced("ä", "Ĥ"), "ä");
    assert_eq!(replaced("a ä.", "b Ĥ."), "b ä.");
}

#[test]
fn clashing_tails_meet_further_left() {
    // U+20A4 takes three bytes and U+00E4 two: the cuts meet one character on.
    assert_eq!(replaced("aä", "x₤"), "xaä");
}

#[test]
fn tails_that_never_meet_are_refused() {
    let mut source = Source::detached("ä");
    assert_eq!(left_text("ä", "₤"), None);
    assert!(!try_replace(&mut source, "₤"));
    assert_eq!(source.text(), "ä");
}

/// The text that is left behind, worked out character by character; `None` where
/// the replacement cannot be made.
fn expected(old: &str, new: &str) -> Option<String> {
    let a: Vec<char> = old.chars().collect();
    let b: Vec<char> = new.chars().collect();
    let head = a.iter().zip(&b).take_while(|(x, y)| x == y).count();
    let rest = a[head..].iter().rev().zip(b[head..].iter().rev());
    let tail = rest.take_while(|(x, y)| x == y).count();
    if head + tail == a.len() || head + tail == b.len() {
        return Some(new.to_owned());
    }
    let last_byte = |c: char| *c.to_string().as_bytes().last().unwrap();
    if last_byte(a[a.len() - 1 - tail]) != last_byte(b[b.len() - 1 - tail]) {
        return Some(new.to_owned());
    }
    let text = |chars: &[char]| chars.iter().collect::<String>();
    for i in (head..a.len() - tail).rev() {
        for j in (head..b.len() - tail).rev() {
            if text(&a[i..]).len() == text(&b[j..]).len() {
                return Some(text(&b[..j]) + &text(&a[i..]));
            }
        }
    }
    None
}

#[test]
fn replacement_leaves_the_expected_text() {
    let pieces = ["", "a", "ä", "Ĥ", "₤", "\u{10124}", "x₤", "😀"];
    let mut texts: Vec<String> = vec![];
    for first in pieces {
        for second in pieces {
            for third in pieces {
                texts.push(format!("{first}{second}{third}"));
            }
        }
    }
    texts.sort();
    texts.dedup();
    for old in &texts {
        for new in &texts {
            let mut source = Source::detached(old.as_str());
            let done = try_replace(&mut source, new);
            assert_eq!(left_text(old, new), expected(old, new));
            match expected(old, new) {
                Some(text) => {
                    assert!(done);
                    assert_eq!(source.text(), text);
                    let mut edited = Source::detached(old.as_str());
                    edited.replace(new);
                    assert_eq!(edited.text(), text);
                }
                None => {
                    assert!(!done);
                    assert_eq!(source.text(), old);
                }
            }
        }
    }
}

#[test]
fn line_ends_can_be_taken_apart_and_put_together() {
    let mut source = Source::detached("\r\nX");
    let id = source.id();
    for text in ["\rX", "\r\nX", "Z", "\n\rX\r", "\r\n\r\n", "\r\r\n\n", "\nX", ""] {
        assert!(try_replace(&mut source, text));
        assert_eq!(source.text(), text);
        assert_eq!(source.id(), id);
    }
}

#[test]
fn every_order_of_line_ends_can_be_replaced() {
    let pieces = ["", "\r", "\n", "X", "\r\n"];
    let mut texts: Vec<String> = vec![];
    for first in pieces {
        for second in pieces {
            for third in pieces {
                texts.push(format!("{first}{second}{third}"));
            }
        }
    }
    for first in &texts {
        for second in &texts {
            let mut source = Source::detached(first.as_str());
            for text in [second, first, second] {
                assert!(try_replace(&mut source, text));
                assert_eq!(source.text(), text);
            }
        }
    }
}

#[test]
fn a_source_is_made_with_its_id() {
    let id = Source::detached("").id();
    let source = replace_in(id, "old", "new").unwrap();
    assert_eq!(source.text(), "new");
    assert_eq!(source.id(), id);
    assert!(replace_in(id, "ä", "₤").is_none());
}

#[test]
fn deeply_nested_texts_are_replaced() {
    let nested = |inner: &str| {
        format!("{}#if true [a{}a]{}", "#[".repeat(24), inner, "]".repeat(24))
    };
    let old = nested(&"x".repeat(98));
    let new = nested("$b$");
    assert_eq!(left_text(&old, &new).as_deref(), Some(new.as_str()));
    let mut source = Source::detached(old.as_str());
    assert!(try_replace(&mut source, &new));
    assert_eq!(source.text(), new);
    assert!(try_replace(&mut source, &old));
    assert_eq!(source.text(), old);
}
