//! Command lines: a command is split on white space, without quoting of any kind.

use vstd::prelude::*;
use crate::text::chars_of;

verus! {

/// Whether `c` is white space: one of the characters that have the
/// `White_Space` property of Unicode.
pub open spec fn is_whitespace(c: char) -> bool {
    let code = c as u32;
    ||| 0x09 <= code <= 0x0d
    ||| code == 0x20
    ||| code == 0x85
    ||| code == 0xa0
    ||| code == 0x1680
    ||| 0x2000 <= code <= 0x200a
    ||| code == 0x2028
    ||| code == 0x2029
    ||| code == 0x202f
    ||| code == 0x205f
    ||| code == 0x3000
}

/// `char::is_whitespace` of the standard library: whether the character has
/// the `White_Space` property of Unicode, which holds of the characters
/// that `is_whitespace` lists and of no other.
#[verifier::external_body]
fn whitespace(c: char) -> (r: bool)
    ensures
        r == is_whitespace(c),
{
    c.is_whitespace()
}

/// `word` as a list of words: itself unless it is empty.
pub open spec fn word_list(word: Seq<char>) -> Seq<Seq<char>> {
    if word.len() > 0 {
        seq![word]
    } else {
        Seq::empty()
    }
}

/// The words of `text` from index `i` on, where `current` holds the
/// characters of the word that `i` stands in.
pub open spec fn words_from(text: Seq<char>, i: int, current: Seq<char>) -> Seq<Seq<char>>
    decreases text.len() - i,
{
    if i < 0 || i >= text.len() {
        word_list(current)
    } else if is_whitespace(text[i]) {
        word_list(current) + words_from(text, i + 1, Seq::empty())
    } else {
        words_from(text, i + 1, current.push(text[i]))
    }
}

/// The words of `text`: its longest runs of characters that are no white space.
pub open spec fn words_of(text: Seq<char>) -> Seq<Seq<char>> {
    words_from(text, 0, Seq::empty())
}

/// The texts of a list of strings, in order.
pub open spec fn texts_view(list: Seq<String>) -> Seq<Seq<char>> {
    Seq::new(list.len(), |i: int| list[i]@)
}

/// What stands before the words of a command on the platform: `cmd /c` on
/// Windows, nothing elsewhere.
pub open spec fn shell_prefix(windows: bool) -> Seq<Seq<char>> {
    if windows {
        seq!["cmd"@, "/c"@]
    } else {
        Seq::empty()
    }
}

/// Appends the words of `text` to `words`, in order.
fn append_words(words: &mut Vec<String>, text: &str)
    ensures
        texts_view(final(words)@) == texts_view(old(words)@) + words_of(text@),
{
    let chars = chars_of(text);
    let mut current = String::new();
    let mut empty = true;
    let mut i: usize = 0;
    let ghost head = texts_view(words@);
    assert(head + words_of(text@) =~= texts_view(words@) + words_from(text@, 0, current@));
    while i < chars.len()
        invariant
            i <= chars@.len(),
            chars@ == text@,
            empty == (current@.len() == 0),
            head + words_of(text@) == texts_view(words@) + words_from(text@, i as int, current@),
        decreases chars@.len() - i,
    {
        let c = chars[i];
        let ghost before = texts_view(words@);
        if whitespace(c) {
            if !empty {
                words.push(current);
                assert(texts_view(words@) =~= before.push(current@));
                assert(before + (word_list(current@) + words_from(text@, i + 1, Seq::empty())) =~= texts_view(
                    words@,
                ) + words_from(text@, i + 1, Seq::empty()));
            } else {
                assert(before + (word_list(current@) + words_from(text@, i + 1, Seq::empty())) =~= before
                    + words_from(text@, i + 1, Seq::empty()));
            }
            current = String::new();
            empty = true;
        } else {
            current.push(c);
            empty = false;
        }
        i += 1;
    }
    let ghost before = texts_view(words@);
    if !empty {
        words.push(current);
        assert(texts_view(words@) =~= before.push(current@));
        assert(before + word_list(current@) =~= texts_view(words@));
    } else {
        assert(before + word_list(current@) =~= before);
    }
}

/// The words of `text`, in order.
pub fn split_words(text: &str) -> (words: Vec<String>)
    ensures
        texts_view(words@) == words_of(text@),
{
    let mut words: Vec<String> = Vec::new();
    assert(texts_view(words@) =~= Seq::empty());
    append_words(&mut words, text);
    assert(Seq::<Seq<char>>::empty() + words_of(text@) =~= words_of(text@));
    words
}

/// The argument list that runs `command`: its words, after `cmd /c` on Windows.
pub fn command_line(command: &str, windows: bool) -> (line: Vec<String>)
    ensures
        texts_view(line@) == shell_prefix(windows) + words_of(command@),
{
    let mut line: Vec<String> = Vec::new();
    if windows {
        line.push(crate::text::owned("cmd"));
        line.push(crate::text::owned("/c"));
    }
    assert(texts_view(line@) =~= shell_prefix(windows));
    append_words(&mut line, command);
    line
}

} // verus!
