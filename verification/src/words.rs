//! The words of a command stream.
//!
//! A text is cut into words at white space. Each word carries, beside its
//! text, the number that the text writes, if it writes one; what number a
//! text writes is told by the reader that the caller hands in.
use crate::context::Context;
use crate::error::Error;
use crate::number::Number;
use crate::text::{chars_of, push_char, str_eq};
use vstd::prelude::*;

verus! {

/// A word of the stream: its text, and the number that the text writes.
#[derive(Clone, Debug)]
pub struct Word {
    pub text: String,
    pub number: Option<Number>,
}

/// A word as a value.
pub struct WordView {
    pub text: Seq<char>,
    pub number: Option<Number>,
}

impl View for Word {
    type V = WordView;

    open spec fn view(&self) -> WordView {
        WordView { text: self.text@, number: self.number }
    }
}

/// The words of a vector, as values.
pub open spec fn word_views(words: Seq<Word>) -> Seq<WordView> {
    Seq::new(words.len(), |i: int| words[i]@)
}

/// White space: the characters with the Unicode property `White_Space`.
pub open spec fn is_space(c: char) -> bool {
    let v = c as u32;
    ||| 0x09 <= v <= 0x0d
    ||| v == 0x20
    ||| v == 0x85
    ||| v == 0xa0
    ||| v == 0x1680
    ||| 0x2000 <= v <= 0x200a
    ||| v == 0x2028
    ||| v == 0x2029
    ||| v == 0x202f
    ||| v == 0x205f
    ||| v == 0x3000
}

/// The word that is being read, if it has any character yet.
pub open spec fn finished(current: Seq<char>) -> Seq<Seq<char>> {
    if current.len() > 0 {
        seq![current]
    } else {
        Seq::empty()
    }
}

/// The words of `rest`, read from left to right, where `current` holds the
/// characters of the word that is being read.
pub open spec fn tokens_from(current: Seq<char>, rest: Seq<char>) -> Seq<Seq<char>>
    decreases rest.len(),
{
    if rest.len() == 0 {
        finished(current)
    } else if is_space(rest[0]) {
        finished(current) + tokens_from(Seq::empty(), rest.drop_first())
    } else {
        tokens_from(current.push(rest[0]), rest.drop_first())
    }
}

/// The words of a text: its longest runs of characters that are not white
/// space, in order.
pub open spec fn tokens(s: Seq<char>) -> Seq<Seq<char>> {
    tokens_from(Seq::empty(), s)
}

/// The texts of a vector of strings.
pub open spec fn texts(v: Seq<String>) -> Seq<Seq<char>> {
    Seq::new(v.len(), |i: int| v[i]@)
}

/// The number that a word stands for: the current time for `$time`, and
/// else the number that its text writes.
pub open spec fn read_number(w: WordView, ctx: Context) -> Result<Number, Error> {
    if w.text == "$time"@ {
        Ok(ctx.current_time)
    } else {
        match w.number {
            Some(n) => Ok(n),
            None => Err(Error::BadNumber),
        }
    }
}

/// Whether a character is white space.
pub fn is_space_char(c: char) -> (r: bool)
    ensures
        r == is_space(c),
{
    let v: u32 = c as u32;
    (0x09 <= v && v <= 0x0d) || v == 0x20 || v == 0x85 || v == 0xa0 || v == 0x1680 || (0x2000 <= v
        && v <= 0x200a) || v == 0x2028 || v == 0x2029 || v == 0x202f || v == 0x205f || v == 0x3000
}

/// Cuts a text into its words.
pub fn split_whitespace(text: &str) -> (words: Vec<String>)
    ensures
        texts(words@) == tokens(text@),
{
    let chars: Vec<char> = chars_of(text);
    let mut words: Vec<String> = Vec::new();
    let mut current: String = String::new();
    let mut started: bool = false;
    let mut i: usize = 0;
    assert(chars@.skip(0) =~= chars@);
    assert(texts(words@) =~= Seq::<Seq<char>>::empty());
    while i < chars.len()
        invariant
            i <= chars.len(),
            chars@ == text@,
            started == (current@.len() > 0),
            tokens(text@) == texts(words@) + tokens_from(current@, chars@.skip(i as int)),
        decreases chars.len() - i,
    {
        let c: char = chars[i];
        let ghost rest = chars@.skip(i as int);
        let ghost before = texts(words@);
        let ghost word = current@;
        assert(rest[0] == c);
        assert(rest.drop_first() =~= chars@.skip(i + 1));
        if is_space_char(c) {
            if started {
                words.push(current);
                current = String::new();
                started = false;
            }
            assert(texts(words@) =~= before + finished(word));
            assert(current@ =~= Seq::<char>::empty());
            assert(tokens(text@) =~= texts(words@) + tokens_from(
                Seq::empty(),
                chars@.skip(i + 1),
            ));
        } else {
            push_char(&mut current, c);
            started = true;
        }
        i = i + 1;
    }
    if started {
        let ghost before = texts(words@);
        words.push(current);
        assert(texts(words@) =~= before + finished(current@));
    }
    assert(tokens(text@) =~= texts(words@));
    words
}

/// Cuts a text into its words and asks the reader for the number of each.
pub fn lex<F: Fn(&String) -> Option<Number>>(text: &str, read: &F) -> (words: Vec<Word>)
    requires
        forall|s: &String| #[trigger] read.requires((s,)),
    ensures
        words.len() == tokens(text@).len(),
        forall|i: int|
            0 <= i < words.len() ==> (#[trigger] words[i]).text@ == tokens(text@)[i] && read.ensures(
                (&words[i].text,),
                words[i].number,
            ),
{
    let mut parts: Vec<String> = split_whitespace(text);
    let mut words: Vec<Word> = Vec::new();
    let ghost all = texts(parts@);
    let n: usize = parts.len();
    let mut i: usize = n;
    // The parts are taken from the back and the words put in order afterwards.
    let mut reversed: Vec<Word> = Vec::new();
    while i > 0
        invariant
            i <= n,
            parts.len() == i,
            all.len() == n,
            forall|j: int| 0 <= j < i ==> (#[trigger] parts[j])@ == all[j],
            reversed.len() == n - i,
            forall|s: &String| #[trigger] read.requires((s,)),
            forall|j: int|
                0 <= j < reversed.len() ==> (#[trigger] reversed[j]).text@ == all[n - 1 - j]
                    && read.ensures((&reversed[j].text,), reversed[j].number),
        decreases i,
    {
        let text: String = parts.pop().unwrap();
        let number: Option<Number> = read(&text);
        reversed.push(Word { text, number });
        i = i - 1;
    }
    while reversed.len() > 0
        invariant
            reversed.len() + words.len() == n,
            all.len() == n,
            forall|j: int|
                0 <= j < reversed.len() ==> (#[trigger] reversed[j]).text@ == all[n - 1 - j]
                    && read.ensures((&reversed[j].text,), reversed[j].number),
            forall|j: int|
                0 <= j < words.len() ==> (#[trigger] words[j]).text@ == all[j] && read.ensures(
                    (&words[j].text,),
                    words[j].number,
                ),
        decreases reversed.len(),
    {
        let w: Word = reversed.pop().unwrap();
        words.push(w);
    }
    words
}

impl Word {
    pub fn new(text: String, number: Option<Number>) -> (w: Word)
        ensures
            w.text == text,
            w.number == number,
    {
        Word { text, number }
    }

    /// The number that the word stands for.
    pub fn number_based_on(&self, ctx: &Context) -> (r: Result<Number, Error>)
        ensures
            r == read_number(self@, *ctx),
    {
        if str_eq(self.text.as_str(), "$time") {
            Ok(ctx.current_time)
        } else {
            match self.number {
                Some(n) => Ok(n),
                None => Err(Error::BadNumber),
            }
        }
    }
}

impl Number {
    /// The number that a word stands for: the current time for `$time`, and
    /// else the number that its text writes.
    pub fn from_str_based_on(word: &Word, ctx: &Context) -> (r: Result<Number, Error>)
        ensures
            r == read_number(word@, *ctx),
    {
        word.number_based_on(ctx)
    }
}

} // verus!
