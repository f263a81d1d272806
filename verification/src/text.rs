//! The text handling the game needs: splitting a line of input into words,
//! comparing a word with a verb, and writing a number in decimal.

use vstd::prelude::*;
use vstd::string::*;

verus! {

/// Whether `c` is white space: one of the code points that carry the Unicode
/// property `White_Space`.
pub open spec fn whitespace(c: char) -> bool {
    let code = c as u32;
    ||| 0x09 <= code <= 0x0D
    ||| code == 0x20
    ||| code == 0x85
    ||| code == 0xA0
    ||| code == 0x1680
    ||| 0x2000 <= code <= 0x200A
    ||| code == 0x2028
    ||| code == 0x2029
    ||| code == 0x202F
    ||| code == 0x205F
    ||| code == 0x3000
}

pub fn is_whitespace(c: char) -> (white: bool)
    ensures
        white == whitespace(c),
{
    let code = c as u32;
    (0x09 <= code && code <= 0x0D) || code == 0x20 || code == 0x85 || code == 0xA0 || code
        == 0x1680 || (0x2000 <= code && code <= 0x200A) || code == 0x2028 || code == 0x2029
        || code == 0x202F || code == 0x205F || code == 0x3000
}

/// The lower-case form of an ASCII capital; any other character is itself.
pub open spec fn lowercase_char(c: char) -> char {
    if 'A' <= c <= 'Z' {
        ((c as u8) + 32) as char
    } else {
        c
    }
}

pub fn to_ascii_lowercase(c: char) -> (lower: char)
    ensures
        lower == lowercase_char(c),
{
    if 'A' <= c && c <= 'Z' {
        ((c as u8) + 32u8) as char
    } else {
        c
    }
}

/// `s` with every ASCII capital replaced by its lower-case form.
pub open spec fn lowercase(s: Seq<char>) -> Seq<char> {
    Seq::new(s.len(), |i: int| lowercase_char(s[i]))
}

/// The length of the longest prefix of `s` that holds no white space.
pub open spec fn word_len(s: Seq<char>) -> nat
    decreases s.len(),
{
    if s.len() > 0 && !whitespace(s[0]) {
        1 + word_len(s.drop_first())
    } else {
        0
    }
}

/// A word is no longer than the text it starts, and a text that starts with
/// a character other than white space starts with a word.
pub proof fn lemma_word_len_bounds(s: Seq<char>)
    ensures
        word_len(s) <= s.len(),
        s.len() > 0 && !whitespace(s[0]) ==> word_len(s) > 0,
    decreases s.len(),
{
    if s.len() > 0 && !whitespace(s[0]) {
        lemma_word_len_bounds(s.drop_first());
    }
}

/// The words of `s`: its maximal runs of characters other than white space,
/// in the order in which they occur. No word is empty.
pub open spec fn tokens(s: Seq<char>) -> Seq<Seq<char>>
    decreases s.len(),
    via tokens_decreases
{
    if s.len() == 0 {
        Seq::empty()
    } else if whitespace(s[0]) {
        tokens(s.drop_first())
    } else {
        seq![s.take(word_len(s) as int)] + tokens(s.skip(word_len(s) as int))
    }
}

#[via_fn]
proof fn tokens_decreases(s: Seq<char>) {
    lemma_word_len_bounds(s);
}

/// The texts that a sequence of strings holds.
pub open spec fn texts(strings: Seq<String>) -> Seq<Seq<char>> {
    Seq::new(strings.len(), |i: int| strings[i]@)
}

/// Copies a sequence of strings, text by text.
pub fn copy_strings(strings: &Vec<String>) -> (copy: Vec<String>)
    ensures
        texts(copy@) == texts(strings@),
{
    let mut copy: Vec<String> = Vec::new();
    let mut i: usize = 0;
    while i < strings.len()
        invariant
            i <= strings.len(),
            copy.len() == i,
            forall|k: int| 0 <= k < i ==> copy[k]@ == strings[k]@,
        decreases strings.len() - i,
    {
        copy.push(strings[i].clone());
        i += 1;
    }
    assert(texts(copy@) =~= texts(strings@));
    copy
}

/// The characters of `s`, in order.
pub fn chars_of(s: &str) -> (chars: Vec<char>)
    ensures
        chars@ == s@,
{
    let mut chars: Vec<char> = Vec::new();
    for c in it: s.chars()
        invariant
            chars@ == it.seq().take(it.index() as int),
            it.seq() == s@,
    {
        chars.push(c);
    }
    chars
}

/// Splits `line` at white space into its words.
pub fn split_whitespace(line: &str) -> (words: Vec<String>)
    ensures
        texts(words@) == tokens(line@),
{
    let chars = chars_of(line);
    let n = chars.len();
    let mut words: Vec<String> = Vec::new();
    let mut i: usize = 0;
    assert(chars@.skip(0) =~= chars@);
    assert(texts(words@) + tokens(chars@.skip(0)) =~= tokens(chars@));
    while i < n
        invariant
            i <= n,
            n == chars.len(),
            chars@ == line@,
            texts(words@) + tokens(chars@.skip(i as int)) == tokens(chars@),
        decreases n - i,
    {
        let ghost rest = chars@.skip(i as int);
        if is_whitespace(chars[i]) {
            assert(rest.drop_first() =~= chars@.skip(i + 1));
            i += 1;
        } else {
            let start = i;
            let mut end = i;
            while end < n && !is_whitespace(chars[end])
                invariant
                    start <= end <= n,
                    n == chars.len(),
                    word_len(chars@.skip(start as int)) == (end - start) + word_len(
                        chars@.skip(end as int),
                    ),
                decreases n - end,
            {
                assert(chars@.skip(end as int).drop_first() =~= chars@.skip(end + 1));
                end += 1;
            }
            let word = String::from_str(line.substring_char(start, end));
            proof {
                assert(word_len(rest) == end - start);
                assert(rest.take(end - start) =~= chars@.subrange(start as int, end as int));
                assert(rest.skip(end - start) =~= chars@.skip(end as int));
                assert(texts(words@.push(word)) =~= texts(words@) + seq![word@]);
                assert(texts(words@.push(word)) + tokens(chars@.skip(end as int)) =~= texts(
                    words@,
                ) + tokens(rest));
            }
            words.push(word);
            i = end;
        }
    }
    assert(texts(words@) + tokens(chars@.skip(n as int)) =~= texts(words@));
    words
}

/// Whether `word`, with its ASCII capitals in lower case, reads `verb`.
pub fn lowercase_equals(word: &str, verb: &str) -> (equal: bool)
    ensures
        equal == (lowercase(word@) == verb@),
{
    let left = chars_of(word);
    let right = chars_of(verb);
    if left.len() != right.len() {
        return false;
    }
    let mut i: usize = 0;
    while i < left.len()
        invariant
            i <= left.len(),
            left.len() == right.len(),
            left@ == word@,
            right@ == verb@,
            forall|k: int| 0 <= k < i ==> lowercase_char(left@[k]) == right@[k],
        decreases left.len() - i,
    {
        if to_ascii_lowercase(left[i]) != right[i] {
            assert(lowercase(word@)[i as int] != verb@[i as int]);
            return false;
        }
        i += 1;
    }
    assert(lowercase(word@) =~= verb@);
    true
}

/// The character that stands for a decimal digit.
pub open spec fn digit(d: nat) -> char
    recommends
        d < 10,
{
    ('0' as u32 + d) as char
}

/// `n` written in decimal, without leading zeros.
pub open spec fn decimal(n: nat) -> Seq<char>
    decreases n,
{
    if n < 10 {
        seq![digit(n)]
    } else {
        decimal(n / 10).push(digit(n % 10))
    }
}

fn digit_str(d: u32) -> (s: &'static str)
    requires
        d < 10,
    ensures
        s@ == seq![digit(d as nat)],
{
    proof {
        reveal_strlit("0");
        reveal_strlit("1");
        reveal_strlit("2");
        reveal_strlit("3");
        reveal_strlit("4");
        reveal_strlit("5");
        reveal_strlit("6");
        reveal_strlit("7");
        reveal_strlit("8");
        reveal_strlit("9");
    }
    let s = if d == 0 {
        "0"
    } else if d == 1 {
        "1"
    } else if d == 2 {
        "2"
    } else if d == 3 {
        "3"
    } else if d == 4 {
        "4"
    } else if d == 5 {
        "5"
    } else if d == 6 {
        "6"
    } else if d == 7 {
        "7"
    } else if d == 8 {
        "8"
    } else {
        "9"
    };
    assert(s@ =~= seq![digit(d as nat)]);
    s
}

/// Writes `n` in decimal.
pub fn to_decimal(n: u32) -> (s: String)
    ensures
        s@ == decimal(n as nat),
    decreases n,
{
    if n < 10 {
        String::from_str(digit_str(n))
    } else {
        let mut s = to_decimal(n / 10);
        s.append(digit_str(n % 10));
        assert(s@ =~= decimal(n as nat));
        s
    }
}

} // verus!
