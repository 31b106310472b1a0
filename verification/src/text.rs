//! Text as the library needs it: lists of strings by their characters,
//! white space and its trimming, and decimal numerals.

use vstd::prelude::*;

verus! {

/// The character sequences that a list of strings holds, in order.
pub open spec fn texts(strings: Seq<String>) -> Seq<Seq<char>> {
    strings.map_values(|s: String| s@)
}

/// A copy of a list of strings.
pub fn clone_strings(strings: &Vec<String>) -> (copy: Vec<String>)
    ensures
        texts(copy@) == texts(strings@),
{
    let mut copy: Vec<String> = Vec::new();
    let mut i: usize = 0;
    while i < strings.len()
        invariant
            i <= strings.len(),
            copy.len() == i,
            forall|k: int| 0 <= k < i ==> copy[k]@ == strings[k]@,
        decreases strings.len() - i,
    {
        copy.push(strings[i].clone());
        i += 1;
    }
    copy
}

/// The characters with the Unicode property White_Space.
pub open spec fn white_space(c: char) -> bool {
    let code = c as u32;
    ||| 0x09 <= code <= 0x0D
    ||| code == 0x20
    ||| code == 0x85
    ||| code == 0xA0
    ||| code == 0x1680
    ||| 0x2000 <= code <= 0x200A
    ||| code == 0x2028
    ||| code == 0x2029
    ||| code == 0x202F
    ||| code == 0x205F
    ||| code == 0x3000
}

/// The text without the white space it begins with.
pub open spec fn trim_start(text: Seq<char>) -> Seq<char>
    decreases text.len(),
{
    if text.len() > 0 && white_space(text.first()) {
        trim_start(text.drop_first())
    } else {
        text
    }
}

/// The text without the white space it ends with.
pub open spec fn trim_end(text: Seq<char>) -> Seq<char>
    decreases text.len(),
{
    if text.len() > 0 && white_space(text.last()) {
        trim_end(text.drop_last())
    } else {
        text
    }
}

/// The text without the white space around it.
pub open spec fn trimmed(text: Seq<char>) -> Seq<char> {
    trim_end(trim_start(text))
}

/// Every character of the text from `from` up to `to` is white space.
spec fn blank(text: Seq<char>, from: int, to: int) -> bool {
    forall|k: int| from <= k < to ==> white_space(#[trigger] text[k])
}

/// Whether the character is white space.
pub fn is_white_space(c: char) -> (b: bool)
    ensures
        b == white_space(c),
{
    let code = c as u32;
    (0x09 <= code && code <= 0x0D) || code == 0x20 || code == 0x85 || code == 0xA0 || code
        == 0x1680 || (0x2000 <= code && code <= 0x200A) || code == 0x2028 || code == 0x2029
        || code == 0x202F || code == 0x205F || code == 0x3000
}

/// Trimming at the start leaves what follows the leading run of white
/// space.
proof fn lemma_trim_start(text: Seq<char>, start: int)
    requires
        0 <= start <= text.len(),
        blank(text, 0, start),
        start < text.len() ==> !white_space(text[start]),
    ensures
        trim_start(text) == text.skip(start),
    decreases start,
{
    if start == 0 {
        assert(text.skip(0) =~= text);
    } else {
        assert(white_space(text[0]));
        let rest = text.drop_first();
        assert forall|k: int| 0 <= k < start - 1 implies white_space(#[trigger] rest[k]) by {
            assert(rest[k] == text[k + 1]);
        }
        lemma_trim_start(rest, start - 1);
        assert(rest.skip(start - 1) =~= text.skip(start));
    }
}

/// Trimming at the end leaves what precedes the trailing run of white
/// space.
proof fn lemma_trim_end(text: Seq<char>, end: int)
    requires
        0 <= end <= text.len(),
        blank(text, end, text.len() as int),
        end > 0 ==> !white_space(text[end - 1]),
    ensures
        trim_end(text) == text.take(end),
    decreases text.len() - end,
{
    if end == text.len() {
        assert(text.take(end) =~= text);
    } else {
        assert(white_space(text[text.len() - 1]));
        let rest = text.drop_last();
        lemma_trim_end(rest, end);
        assert(rest.take(end) =~= text.take(end));
    }
}

/// The slice of the text that is left when the white space around it is
/// taken away.
pub fn trim(text: &str) -> (inner: &str)
    ensures
        inner@ == trimmed(text@),
{
    let length: usize = text.unicode_len();
    // `start` and `end` frame the characters seen so far from the first to
    // the last that is no white space.
    let mut start: usize = 0;
    let mut end: usize = 0;
    let mut i: usize = 0;
    for c in chars: text.chars()
        invariant
            length == text@.len(),
            i == chars.index(),
            chars.seq() == text@,
            start <= end <= i,
            start == end ==> start == 0 && blank(text@, 0, i as int),
            start < end ==> {
                &&& !white_space(text@[start as int])
                &&& !white_space(text@[end - 1])
                &&& blank(text@, 0, start as int)
                &&& blank(text@, end as int, i as int)
            },
    {
        if !is_white_space(c) {
            if start == end {
                start = i;
            }
            end = i + 1;
        }
        i += 1;
    }
    proof {
        if start < end {
            let rest = text@.skip(start as int);
            lemma_trim_start(text@, start as int);
            assert forall|k: int| end - start <= k < rest.len() implies white_space(
                #[trigger] rest[k],
            ) by {
                assert(rest[k] == text@[k + start]);
            }
            lemma_trim_end(rest, end - start);
            assert(rest.take(end - start) =~= text@.subrange(start as int, end as int));
        } else {
            lemma_trim_start(text@, text@.len() as int);
            assert(text@.skip(text@.len() as int) =~= text@.subrange(0, 0));
        }
    }
    text.substring_char(start, end)
}

/// The character of a decimal digit.
pub open spec fn digit(d: nat) -> char
    recommends
        d < 10,
{
    ('0' as u8 + d as u8) as char
}

/// The decimal numeral of a number, without leading zeros.
pub open spec fn decimal(n: nat) -> Seq<char>
    decreases n,
{
    if n < 10 {
        seq![digit(n)]
    } else {
        decimal(n / 10).push(digit(n % 10))
    }
}

fn digit_text(d: u64) -> (text: &'static str)
    requires
        d < 10,
    ensures
        text@ == seq![digit(d as nat)],
{
    proof {
        reveal_strlit("0");
        reveal_strlit("1");
        reveal_strlit("2");
        reveal_strlit("3");
        reveal_strlit("4");
        reveal_strlit("5");
        reveal_strlit("6");
        reveal_strlit("7");
        reveal_strlit("8");
        reveal_strlit("9");
    }
    match d {
        0 => "0",
        1 => "1",
        2 => "2",
        3 => "3",
        4 => "4",
        5 => "5",
        6 => "6",
        7 => "7",
        8 => "8",
        _ => "9",
    }
}

/// Writes a number as its decimal numeral.
pub fn decimal_string(n: u64) -> (text: String)
    ensures
        text@ == decimal(n as nat),
    decreases n,
{
    if n < 10 {
        digit_text(n).to_owned()
    } else {
        let mut text = decimal_string(n / 10);
        text.append(digit_text(n % 10));
        text
    }
}

} // verus!
