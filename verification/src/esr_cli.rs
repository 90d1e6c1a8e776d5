//! What a command line asks for, as far as it can be told from plain values:
//! the limits it gives and the search it stands for.

use vstd::prelude::*;
use vstd::string::*;

use crate::esr_util::str_chars;

verus! {

/// The least limit that is taken.
pub const LIMIT_LOW: usize = 5;

/// The greatest limit that is taken.
pub const LIMIT_HIGH: usize = 100;

/// Why a limit is not taken.
#[derive(Debug, Clone, Copy, PartialEq, Eq)]
pub enum LimitError {
    /// The limit is a number outside the range from 5 to 100.
    OutOfRange(usize),
    /// The limit is no number.
    Invalid,
}

/// The value of a decimal digit.
pub open spec fn spec_digit_value(c: char) -> Option<nat> {
    if c == '0' {
        Some(0)
    } else if c == '1' {
        Some(1)
    } else if c == '2' {
        Some(2)
    } else if c == '3' {
        Some(3)
    } else if c == '4' {
        Some(4)
    } else if c == '5' {
        Some(5)
    } else if c == '6' {
        Some(6)
    } else if c == '7' {
        Some(7)
    } else if c == '8' {
        Some(8)
    } else if c == '9' {
        Some(9)
    } else {
        None
    }
}

/// The number that a row of decimal digits stands for; nothing for an empty
/// row, or one that holds anything but digits.
pub open spec fn spec_digits_value(s: Seq<char>) -> Option<nat>
    decreases s.len(),
{
    if s.len() == 0 {
        None
    } else {
        match spec_digit_value(s.last()) {
            None => None,
            Some(d) => if s.len() == 1 {
                Some(d)
            } else {
                match spec_digits_value(s.drop_last()) {
                    Some(v) => Some(v * 10 + d),
                    None => None,
                }
            },
        }
    }
}

/// The number that a text stands for: a row of decimal digits, after a `+`
/// or not, whose value a machine word holds.
pub open spec fn spec_parse_usize(s: Seq<char>) -> Option<usize> {
    let digits = if s.len() > 0 && s[0] == '+' {
        s.drop_first()
    } else {
        s
    };
    match spec_digits_value(digits) {
        Some(v) => if v <= usize::MAX {
            Some(v as usize)
        } else {
            None
        },
        None => None,
    }
}

/// A row of digits stands for no less than any row that it begins with.
pub proof fn lemma_digits_grow(s: Seq<char>, n: int)
    requires
        1 <= n <= s.len(),
        spec_digits_value(s) is Some,
    ensures
        spec_digits_value(s.take(n)) is Some,
        spec_digits_value(s.take(n))->Some_0 <= spec_digits_value(s)->Some_0,
    decreases s.len(),
{
    if n == s.len() {
        assert(s.take(n) =~= s);
    } else {
        assert(s.drop_last().take(n) =~= s.take(n));
        lemma_digits_grow(s.drop_last(), n);
    }
}

fn digit_value(c: char) -> (r: Option<usize>)
    ensures
        match r {
            Some(d) => spec_digit_value(c) == Some(d as nat) && d <= 9,
            None => spec_digit_value(c) is None,
        },
{
    if c == '0' {
        Some(0)
    } else if c == '1' {
        Some(1)
    } else if c == '2' {
        Some(2)
    } else if c == '3' {
        Some(3)
    } else if c == '4' {
        Some(4)
    } else if c == '5' {
        Some(5)
    } else if c == '6' {
        Some(6)
    } else if c == '7' {
        Some(7)
    } else if c == '8' {
        Some(8)
    } else if c == '9' {
        Some(9)
    } else {
        None
    }
}

/// The number as a machine word, where one holds it.
pub open spec fn spec_as_word(v: Option<nat>) -> Option<usize> {
    match v {
        Some(v) => if v <= usize::MAX {
            Some(v as usize)
        } else {
            None
        },
        None => None,
    }
}

/// Reads a number as `str::parse` reads a `usize`.
pub fn parse_usize(text: &str) -> (r: Option<usize>)
    ensures
        r == spec_parse_usize(text@),
{
    let chars = str_chars(text);
    let start: usize = if chars.len() > 0 && chars[0] == '+' {
        1
    } else {
        0
    };
    let ghost digits = chars@.skip(start as int);
    assert(start == 1 ==> digits =~= chars@.drop_first());
    assert(start == 0 ==> digits =~= chars@);
    assert(spec_parse_usize(text@) == spec_as_word(spec_digits_value(digits)));
    if chars.len() == start {
        return None;
    }
    let mut value: usize = 0;
    let mut i: usize = start;
    while i < chars.len()
        invariant
            start <= i <= chars.len(),
            digits == chars@.skip(start as int),
            spec_parse_usize(text@) == spec_as_word(spec_digits_value(digits)),
            i > start ==> spec_digits_value(digits.take(i - start)) == Some(value as nat),
            i == start ==> value == 0,
        decreases chars.len() - i,
    {
        let ghost front = digits.take(i - start);
        let ghost next = digits.take(i - start + 1);
        assert(next.drop_last() =~= front);
        assert(next.last() == chars@[i as int]);
        assert(next.len() == i - start + 1);
        match digit_value(chars[i]) {
            None => {
                proof {
                    assert(spec_digits_value(next) is None);
                    if spec_digits_value(digits) is Some {
                        lemma_digits_grow(digits, i - start + 1);
                    }
                }
                return None;
            },
            Some(d) => {
                if value > (usize::MAX - d) / 10 {
                    proof {
                        // the digits so far stand for more than a word holds
                        assert(i > start);
                        assert(spec_digits_value(next) == Some((value * 10 + d) as nat));
                        assert(value * 10 + d > usize::MAX);
                        if spec_digits_value(digits) is Some {
                            lemma_digits_grow(digits, i - start + 1);
                        }
                    }
                    return None;
                }
                assert(spec_digits_value(next) == Some((value * 10 + d) as nat));
                value = value * 10 + d;
            },
        }
        i += 1;
    }
    assert(digits.take(i - start) =~= digits);
    Some(value)
}

/// What a limit given on the command line stands for.
pub open spec fn spec_check_limit(limit: Seq<char>) -> Result<usize, LimitError> {
    match spec_parse_usize(limit) {
        Some(n) => if n < LIMIT_LOW || n > LIMIT_HIGH {
            Err(LimitError::OutOfRange(n))
        } else {
            Ok(n)
        },
        None => Err(LimitError::Invalid),
    }
}

/// Reads a limit: a number from 5 to 100.
pub fn check_limit(limit: &str) -> (r: Result<usize, LimitError>)
    ensures
        r == spec_check_limit(limit@),
{
    match parse_usize(limit) {
        Some(limit_num) => {
            if limit_num < LIMIT_LOW || limit_num > LIMIT_HIGH {
                Err(LimitError::OutOfRange(limit_num))
            } else {
                Ok(limit_num)
            }
        },
        None => Err(LimitError::Invalid),
    }
}

/// The order in which a search lists what it finds.
#[derive(Debug, Clone, Copy, PartialEq, Eq)]
pub enum SearchBy {
    Relevance,
    RecentDownloads,
    TotalDownloads,
}

impl SearchBy {
    /// The order that the switches ask for: by recent downloads unless
    /// another is asked for; by all downloads where that is asked for,
    /// whatever else is; else by relevance.
    pub fn from_flags(by_relevance: bool, by_total_downloads: bool) -> (by: SearchBy)
        ensures
            by == if !by_relevance && !by_total_downloads {
                SearchBy::RecentDownloads
            } else if by_total_downloads {
                SearchBy::TotalDownloads
            } else {
                SearchBy::Relevance
            },
    {
        if !by_relevance && !by_total_downloads {
            SearchBy::RecentDownloads
        } else if by_total_downloads {
            SearchBy::TotalDownloads
        } else {
            SearchBy::Relevance
        }
    }
}

/// The words of a search, each followed by a `+`.
pub open spec fn spec_join_words(words: Seq<Seq<char>>) -> Seq<char>
    decreases words.len(),
{
    if words.len() == 0 {
        Seq::empty()
    } else {
        spec_join_words(words.drop_last()) + words.last() + seq!['+']
    }
}

/// A text with a `+` for every blank.
pub open spec fn spec_blanks_to_plus(s: Seq<char>) -> Seq<char> {
    Seq::new(
        s.len(),
        |i: int|
            if s[i] == ' ' {
                '+'
            } else {
                s[i]
            },
    )
}

/// A text without the `+` signs at its end.
pub open spec fn spec_trim_plus(s: Seq<char>) -> Seq<char>
    decreases s.len(),
{
    if s.len() > 0 && s.last() == '+' {
        spec_trim_plus(s.drop_last())
    } else {
        s
    }
}

/// The pattern that the words of a search make: the words with a `+` between
/// them and for every blank in them, and none at the end.
pub open spec fn spec_search_pattern(words: Seq<Seq<char>>) -> Seq<char> {
    spec_trim_plus(spec_blanks_to_plus(spec_join_words(words)))
}

/// The characters of each string of a list.
pub open spec fn word_views(v: Seq<String>) -> Seq<Seq<char>> {
    Seq::new(v.len(), |i: int| v[i]@)
}

/// The pattern that the words of a search make.
pub fn search_pattern(words: &Vec<String>) -> (pattern: String)
    ensures
        pattern@ == spec_search_pattern(word_views(words@)),
{
    proof {
        reveal_strlit("+");
    }
    let ghost views = word_views(words@);
    // the words, each followed by a `+`
    let mut joined = String::new();
    let mut w: usize = 0;
    while w < words.len()
        invariant
            w <= words.len(),
            views == word_views(words@),
            joined@ == spec_join_words(views.take(w as int)),
        decreases words.len() - w,
    {
        assert(views.take(w as int + 1).drop_last() =~= views.take(w as int));
        assert(views.take(w as int + 1).last() == words@[w as int]@);
        proof {
            reveal_strlit("+");
        }
        joined.append(words[w].as_str());
        joined.append("+");
        assert(joined@ =~= spec_join_words(views.take(w as int)) + words@[w as int]@ + seq!['+']);
        w += 1;
    }
    assert(views.take(w as int) =~= views);
    // a `+` for every blank
    let chars = str_chars(joined.as_str());
    let mut replaced = String::new();
    let mut i: usize = 0;
    while i < chars.len()
        invariant
            i <= chars.len(),
            chars@ == joined@,
            replaced@ == spec_blanks_to_plus(chars@).take(i as int),
        decreases chars.len() - i,
    {
        proof {
            reveal_strlit("+");
        }
        let ghost before = replaced@;
        if chars[i] == ' ' {
            replaced.append("+");
            assert(replaced@ =~= before.push('+'));
        } else {
            let one = joined.as_str().substring_char(i, i + 1);
            assert(one@ =~= seq![chars@[i as int]]);
            replaced.append(one);
            assert(replaced@ =~= before.push(chars@[i as int]));
        }
        assert(spec_blanks_to_plus(chars@).take(i as int + 1) =~= spec_blanks_to_plus(
            chars@,
        ).take(i as int).push(spec_blanks_to_plus(chars@)[i as int]));
        i += 1;
    }
    assert(replaced@ =~= spec_blanks_to_plus(chars@));
    // none at the end
    let ghost whole = replaced@;
    let mut end: usize = chars.len();
    while end > 0 && (chars[end - 1] == '+' || chars[end - 1] == ' ')
        invariant
            end <= chars.len(),
            whole == spec_blanks_to_plus(chars@),
            spec_trim_plus(whole) == spec_trim_plus(whole.take(end as int)),
        decreases end,
    {
        assert(whole.take(end as int).drop_last() =~= whole.take(end as int - 1));
        end -= 1;
    }
    let pattern = String::from_str(replaced.as_str().substring_char(0, end));
    assert(pattern@ =~= whole.take(end as int));
    pattern
}

/// The query of a search of the registry: so many results a page, for the
/// pattern if there is one, in the order asked for.
pub open spec fn spec_search_args(limit: Seq<char>, pattern: Seq<char>, by: SearchBy) -> Seq<char> {
    "per_page="@ + limit + (if pattern.len() == 0 {
        Seq::<char>::empty()
    } else {
        "&q="@ + pattern
    }) + (match by {
        SearchBy::RecentDownloads => "&sort=recent-downloads"@,
        SearchBy::TotalDownloads => "&sort=downloads"@,
        SearchBy::Relevance => Seq::<char>::empty(),
    })
}

/// The query of a search of the registry.
pub fn search_args(search_limit: &str, search_str: &str, by: SearchBy) -> (args: String)
    ensures
        args@ == spec_search_args(search_limit@, search_str@, by),
{
    let mut args = String::from_str("per_page=").concat(search_limit);
    if !search_str.is_empty() {
        args.append("&q=");
        args.append(search_str);
    }
    match by {
        SearchBy::RecentDownloads => {
            args.append("&sort=recent-downloads");
        },
        SearchBy::TotalDownloads => {
            args.append("&sort=downloads");
        },
        SearchBy::Relevance => {},
    }
    assert(args@ =~= spec_search_args(search_limit@, search_str@, by));
    args
}

} // verus!
