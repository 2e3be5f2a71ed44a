use vstd::prelude::*;
use vstd::string::StringExecFns;
use vstd::utf8::encode_utf8;
use crate::language::Language;
use crate::number::{parse_u64, parsed_u64};
use crate::platform::Platform;
use crate::text::{find_from, find_in, lemma_find_from, to_chars};

verus! {

/// What the program was asked to do.
#[derive(PartialEq, Debug)]
pub struct App {
    pub nested: Command,
}

/// One of the program's commands.
#[derive(PartialEq, Debug)]
pub enum Command {
    /// Gets a crackme and extracts it.
    Get { id: String },
    /// Searches for crackmes by some criteria.
    Search(SearchArgs),
    /// Lists the crackmes of one of the latest pages.
    Latest { page: u64 },
}

/// The criteria of a search.
#[derive(PartialEq, Debug)]
pub struct SearchArgs {
    pub difficulty: (u8, u8),
    pub quality: (u8, u8),
    pub name: Option<String>,
    pub author: Option<String>,
    pub language: Option<Language>,
    pub platform: Option<Platform>,
}

/// The argument of the command that gets a crackme.
#[derive(PartialEq, Debug)]
pub struct SubGet {
    pub id: String,
}

/// The lowest rating.
pub const RATING_MIN: u8 = 1;

/// The highest rating.
pub const RATING_MAX: u8 = 6;

/// How many bytes an identifier has.
pub const ID_LENGTH: usize = 24;

/// The small number that `s` spells: a count that fits in eight bits.
pub open spec fn parsed_u8(s: Seq<char>) -> Option<u8> {
    match parsed_u64(s) {
        Some(v) => if v <= u8::MAX {
            Some(v as u8)
        } else {
            None
        },
        None => None,
    }
}

/// Why a range is refused.
pub enum RangeError {
    /// One of the two bounds is missing or is no number.
    Bounds,
    /// There is a third part, or a bound lies outside the ratings.
    Range,
}

/// The range that `v` spells: two small numbers with `..` between them,
/// the first not below the lowest rating and the second not above the
/// highest.
pub open spec fn range_of(v: Seq<char>) -> Result<(u8, u8), RangeError> {
    match find_from(v, ".."@, 0) {
        None => Err(RangeError::Bounds),
        Some(i) => {
            let first = parsed_u8(v.subrange(0, i));
            let start = i + 2;
            let next = find_from(v, ".."@, start);
            let second = match next {
                Some(j) => parsed_u8(v.subrange(start, j)),
                None => parsed_u8(v.subrange(start, v.len() as int)),
            };
            if first is None || second is None {
                Err(RangeError::Bounds)
            } else if next is Some || first->0 < RATING_MIN || second->0 > RATING_MAX {
                Err(RangeError::Range)
            } else {
                Ok((first->0, second->0))
            }
        },
    }
}

/// The words that report a refused range.
pub open spec fn range_message(e: RangeError) -> Seq<char> {
    match e {
        RangeError::Bounds => "Invalid bounds"@,
        RangeError::Range => "Invalid range"@,
    }
}

fn parse_u8(s: &str) -> (r: Option<u8>)
    ensures
        r == parsed_u8(s@),
{
    match parse_u64(s) {
        Some(v) => if v <= 255 {
            Some(v as u8)
        } else {
            None
        },
        None => None,
    }
}

/// Reads a range of ratings such as `1..6`.
pub fn range_parser(v: &str) -> (r: Result<(u8, u8), &'static str>)
    ensures
        match r {
            Ok(range) => range_of(v@) == Ok::<(u8, u8), RangeError>(range),
            Err(message) => range_of(v@) is Err && message@ == range_message(range_of(v@)->Err_0),
        },
{
    let chars = to_chars(v);
    let dots = to_chars("..");
    proof {
        reveal_strlit("..");
    }
    let i = match find_in(&chars, &dots, 0) {
        Some(i) => i,
        None => {
            return Err("Invalid bounds");
        },
    };
    proof {
        lemma_find_from(v@, ".."@, 0);
        assert(i + 2 <= chars.len());
    }
    let start = i + 2;
    let first = parse_u8(v.substring_char(0, i));
    let next = find_in(&chars, &dots, start);
    let second = match next {
        Some(j) => {
            proof {
                lemma_find_from(v@, ".."@, start as int);
            }
            parse_u8(v.substring_char(start, j))
        },
        None => parse_u8(v.substring_char(start, chars.len())),
    };
    match (first, second) {
        (Some(first), Some(second)) => {
            if next.is_some() || first < RATING_MIN || second > RATING_MAX {
                Err("Invalid range")
            } else {
                Ok((first, second))
            }
        },
        _ => Err("Invalid bounds"),
    }
}

/// Reads an identifier: any text of the length that identifiers have.
pub fn id_parser(v: &str) -> (r: Result<String, &'static str>)
    ensures
        match r {
            Ok(id) => encode_utf8(v@).len() == ID_LENGTH && id@ == v@,
            Err(message) => encode_utf8(v@).len() != ID_LENGTH && message@
                == "Invalid ID length"@,
        },
{
    if v.as_bytes().len() != ID_LENGTH {
        Err("Invalid ID length")
    } else {
        Ok(String::from_str(v))
    }
}

impl SearchArgs {
    /// Both ranges lie within the ratings.
    pub open spec fn wf(&self) -> bool {
        &&& RATING_MIN <= self.difficulty.0 && self.difficulty.1 <= RATING_MAX
        &&& RATING_MIN <= self.quality.0 && self.quality.1 <= RATING_MAX
    }

    /// The criteria that keep every crackme: the whole range of both
    /// ratings and nothing else.
    pub fn new() -> (r: SearchArgs)
        ensures
            r.wf(),
            r.difficulty == (RATING_MIN, RATING_MAX),
            r.quality == (RATING_MIN, RATING_MAX),
            r.name is None,
            r.author is None,
            r.language is None,
            r.platform is None,
    {
        SearchArgs {
            difficulty: (RATING_MIN, RATING_MAX),
            quality: (RATING_MIN, RATING_MAX),
            name: None,
            author: None,
            language: None,
            platform: None,
        }
    }
}

} // verus!
