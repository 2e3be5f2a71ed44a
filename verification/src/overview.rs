use vstd::prelude::*;
use vstd::string::StringExecFns;
use scraper::Html;
use crate::error::{CrackmeError, CrackmeResult};
use crate::language::{language_named, Language};
use crate::list::{token_texts, tokens, tokens_of};
use crate::page::{element_texts, selected_texts};
use crate::platform::{platform_named, Platform};
use crate::record::{fields_report, BaseCrackme, CrackmeView};
use crate::stats::{is_float_literal, Rating, Stats};
use crate::text::{is_blank, is_blank_str, second_piece, second_piece_of};

verus! {

/// What an entry's own page holds, as mathematical values.
pub struct OverviewView {
    pub base: CrackmeView,
    pub description: Seq<char>,
}

/// An entry as its own page shows it, with its description.
#[derive(Debug, PartialEq, Eq)]
pub struct OverviewCrackme {
    base: BaseCrackme,
    description: String,
}

impl Clone for OverviewCrackme {
    fn clone(&self) -> (r: OverviewCrackme)
        ensures
            r@ == self@,
    {
        OverviewCrackme { base: self.base.clone(), description: self.description.clone() }
    }
}

impl View for OverviewCrackme {
    type V = OverviewView;

    closed spec fn view(&self) -> OverviewView {
        OverviewView { base: self.base@, description: self.description@ }
    }
}

/// The fields that the information columns of an entry's page spell.
pub struct OverviewFields {
    pub author: Seq<char>,
    pub language: Language,
    pub date: Seq<char>,
    pub platform: Platform,
    pub difficulty: Seq<char>,
    pub quality: Seq<char>,
}

/// The tokens of several columns, one column after the other.
pub open spec fn flat_tokens(columns: Seq<Seq<Seq<char>>>) -> Seq<Seq<char>>
    decreases columns.len(),
{
    if columns.len() == 0 {
        Seq::empty()
    } else {
        flat_tokens(columns.drop_last()) + tokens_of(columns.last())
    }
}

/// Every second token, starting with the second: the columns hold a label
/// before each value.
pub open spec fn every_other(t: Seq<Seq<char>>) -> Seq<Seq<char>> {
    Seq::new(t.len() / 2, |i: int| t[2 * i + 1])
}

/// How many tokens may follow the last field: the two that the rating
/// buttons leave.
pub open spec fn rate_tokens() -> nat {
    2
}

/// The fields that the values `t` of an entry's page spell, read in the
/// fixed order author, language, upload date, platform, difficulty,
/// quality. The first field that is missing or cannot be read gives the
/// error; so does a token after the two that may follow the last field.
pub open spec fn overview_fields(t: Seq<Seq<char>>) -> Result<OverviewFields, CrackmeError> {
    if t.len() < 1 {
        Err(CrackmeError::NotFound("author"))
    } else if t.len() < 2 {
        Err(CrackmeError::NotFound("language"))
    } else if language_named(t[1]) is None {
        Err(CrackmeError::DetailParse("language"))
    } else if t.len() < 3 {
        Err(CrackmeError::NotFound("upload"))
    } else if t.len() < 4 {
        Err(CrackmeError::NotFound("platform"))
    } else if platform_named(t[3]) is None {
        Err(CrackmeError::DetailParse("platform"))
    } else if t.len() < 5 {
        Err(CrackmeError::NotFound("difficulty"))
    } else if !is_float_literal(t[4]) {
        Err(CrackmeError::DetailParse("difficulty"))
    } else if t.len() < 6 {
        Err(CrackmeError::NotFound("quality"))
    } else if !is_float_literal(t[5]) {
        Err(CrackmeError::DetailParse("quality"))
    } else if t.len() > 6 + rate_tokens() {
        Err(CrackmeError::Leftover("quality"))
    } else {
        Ok(
            OverviewFields {
                author: t[0],
                language: language_named(t[1])->0,
                date: t[2],
                platform: platform_named(t[3])->0,
                difficulty: t[4],
                quality: t[5],
            },
        )
    }
}

/// The name that the heading spells: the second text node of the first
/// heading, cut at the separator `'s `, of which the second piece is the
/// name.
pub open spec fn heading_name(headings: Seq<Seq<Seq<char>>>) -> Option<Seq<char>> {
    if headings.len() == 0 || headings[0].len() < 2 {
        None
    } else {
        second_piece(headings[0][1], "'s "@)
    }
}

/// The first of the text nodes that is not blank.
pub open spec fn first_visible(texts: Seq<Seq<char>>) -> Option<Seq<char>>
    decreases texts.len(),
{
    if texts.len() == 0 {
        None
    } else if !is_blank(texts[0]) {
        Some(texts[0])
    } else {
        first_visible(texts.drop_first())
    }
}

/// The description: the first text that is not blank under the first of
/// the elements that may hold it.
pub open spec fn first_description(spans: Seq<Seq<Seq<char>>>) -> Option<Seq<char>> {
    if spans.len() == 0 {
        None
    } else {
        first_visible(spans[0])
    }
}

/// The entry that the parts of its page spell: the fields first, then the
/// name, then the description; the first of them that fails gives the
/// error.
pub open spec fn overview_of(
    id: Seq<char>,
    columns: Seq<Seq<Seq<char>>>,
    headings: Seq<Seq<Seq<char>>>,
    spans: Seq<Seq<Seq<char>>>,
    solutions: u64,
    comments: u64,
) -> Result<OverviewView, CrackmeError> {
    match overview_fields(every_other(flat_tokens(columns))) {
        Err(e) => Err(e),
        Ok(f) => match heading_name(headings) {
            None => Err(CrackmeError::NotFound("h3")),
            Some(name) => match first_description(spans) {
                None => Err(CrackmeError::NotFound("description")),
                Some(description) => Ok(
                    OverviewView {
                        base: CrackmeView {
                            name,
                            author: f.author,
                            language: f.language,
                            date: f.date,
                            platform: f.platform,
                            quality: f.quality,
                            difficulty: f.difficulty,
                            id,
                            solutions,
                            comments,
                        },
                        description,
                    },
                ),
            },
        },
    }
}

/// The selector that finds the information columns of an entry's page.
pub open spec fn column_selector() -> Seq<char> {
    "div.columns.panel-background div.column.col-3"@
}

/// The selector that finds the heading.
pub open spec fn heading_selector() -> Seq<char> {
    "h3"@
}

/// The selector that finds the elements that may hold the description.
pub open spec fn description_selector() -> Seq<char> {
    "div.columns div.col-12 span"@
}

/// The selector that finds the solutions.
pub open spec fn solution_selector() -> Seq<char> {
    "div#solutions div.col-9"@
}

/// The selector that finds the comments.
pub open spec fn comment_selector() -> Seq<char> {
    "div#comments p"@
}

/// The entry that its own page spells.
pub open spec fn overview_page(html: Html, id: Seq<char>) -> Result<OverviewView, CrackmeError> {
    match (
        selected_texts(html, column_selector()),
        selected_texts(html, heading_selector()),
        selected_texts(html, description_selector()),
        selected_texts(html, solution_selector()),
        selected_texts(html, comment_selector()),
    ) {
        (Some(columns), Some(headings), Some(spans), Some(solutions), Some(comments)) => overview_of(
            id,
            columns,
            headings,
            spans,
            solutions.len() as u64,
            comments.len() as u64,
        ),
        _ => Err(CrackmeError::DetailParse("selector")),
    }
}

/// The lines that show an entry with its description.
pub open spec fn overview_report(v: OverviewView) -> Seq<char> {
    fields_report(v.base) + "\n"@ + "Description: "@ + v.description + "\n"@
}

fn flat_tokens_of<'a>(columns: &'a Vec<Vec<String>>) -> (r: Vec<&'a str>)
    ensures
        token_texts(r@) == flat_tokens(columns.deep_view()),
{
    let ghost all = columns.deep_view();
    let mut out: Vec<&'a str> = Vec::new();
    let mut i: usize = 0;
    assert(all.take(0) =~= Seq::empty());
    assert(token_texts(out@) =~= Seq::<Seq<char>>::empty());
    while i < columns.len()
        invariant
            i <= columns.len(),
            all == columns.deep_view(),
            token_texts(out@) == flat_tokens(all.take(i as int)),
        decreases columns.len() - i,
    {
        let more = tokens(&columns[i]);
        proof {
            assert(all.take(i + 1).drop_last() =~= all.take(i as int));
            assert(all.take(i + 1).last() == columns@[i as int].deep_view());
        }
        let ghost before = token_texts(out@);
        let mut k: usize = 0;
        while k < more.len()
            invariant
                k <= more.len(),
                token_texts(out@) == before + token_texts(more@).take(k as int),
            decreases more.len() - k,
        {
            let ghost sofar = token_texts(out@);
            out.push(more[k]);
            assert(token_texts(out@) =~= sofar.push(more@[k as int]@));
            assert(token_texts(more@).take(k + 1) =~= token_texts(more@).take(k as int).push(
                more@[k as int]@,
            ));
            k += 1;
        }
        assert(token_texts(more@).take(more.len() as int) =~= token_texts(more@));
        i += 1;
    }
    assert(all.take(columns.len() as int) =~= all);
    out
}

fn every_other_of<'a>(t: &Vec<&'a str>) -> (r: Vec<&'a str>)
    ensures
        token_texts(r@) == every_other(token_texts(t@)),
{
    let mut out: Vec<&'a str> = Vec::new();
    let half = t.len() / 2;
    let mut i: usize = 0;
    while i < half
        invariant
            i <= half,
            half == t.len() / 2,
            out.len() == i,
            forall|k: int| 0 <= k < i ==> out@[k]@ == t@[2 * k + 1]@,
        decreases half - i,
    {
        out.push(t[2 * i + 1]);
        i += 1;
    }
    assert(token_texts(out@) =~= every_other(token_texts(t@)));
    out
}

fn first_visible_of<'a>(texts: &'a Vec<String>) -> (r: Option<&'a str>)
    ensures
        r.deep_view() == first_visible(texts.deep_view()),
{
    let ghost all = texts.deep_view();
    let mut i: usize = 0;
    assert(all.skip(0) =~= all);
    while i < texts.len()
        invariant
            i <= texts.len(),
            all == texts.deep_view(),
            first_visible(all) == first_visible(all.skip(i as int)),
        decreases texts.len() - i,
    {
        let text = texts[i].as_str();
        proof {
            assert(all.skip(i as int)[0] == text@);
            assert(all.skip(i as int).drop_first() =~= all.skip(i + 1));
        }
        if !is_blank_str(text) {
            return Some(text);
        }
        i += 1;
    }
    assert(all.skip(texts.len() as int).len() == 0);
    None
}

impl OverviewCrackme {
    /// Reads an entry from the parts of its page: the text nodes of the
    /// information columns, of the headings and of the elements that may
    /// hold the description, and the numbers of solutions and comments.
    pub fn from_parts(
        id: &str,
        columns: &Vec<Vec<String>>,
        headings: &Vec<Vec<String>>,
        spans: &Vec<Vec<String>>,
        solutions: u64,
        comments: u64,
    ) -> (r: CrackmeResult<OverviewCrackme>)
        ensures
            match r {
                Ok(c) => overview_of(
                    id@,
                    columns.deep_view(),
                    headings.deep_view(),
                    spans.deep_view(),
                    solutions,
                    comments,
                ) == Ok::<OverviewView, CrackmeError>(c@),
                Err(e) => overview_of(
                    id@,
                    columns.deep_view(),
                    headings.deep_view(),
                    spans.deep_view(),
                    solutions,
                    comments,
                ) == Err::<OverviewView, CrackmeError>(e),
            },
    {
        let all = flat_tokens_of(columns);
        let info = every_other_of(&all);
        let n = info.len();
        let ghost t = token_texts(info@);
        assert(t == every_other(flat_tokens(columns.deep_view())));
        if n < 1 {
            return Err(CrackmeError::NotFound("author"));
        }
        let author = info[0];
        if n < 2 {
            return Err(CrackmeError::NotFound("language"));
        }
        let language = match Language::from_name(info[1]) {
            Some(l) => l,
            None => {
                return Err(CrackmeError::DetailParse("language"));
            },
        };
        if n < 3 {
            return Err(CrackmeError::NotFound("upload"));
        }
        let date = info[2];
        if n < 4 {
            return Err(CrackmeError::NotFound("platform"));
        }
        let platform = match Platform::from_name(info[3]) {
            Some(p) => p,
            None => {
                return Err(CrackmeError::DetailParse("platform"));
            },
        };
        if n < 5 {
            return Err(CrackmeError::NotFound("difficulty"));
        }
        let difficulty = match Rating::parse(info[4]) {
            Some(x) => x,
            None => {
                return Err(CrackmeError::DetailParse("difficulty"));
            },
        };
        if n < 6 {
            return Err(CrackmeError::NotFound("quality"));
        }
        let quality = match Rating::parse(info[5]) {
            Some(x) => x,
            None => {
                return Err(CrackmeError::DetailParse("quality"));
            },
        };
        if n > 8 {
            return Err(CrackmeError::Leftover("quality"));
        }
        assert(overview_fields(t) is Ok);
        if headings.len() == 0 || headings[0].len() < 2 {
            return Err(CrackmeError::NotFound("h3"));
        }
        assert(headings.deep_view()[0] == headings@[0].deep_view());
        assert(headings.deep_view()[0][1] == headings@[0]@[1]@);
        let name = match second_piece_of(headings[0][1].as_str(), "'s ") {
            Some(name) => name,
            None => {
                return Err(CrackmeError::NotFound("h3"));
            },
        };
        if spans.len() == 0 {
            return Err(CrackmeError::NotFound("description"));
        }
        assert(spans.deep_view()[0] == spans@[0].deep_view());
        let description = match first_visible_of(&spans[0]) {
            Some(d) => d,
            None => {
                return Err(CrackmeError::NotFound("description"));
            },
        };
        let stats = Stats::new(quality, difficulty);
        let base = BaseCrackme::new(
            String::from_str(name),
            String::from_str(author),
            language,
            String::from_str(date),
            platform,
            stats,
            String::from_str(id),
            solutions,
            comments,
        );
        Ok(OverviewCrackme { base, description: String::from_str(description) })
    }

    /// Reads an entry from its own page.
    pub fn with_full_html(html: &Html, id: &str) -> (r: CrackmeResult<OverviewCrackme>)
        ensures
            match r {
                Ok(c) => overview_page(*html, id@) == Ok::<OverviewView, CrackmeError>(c@),
                Err(e) => overview_page(*html, id@) == Err::<OverviewView, CrackmeError>(e),
            },
    {
        let columns = element_texts(html, "div.columns.panel-background div.column.col-3");
        let headings = element_texts(html, "h3");
        let spans = element_texts(html, "div.columns div.col-12 span");
        let solutions = element_texts(html, "div#solutions div.col-9");
        let comments = element_texts(html, "div#comments p");
        match (columns, headings, spans, solutions, comments) {
            (Some(columns), Some(headings), Some(spans), Some(solutions), Some(comments)) => {
                OverviewCrackme::from_parts(
                    id,
                    &columns,
                    &headings,
                    &spans,
                    solutions.len() as u64,
                    comments.len() as u64,
                )
            },
            _ => Err(CrackmeError::DetailParse("selector")),
        }
    }

    /// The fields that the entry shares with its other views.
    pub fn base(&self) -> (r: &BaseCrackme)
        ensures
            r@ == self@.base,
    {
        &self.base
    }

    pub fn description(&self) -> (r: &str)
        ensures
            r@ == self@.description,
    {
        self.description.as_str()
    }

    pub fn id(&self) -> (r: &str)
        ensures
            r@ == self@.base.id,
    {
        self.base.id()
    }

    pub fn name(&self) -> (r: &str)
        ensures
            r@ == self@.base.name,
    {
        self.base.name()
    }

    /// The lines that show the entry.
    pub fn to_string(&self) -> (r: String)
        ensures
            r@ == overview_report(self@),
    {
        let mut out = self.base.to_string();
        out.append("\n");
        out.append("Description: ");
        out.append(self.description.as_str());
        out.append("\n");
        out
    }
}

} // verus!
