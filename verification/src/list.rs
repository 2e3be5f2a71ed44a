use vstd::prelude::*;
use vstd::string::StringExecFns;
use scraper::Html;
use crate::error::{CrackmeError, CrackmeResult};
use crate::language::{language_named, Language};
use crate::number::{parse_u64, parsed_u64};
use crate::page::{element_rows, selected_rows};
use crate::platform::{platform_named, Platform};
use crate::record::{fields_report, fields_text, BaseCrackme, CrackmeView};
use crate::stats::{is_float_literal, Rating, Stats};
use crate::text::{
    is_blank, is_blank_str, is_white_space, last_segment, last_segment_of,
    lemma_blank_iff_trimmed_empty, lemma_trimmed_ends, trim, trimmed,
};

verus! {

/// What an entry of a list page holds, as mathematical values.
pub struct ListView {
    pub base: CrackmeView,
    pub description: Option<Seq<char>>,
}

/// An entry of a list page. Its description comes later, from the entry's
/// own page, and is written once.
#[derive(Debug, PartialEq, Eq)]
pub struct ListCrackme {
    base: BaseCrackme,
    description: Option<String>,
}

impl Clone for ListCrackme {
    fn clone(&self) -> (r: ListCrackme)
        ensures
            r@ == self@,
    {
        ListCrackme {
            base: self.base.clone(),
            description: match &self.description {
                Some(d) => Some(d.clone()),
                None => None,
            },
        }
    }
}

impl View for ListCrackme {
    type V = ListView;

    closed spec fn view(&self) -> ListView {
        ListView { base: self.base@, description: self.description.deep_view() }
    }
}

/// The tokens of a run of text nodes: the nodes that are not blank, each
/// trimmed, in their order.
pub open spec fn tokens_of(texts: Seq<Seq<char>>) -> Seq<Seq<char>> {
    texts.filter(|t: Seq<char>| !is_blank(t)).map_values(|t: Seq<char>| trimmed(t))
}

/// The tokens of no text nodes are none; a further text node adds its
/// trimmed form to the tokens where it is not blank, and nothing where it
/// is.
pub proof fn lemma_tokens_step(texts: Seq<Seq<char>>)
    ensures
        texts.len() == 0 ==> tokens_of(texts) == Seq::<Seq<char>>::empty(),
        texts.len() > 0 && is_blank(texts.last()) ==> tokens_of(texts) == tokens_of(
            texts.drop_last(),
        ),
        texts.len() > 0 && !is_blank(texts.last()) ==> tokens_of(texts) == tokens_of(
            texts.drop_last(),
        ).push(trimmed(texts.last())),
{
    reveal(Seq::filter);
    let keep = |t: Seq<char>| !is_blank(t);
    let cut = |t: Seq<char>| trimmed(t);
    if texts.len() == 0 {
        assert(tokens_of(texts) =~= Seq::<Seq<char>>::empty());
    } else {
        let head = texts.drop_last().filter(keep);
        if keep(texts.last()) {
            assert(texts.filter(keep) == head.push(texts.last()));
            assert(head.push(texts.last()).map_values(cut) =~= head.map_values(cut).push(
                trimmed(texts.last()),
            ));
        } else {
            assert(texts.filter(keep) == head);
        }
    }
}

/// The characters of each token.
pub open spec fn token_texts(tokens: Seq<&str>) -> Seq<Seq<char>> {
    Seq::new(tokens.len(), |i: int| tokens[i]@)
}

/// How many fields a row of a list page has.
pub open spec fn row_width() -> nat {
    9
}

/// The entry that the tokens `t` of a row spell, read in the fixed order
/// name, author, language, difficulty, quality, platform, date, solutions,
/// comments. The first field that is missing or cannot be read gives the
/// error; so does a token after the last field.
pub open spec fn row_fields(id: Seq<char>, t: Seq<Seq<char>>) -> Result<CrackmeView, CrackmeError> {
    if t.len() < 1 {
        Err(CrackmeError::NotFound("name"))
    } else if t.len() < 2 {
        Err(CrackmeError::NotFound("author"))
    } else if t.len() < 3 {
        Err(CrackmeError::NotFound("language"))
    } else if language_named(t[2]) is None {
        Err(CrackmeError::DetailParse("language"))
    } else if t.len() < 4 {
        Err(CrackmeError::NotFound("difficulty"))
    } else if !is_float_literal(t[3]) {
        Err(CrackmeError::DetailParse("difficulty"))
    } else if t.len() < 5 {
        Err(CrackmeError::NotFound("quality"))
    } else if !is_float_literal(t[4]) {
        Err(CrackmeError::DetailParse("quality"))
    } else if t.len() < 6 {
        Err(CrackmeError::NotFound("platform"))
    } else if platform_named(t[5]) is None {
        Err(CrackmeError::DetailParse("platform"))
    } else if t.len() < 7 {
        Err(CrackmeError::NotFound("date"))
    } else if t.len() < 8 {
        Err(CrackmeError::NotFound("solutions"))
    } else if parsed_u64(t[7]) is None {
        Err(CrackmeError::DetailParse("solutions"))
    } else if t.len() < 9 {
        Err(CrackmeError::NotFound("comments"))
    } else if parsed_u64(t[8]) is None {
        Err(CrackmeError::DetailParse("comments"))
    } else if t.len() > 9 {
        Err(CrackmeError::Leftover("comments"))
    } else {
        Ok(
            CrackmeView {
                name: t[0],
                author: t[1],
                language: language_named(t[2])->0,
                date: t[6],
                platform: platform_named(t[5])->0,
                quality: t[4],
                difficulty: t[3],
                id,
                solutions: parsed_u64(t[7])->0,
                comments: parsed_u64(t[8])->0,
            },
        )
    }
}

/// The list entry that the tokens of a row spell: its fields, and no
/// description yet.
pub open spec fn list_row(id: Seq<char>, t: Seq<Seq<char>>) -> Result<ListView, CrackmeError> {
    match row_fields(id, t) {
        Ok(base) => Ok(ListView { base, description: None }),
        Err(e) => Err(e),
    }
}

/// The text by which a list entry is searched: its fields and, where it
/// has one, its description.
pub open spec fn search_text(v: ListView) -> Seq<char> {
    fields_text(v.base) + match v.description {
        Some(d) => d,
        None => Seq::empty(),
    }
}

/// The lines that show a list entry.
pub open spec fn list_report(v: ListView) -> Seq<char> {
    fields_report(v.base) + "\n"@ + "Description: "@ + match v.description {
        Some(d) => d,
        None => "No description found"@,
    } + "\n"@
}

/// The label under which an entry stands in a list.
pub open spec fn label(v: ListView) -> Seq<char> {
    v.base.name + " by "@ + v.base.author
}

/// Whether a description can still be written to the entry.
pub open spec fn accepts_description(v: ListView) -> bool {
    v.description is None
}

/// The entry after an attempt to write the description `s` to it.
pub open spec fn with_description(v: ListView, s: Seq<char>) -> ListView {
    if accepts_description(v) {
        ListView { base: v.base, description: Some(s) }
    } else {
        v
    }
}

/// A description is written at most once: the first attempt on an entry
/// without one succeeds and stores it, every later attempt is refused and
/// leaves the entry as it is.
pub proof fn lemma_description_written_once(v: ListView, first: Seq<char>, second: Seq<char>)
    ensures
        accepts_description(v) ==> with_description(v, first).description == Some(first),
        !accepts_description(with_description(v, first)),
        with_description(with_description(v, first), second) == with_description(v, first),
{
}

/// The tokens of a run of text nodes are no more than the nodes, none of
/// them is empty, and none begins or ends with white space.
pub proof fn lemma_tokens_are_trimmed(texts: Seq<Seq<char>>)
    ensures
        tokens_of(texts).len() <= texts.len(),
        forall|i: int|
            0 <= i < tokens_of(texts).len() ==> {
                let token = #[trigger] tokens_of(texts)[i];
                token.len() > 0 && !is_white_space(token.first()) && !is_white_space(
                    token.last(),
                )
            },
    decreases texts.len(),
{
    lemma_tokens_step(texts);
    if texts.len() > 0 {
        lemma_tokens_are_trimmed(texts.drop_last());
        if !is_blank(texts.last()) {
            lemma_blank_iff_trimmed_empty(texts.last());
            lemma_trimmed_ends(texts.last());
        }
    }
}

/// A row spells an entry exactly when it has as many tokens as there are
/// fields and each token can be read as its field.
pub proof fn lemma_row_is_read(id: Seq<char>, t: Seq<Seq<char>>)
    ensures
        list_row(id, t) is Ok <==> t.len() == row_width() && language_named(t[2]) is Some
            && is_float_literal(t[3]) && is_float_literal(t[4]) && platform_named(t[5]) is Some
            && parsed_u64(t[7]) is Some && parsed_u64(t[8]) is Some,
{
}

/// A row that spells an entry spells none once a token is added at its end.
pub proof fn lemma_extra_token_fails(id: Seq<char>, t: Seq<Seq<char>>, extra: Seq<char>)
    requires
        list_row(id, t) is Ok,
    ensures
        list_row(id, t.push(extra)) == Err::<ListView, CrackmeError>(
            CrackmeError::Leftover("comments"),
        ),
{
    let u = t.push(extra);
    assert(t.len() == 9);
    assert(forall|i: int| 0 <= i < 9 ==> u[i] == t[i]);
}

impl ListCrackme {
    /// The fields that the entry shares with its other views.
    pub fn base(&self) -> (r: &BaseCrackme)
        ensures
            r@ == self@.base,
    {
        &self.base
    }

    /// The text by which the entry is searched.
    pub fn to_search_string(&self) -> (r: String)
        ensures
            r@ == search_text(self@),
    {
        let mut out = self.base.to_search_string();
        match &self.description {
            Some(d) => {
                out.append(d.as_str());
            },
            None => {
                assert(out@ + Seq::<char>::empty() =~= out@);
            },
        }
        out
    }

    /// The lines that show the entry.
    pub fn to_string(&self) -> (r: String)
        ensures
            r@ == list_report(self@),
    {
        let mut out = self.base.to_string();
        out.append("\n");
        out.append("Description: ");
        match &self.description {
            Some(d) => {
                out.append(d.as_str());
            },
            None => {
                out.append("No description found");
            },
        }
        out.append("\n");
        out
    }

    pub fn description(&self) -> (r: Option<&str>)
        ensures
            r.deep_view() == self@.description,
    {
        match &self.description {
            Some(d) => Some(d.as_str()),
            None => None,
        }
    }

    pub fn name(&self) -> (r: &str)
        ensures
            r@ == self@.base.name,
    {
        self.base.name()
    }

    pub fn author(&self) -> (r: &str)
        ensures
            r@ == self@.base.author,
    {
        self.base.author()
    }

    pub fn id(&self) -> (r: &str)
        ensures
            r@ == self@.base.id,
    {
        self.base.id()
    }

    /// Writes the description, once: an entry without one takes `s`; an
    /// entry that has one stays as it is and hands `s` back.
    pub fn try_set_description(&mut self, s: String) -> (r: Result<(), String>)
        ensures
            final(self)@ == with_description(old(self)@, s@),
            accepts_description(old(self)@) ==> r is Ok,
            !accepts_description(old(self)@) ==> r == Err::<(), String>(s),
    {
        if self.description.is_none() {
            self.description = Some(s);
            Ok(())
        } else {
            Err(s)
        }
    }

    /// The label under which the entry stands in a list.
    pub fn label(&self) -> (r: String)
        ensures
            r@ == label(self@),
    {
        let mut text = String::from_str(self.base.name());
        text.append(" by ");
        text.append(self.base.author());
        text
    }
}

/// An entry as a list offers it: its label, the lines that show it, and
/// its identifier.
#[derive(Debug)]
pub struct ListItem {
    text: String,
    preview: String,
    pub id: String,
}

impl ListItem {
    /// The item that offers `crackme`.
    pub fn with_search(crackme: &ListCrackme) -> (r: ListItem)
        ensures
            r.text_view() == label(crackme@),
            r.preview_view() == list_report(crackme@),
            r.id_view() == crackme@.base.id,
    {
        ListItem {
            text: crackme.label(),
            preview: crackme.to_string(),
            id: String::from_str(crackme.id()),
        }
    }

    /// The label, as a mathematical value.
    pub closed spec fn text_view(&self) -> Seq<char> {
        self.text@
    }

    /// The lines that show the entry, as a mathematical value.
    pub closed spec fn preview_view(&self) -> Seq<char> {
        self.preview@
    }

    /// The identifier, as a mathematical value.
    pub closed spec fn id_view(&self) -> Seq<char> {
        self.id@
    }

    /// The label.
    pub fn text(&self) -> (r: &str)
        ensures
            r@ == self.text_view(),
    {
        self.text.as_str()
    }

    /// The lines that show the entry.
    pub fn preview(&self) -> (r: &str)
        ensures
            r@ == self.preview_view(),
    {
        self.preview.as_str()
    }
}

/// Reads the tokens of one row of a list page into an entry.
pub fn parse_row(id: &str, tokens: &Vec<&str>) -> (r: CrackmeResult<ListCrackme>)
    ensures
        match r {
            Ok(c) => list_row(id@, token_texts(tokens@)) == Ok::<ListView, CrackmeError>(c@),
            Err(e) => list_row(id@, token_texts(tokens@)) == Err::<ListView, CrackmeError>(e),
        },
{
    let ghost t = token_texts(tokens@);
    let n = tokens.len();
    if n < 1 {
        return Err(CrackmeError::NotFound("name"));
    }
    let name = tokens[0];
    if n < 2 {
        return Err(CrackmeError::NotFound("author"));
    }
    let author = tokens[1];
    if n < 3 {
        return Err(CrackmeError::NotFound("language"));
    }
    let language = match Language::from_name(tokens[2]) {
        Some(l) => l,
        None => {
            return Err(CrackmeError::DetailParse("language"));
        },
    };
    if n < 4 {
        return Err(CrackmeError::NotFound("difficulty"));
    }
    let difficulty = match Rating::parse(tokens[3]) {
        Some(x) => x,
        None => {
            return Err(CrackmeError::DetailParse("difficulty"));
        },
    };
    if n < 5 {
        return Err(CrackmeError::NotFound("quality"));
    }
    let quality = match Rating::parse(tokens[4]) {
        Some(x) => x,
        None => {
            return Err(CrackmeError::DetailParse("quality"));
        },
    };
    if n < 6 {
        return Err(CrackmeError::NotFound("platform"));
    }
    let platform = match Platform::from_name(tokens[5]) {
        Some(p) => p,
        None => {
            return Err(CrackmeError::DetailParse("platform"));
        },
    };
    if n < 7 {
        return Err(CrackmeError::NotFound("date"));
    }
    let date = tokens[6];
    if n < 8 {
        return Err(CrackmeError::NotFound("solutions"));
    }
    let solutions = match parse_u64(tokens[7]) {
        Some(x) => x,
        None => {
            return Err(CrackmeError::DetailParse("solutions"));
        },
    };
    if n < 9 {
        return Err(CrackmeError::NotFound("comments"));
    }
    let comments = match parse_u64(tokens[8]) {
        Some(x) => x,
        None => {
            return Err(CrackmeError::DetailParse("comments"));
        },
    };
    if n > 9 {
        return Err(CrackmeError::Leftover("comments"));
    }
    let stats = Stats::new(quality, difficulty);
    let base = BaseCrackme::new(
        String::from_str(name),
        String::from_str(author),
        language,
        String::from_str(date),
        platform,
        stats,
        String::from_str(id),
        solutions,
        comments,
    );
    Ok(ListCrackme { base, description: None })
}

/// The tokens of a run of text nodes: those that are not blank, trimmed.
pub fn tokens<'a>(texts: &'a Vec<String>) -> (r: Vec<&'a str>)
    ensures
        token_texts(r@) == tokens_of(texts.deep_view()),
{
    let ghost all = texts.deep_view();
    let mut out: Vec<&'a str> = Vec::new();
    let mut i: usize = 0;
    proof {
        lemma_tokens_step(all.take(0));
    }
    assert(token_texts(out@) =~= Seq::<Seq<char>>::empty());
    while i < texts.len()
        invariant
            i <= texts.len(),
            all == texts.deep_view(),
            token_texts(out@) == tokens_of(all.take(i as int)),
        decreases texts.len() - i,
    {
        let text: &'a str = texts[i].as_str();
        proof {
            assert(all.take(i + 1).drop_last() =~= all.take(i as int));
            assert(all.take(i + 1).last() == text@);
            lemma_tokens_step(all.take(i + 1));
        }
        if !is_blank_str(text) {
            let ghost before = token_texts(out@);
            let token = trim(text);
            out.push(token);
            assert(token_texts(out@) =~= before.push(trimmed(text@)));
        }
        i += 1;
    }
    assert(all.take(texts.len() as int) =~= all);
    out
}

/// The selector that finds the rows of a list page.
pub open spec fn row_selector() -> Seq<char> {
    "#content-list .text-center"@
}

/// The selector that finds, inside a row, the links to an entry's page.
pub open spec fn link_selector() -> Seq<char> {
    "td a[href^=\"/crackme/\"]"@
}

/// The identifier that a row's links carry: the last path segment of the
/// address of the first link, where there is a link and it has an address.
pub open spec fn row_id(links: Seq<Option<Seq<char>>>) -> Option<Seq<char>> {
    if links.len() == 0 {
        None
    } else {
        match links[0] {
            Some(address) => Some(last_segment(address)),
            None => None,
        }
    }
}

/// The entry that one row of a list page spells.
pub open spec fn page_row(row: (Seq<Seq<char>>, Seq<Option<Seq<char>>>)) -> Result<
    ListView,
    CrackmeError,
> {
    match row_id(row.1) {
        Some(id) => list_row(id, tokens_of(row.0)),
        None => Err(CrackmeError::NotFound("ID")),
    }
}

/// The entries that the rows of a list page spell, in their order; the
/// error of the first row that spells none, where there is such a row.
pub open spec fn page_rows(rows: Seq<(Seq<Seq<char>>, Seq<Option<Seq<char>>>)>) -> Result<
    Seq<ListView>,
    CrackmeError,
>
    decreases rows.len(),
{
    if rows.len() == 0 {
        Ok(Seq::empty())
    } else {
        match page_rows(rows.drop_last()) {
            Err(e) => Err(e),
            Ok(head) => match page_row(rows.last()) {
                Err(e) => Err(e),
                Ok(entry) => Ok(head.push(entry)),
            },
        }
    }
}

/// The entries of a list page.
pub open spec fn list_page(html: Html) -> Result<Seq<ListView>, CrackmeError> {
    match selected_rows(html, row_selector(), link_selector(), "href"@) {
        Some(rows) => page_rows(rows),
        None => Err(CrackmeError::DetailParse("selector")),
    }
}

/// What each of the entries holds.
pub open spec fn list_views(entries: Seq<ListCrackme>) -> Seq<ListView> {
    Seq::new(entries.len(), |i: int| entries[i]@)
}

/// Reads the rows of a list page, each given by its text nodes and by the
/// addresses of its links: all the entries, or the error of the first row
/// that cannot be read.
pub fn parse_rows(rows: &Vec<(Vec<String>, Vec<Option<String>>)>) -> (r: CrackmeResult<
    Vec<ListCrackme>,
>)
    ensures
        match r {
            Ok(entries) => page_rows(rows.deep_view()) == Ok::<Seq<ListView>, CrackmeError>(
                list_views(entries@),
            ),
            Err(e) => page_rows(rows.deep_view()) == Err::<Seq<ListView>, CrackmeError>(e),
        },
{
    let ghost all = rows.deep_view();
    let mut out: Vec<ListCrackme> = Vec::new();
    let mut i: usize = 0;
    assert(all.take(0) =~= Seq::empty());
    assert(list_views(out@) =~= Seq::<ListView>::empty());
    while i < rows.len()
        invariant
            i <= rows.len(),
            all == rows.deep_view(),
            page_rows(all.take(i as int)) == Ok::<Seq<ListView>, CrackmeError>(
                list_views(out@),
            ),
        decreases rows.len() - i,
    {
        let texts: &Vec<String> = &rows[i].0;
        let links: &Vec<Option<String>> = &rows[i].1;
        proof {
            assert(all.take(i + 1).drop_last() =~= all.take(i as int));
            assert(all.take(i + 1).last() == all[i as int]);
            assert(all[i as int] == rows@[i as int].deep_view());
            assert(all[i as int].0 == texts.deep_view());
            assert(all[i as int].1 == links.deep_view());
        }
        if links.len() == 0 {
            proof {
                lemma_page_rows_stops(all, i as int + 1);
            }
            return Err(CrackmeError::NotFound("ID"));
        }
        let id: &str = match &links[0] {
            Some(address) => last_segment_of(address.as_str()),
            None => {
                proof {
                    assert(links.deep_view()[0] == links@[0].deep_view());
                    lemma_page_rows_stops(all, i as int + 1);
                }
                return Err(CrackmeError::NotFound("ID"));
            },
        };
        assert(links.deep_view()[0] == links@[0].deep_view());
        let row_tokens = tokens(texts);
        match parse_row(id, &row_tokens) {
            Ok(entry) => {
                let ghost before = list_views(out@);
                out.push(entry);
                assert(list_views(out@) =~= before.push(entry@));
            },
            Err(e) => {
                proof {
                    lemma_page_rows_stops(all, i as int + 1);
                }
                return Err(e);
            },
        }
        i += 1;
    }
    assert(all.take(rows.len() as int) =~= all);
    Ok(out)
}

/// Reads the entries of a list page: all of them, or the error of the
/// first row that cannot be read.
pub fn parse_list(html: &Html) -> (r: CrackmeResult<Vec<ListCrackme>>)
    ensures
        match r {
            Ok(entries) => list_page(*html) == Ok::<Seq<ListView>, CrackmeError>(
                list_views(entries@),
            ),
            Err(e) => list_page(*html) == Err::<Seq<ListView>, CrackmeError>(e),
        },
{
    match element_rows(html, "#content-list .text-center", "td a[href^=\"/crackme/\"]", "href") {
        Some(rows) => parse_rows(&rows),
        None => Err(CrackmeError::DetailParse("selector")),
    }
}

/// A page is read wholly or not at all: the entries are the rows' entries,
/// one for each row and in their order, where every row spells one; else
/// the page gives the error of the first row that spells none.
pub proof fn lemma_page_rows(rows: Seq<(Seq<Seq<char>>, Seq<Option<Seq<char>>>)>)
    ensures
        match page_rows(rows) {
            Ok(entries) => entries.len() == rows.len() && forall|i: int|
                0 <= i < rows.len() ==> page_row(#[trigger] rows[i]) == Ok::<
                    ListView,
                    CrackmeError,
                >(entries[i]),
            Err(e) => exists|k: int|
                0 <= k < rows.len() && page_row(#[trigger] rows[k]) == Err::<
                    ListView,
                    CrackmeError,
                >(e) && forall|i: int| 0 <= i < k ==> page_row(#[trigger] rows[i]) is Ok,
        },
    decreases rows.len(),
{
    if rows.len() > 0 {
        let head = rows.drop_last();
        lemma_page_rows(head);
        match page_rows(head) {
            Ok(entries) => {
                match page_row(rows.last()) {
                    Ok(entry) => {
                        let all = entries.push(entry);
                        assert forall|i: int| 0 <= i < rows.len() implies page_row(
                            #[trigger] rows[i],
                        ) == Ok::<ListView, CrackmeError>(all[i]) by {
                            if i < head.len() {
                                assert(rows[i] == head[i]);
                            }
                        }
                    },
                    Err(e) => {
                        let k = rows.len() - 1;
                        assert(page_row(rows[k]) == Err::<ListView, CrackmeError>(e));
                        assert forall|i: int| 0 <= i < k implies page_row(
                            #[trigger] rows[i],
                        ) is Ok by {
                            assert(rows[i] == head[i]);
                        }
                    },
                }
            },
            Err(e) => {
                let k = choose|k: int|
                    0 <= k < head.len() && page_row(#[trigger] head[k]) == Err::<
                        ListView,
                        CrackmeError,
                    >(e) && forall|i: int| 0 <= i < k ==> page_row(#[trigger] head[i]) is Ok;
                assert(rows[k] == head[k]);
                assert forall|i: int| 0 <= i < k implies page_row(#[trigger] rows[i]) is Ok by {
                    assert(rows[i] == head[i]);
                }
            },
        }
    }
}

/// Once the rows up to `k` give an error, all the rows give that error.
pub proof fn lemma_page_rows_stops(
    rows: Seq<(Seq<Seq<char>>, Seq<Option<Seq<char>>>)>,
    k: int,
)
    requires
        0 <= k <= rows.len(),
        page_rows(rows.take(k)) is Err,
    ensures
        page_rows(rows) == page_rows(rows.take(k)),
    decreases rows.len() - k,
{
    if k == rows.len() {
        assert(rows.take(k) =~= rows);
    } else {
        assert(rows.take(k + 1).drop_last() =~= rows.take(k));
        lemma_page_rows_stops(rows, k + 1);
    }
}

} // verus!
