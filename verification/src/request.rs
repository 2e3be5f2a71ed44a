use vstd::prelude::*;
use vstd::string::StringExecFns;
use scraper::Html;
use crate::cli::SearchArgs;
use crate::error::{CrackmeError, CrackmeResult};
use crate::number::{decimal, format_u64};
use crate::page::{element_attrs, selected_attrs};

verus! {

/// The address of the catalog.
pub const MAIN_URL: &'static str = "https://crackmes.one";

/// The address of the search page.
pub const SEARCH_URL: &'static str = "https://crackmes.one/search";

/// The address of the page of the entry `id`.
pub open spec fn overview_address(id: Seq<char>) -> Seq<char> {
    "https://crackmes.one/crackme/"@ + id
}

/// The address of the archive of the entry `id`.
pub open spec fn archive_address(id: Seq<char>) -> Seq<char> {
    "https://crackmes.one"@ + "/static/crackme/"@ + id + ".zip"@
}

/// The address of the page `page` of the latest entries.
pub open spec fn latest_address(page: u64) -> Seq<char> {
    "https://crackmes.one/lasts/"@ + decimal(page as nat)
}

/// The address of the page of the entry `id`.
pub fn overview_url(id: &str) -> (r: String)
    ensures
        r@ == overview_address(id@),
{
    let mut out = String::from_str("https://crackmes.one/crackme/");
    out.append(id);
    out
}

/// The address of the archive of the entry `id`.
pub fn archive_url(id: &str) -> (r: String)
    ensures
        r@ == archive_address(id@),
{
    let mut out = String::from_str("https://crackmes.one");
    out.append("/static/crackme/");
    out.append(id);
    out.append(".zip");
    out
}

/// The address of the page `page` of the latest entries.
pub fn latest_url(page: u64) -> (r: String)
    ensures
        r@ == latest_address(page),
{
    let mut out = String::from_str("https://crackmes.one/lasts/");
    out.append(format_u64(page).as_str());
    out
}

/// The selector that finds the token of the search form.
pub open spec fn token_selector() -> Seq<char> {
    "#token"@
}

/// The token among the values of the elements found: the value of the
/// first element, where there is one and it has a value.
pub open spec fn first_value(values: Seq<Option<Seq<char>>>) -> Option<Seq<char>> {
    if values.len() == 0 {
        None
    } else {
        values[0]
    }
}

/// The token that the search page holds.
pub open spec fn page_token(html: Html) -> Result<Seq<char>, CrackmeError> {
    match selected_attrs(html, token_selector(), "value"@) {
        None => Err(CrackmeError::DetailParse("selector")),
        Some(values) => match first_value(values) {
            Some(token) => Ok(token),
            None => Err(CrackmeError::NotFound("token")),
        },
    }
}

/// The token among the values of the elements that may carry it.
pub fn token_from(values: &Vec<Option<String>>) -> (r: CrackmeResult<String>)
    ensures
        match r {
            Ok(token) => first_value(values.deep_view()) == Some(token@),
            Err(e) => first_value(values.deep_view()) is None && e == CrackmeError::NotFound(
                "token",
            ),
        },
{
    if values.len() == 0 {
        return Err(CrackmeError::NotFound("token"));
    }
    assert(values.deep_view()[0] == values@[0].deep_view());
    match &values[0] {
        Some(token) => Ok(token.clone()),
        None => Err(CrackmeError::NotFound("token")),
    }
}

/// Reads the token that allows a search from the search page.
pub fn get_token(html: &Html) -> (r: CrackmeResult<String>)
    ensures
        match r {
            Ok(token) => page_token(*html) == Ok::<Seq<char>, CrackmeError>(token@),
            Err(e) => page_token(*html) == Err::<Seq<char>, CrackmeError>(e),
        },
{
    match element_attrs(html, "#token", "value") {
        Some(values) => token_from(&values),
        None => Err(CrackmeError::DetailParse("selector")),
    }
}

/// The selector that finds the link to an entry's archive.
pub open spec fn download_selector() -> Seq<char> {
    "a.btn-download"@
}

/// The address of the archive as an entry's page gives it: the address of
/// the first download link.
pub open spec fn page_download(html: Html) -> Result<Seq<char>, CrackmeError> {
    match selected_attrs(html, download_selector(), "href"@) {
        None => Err(CrackmeError::DetailParse("selector")),
        Some(values) => match first_value(values) {
            Some(address) => Ok(address),
            None => Err(CrackmeError::NotFound("href")),
        },
    }
}

/// Reads the address of the archive from an entry's page.
pub fn download_href(html: &Html) -> (r: CrackmeResult<String>)
    ensures
        match r {
            Ok(address) => page_download(*html) == Ok::<Seq<char>, CrackmeError>(address@),
            Err(e) => page_download(*html) == Err::<Seq<char>, CrackmeError>(e),
        },
{
    let values = match element_attrs(html, "a.btn-download", "href") {
        Some(values) => values,
        None => {
            return Err(CrackmeError::DetailParse("selector"));
        },
    };
    if values.len() == 0 {
        return Err(CrackmeError::NotFound("href"));
    }
    assert(values.deep_view()[0] == values@[0].deep_view());
    match &values[0] {
        Some(address) => Ok(address.clone()),
        None => Err(CrackmeError::NotFound("href")),
    }
}

/// A field of the search form, by name and value.
pub open spec fn field(name: Seq<char>, value: Seq<char>) -> (Seq<char>, Seq<char>) {
    (name, value)
}

/// The text of an optional criterion: empty where it is not given.
pub open spec fn text_or_empty(value: Option<String>) -> Seq<char> {
    match value {
        Some(s) => s@,
        None => Seq::empty(),
    }
}

/// The fields of the search form for the criteria `args`: name, author,
/// the bounds of both ratings and the token, then the language and the
/// platform where they are given.
pub open spec fn form_fields(args: SearchArgs, token: Seq<char>) -> Seq<(Seq<char>, Seq<char>)> {
    let fixed = seq![
        field("name"@, text_or_empty(args.name)),
        field("author"@, text_or_empty(args.author)),
        field("difficulty-min"@, decimal(args.difficulty.0 as nat)),
        field("difficulty-max"@, decimal(args.difficulty.1 as nat)),
        field("quality-min"@, decimal(args.quality.0 as nat)),
        field("quality-max"@, decimal(args.quality.1 as nat)),
        field("token"@, token),
    ];
    let with_language = match args.language {
        Some(l) => fixed.push(field("lang"@, l.name_text())),
        None => fixed,
    };
    match args.platform {
        Some(p) => with_language.push(field("platform"@, p.name_text())),
        None => with_language,
    }
}

fn owned_or_empty(value: &Option<String>) -> (r: String)
    ensures
        r@ == text_or_empty(*value),
{
    match value {
        Some(s) => s.clone(),
        None => String::new(),
    }
}

/// The fields of the search form for the criteria `args`.
pub fn search_form(args: &SearchArgs, token: &str) -> (r: Vec<(&'static str, String)>)
    ensures
        r.deep_view() == form_fields(*args, token@),
{
    let mut params: Vec<(&'static str, String)> = Vec::new();
    params.push(("name", owned_or_empty(&args.name)));
    params.push(("author", owned_or_empty(&args.author)));
    params.push(("difficulty-min", format_u64(args.difficulty.0 as u64)));
    params.push(("difficulty-max", format_u64(args.difficulty.1 as u64)));
    params.push(("quality-min", format_u64(args.quality.0 as u64)));
    params.push(("quality-max", format_u64(args.quality.1 as u64)));
    params.push(("token", String::from_str(token)));
    if let Some(l) = &args.language {
        params.push(("lang", l.to_string()));
    }
    if let Some(p) = &args.platform {
        params.push(("platform", p.to_string()));
    }
    assert(params.deep_view() =~= form_fields(*args, token@));
    params
}

} // verus!
