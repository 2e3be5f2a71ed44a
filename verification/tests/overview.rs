use crackmes::error::CrackmeError;
use crackmes::overview::OverviewCrackme;
use crackmes::request::{download_href, get_token};
use crackmes::{Html, Language, Platform};

const ENTRY_PAGE: &str = r#"<!DOCTYPE html>
<html>
<head><title>SAFE_01</title></head>
<body>
<div class="container grid-lg wrapper">
  <h3><a href="/user/oles">oles</a>'s SAFE_01</h3>
  <div class="columns panel-background">
    <div class="column col-3">
      <p>Author:<br>
        <a href="/user/oles">oles</a>
      </p>
    </div>
    <div class="column col-3">
      <p>Language:<br>
        (Visual) Basic
      </p>
    </div>
    <div class="column col-3">
      <p>Upload:<br>
        12:44 PM 04/22/2021
      </p>
    </div>
    <div class="column col-3">
      <p>Platform<br>
        Windows
      </p>
    </div>
    <div class="column col-3">
      <p>Difficulty:<br>
        1.0
      </p>
    </div>
    <div class="column col-3">
      <p>Quality:<br>
        3.7
      </p>
    </div>
    <div class="column col-3">
      <p>Rate the difficulty:<br>
        <a href="/crackme/60816fca33c5d42f38520831/rate-difficulty">Rate!</a>
      </p>
    </div>
    <div class="column col-3">
      <p>Rate the quality:<br>
        <a href="/crackme/60816fca33c5d42f38520831/rate-quality">Rate!</a>
      </p>
    </div>
    <div class="column col-6">
      <p>
        <a class="btn-download" href="/static/crackme/60816fca33c5d42f38520831.zip">Download</a>
      </p>
    </div>
  </div>
  <div class="columns">
    <div class="col-12">
      <p>
        <span style="white-space: pre-line">easy crackme ..enjoy )</span>
      </p>
    </div>
  </div>
  <div id="solutions">
    <h3>Solutions</h3>
  </div>
  <div id="comments">
    <h3>Comments</h3>
    <p><b>someone</b> on 1:00 PM 04/23/2021: nice one</p>
    <p><b>oles</b> on 2:00 PM 04/23/2021: thanks</p>
  </div>
</div>
</body>
</html>"#;

fn texts(column: &[&str]) -> Vec<String> {
    column.iter().map(|s| s.to_string()).collect()
}

fn columns() -> Vec<Vec<String>> {
    vec![
        texts(&["Author:", "\n", "oles", "\n  "]),
        texts(&["Language:", " vb "]),
        texts(&["Upload:", "12:44 PM 04/22/2021"]),
        texts(&["Platform", "windows"]),
        texts(&["Difficulty:", "1.0"]),
        texts(&["Quality:", "3.7"]),
        texts(&["Rate the difficulty:", "Rate!", "Rate the quality:"]),
        texts(&["Rate!"]),
    ]
}

fn headings() -> Vec<Vec<String>> {
    vec![texts(&["oles", "'s SAFE_01"]), texts(&["Solutions"])]
}

fn spans() -> Vec<Vec<String>> {
    vec![texts(&["  \n", "easy crackme ..enjoy )", "more"]), texts(&["other"])]
}

#[test]
fn overview_parse_full_crackme() {
    let html = Html::parse_document(ENTRY_PAGE);
    let id = "60816fca33c5d42f38520831";
    let crackme = OverviewCrackme::with_full_html(&html, id).unwrap();

    assert_eq!(crackme.name(), "SAFE_01");
    assert_eq!(crackme.base().author(), "oles");
    assert_eq!(crackme.base().date(), "12:44 PM 04/22/2021");
    assert_eq!(crackme.base().platform(), Platform::Windows);
    assert_eq!(crackme.base().language(), Language::VisualBasic);
    assert_eq!(crackme.base().stats().quality.as_str().parse::<f32>().unwrap(), 3.7);
    assert_eq!(crackme.base().stats().difficulty.as_str().parse::<f32>().unwrap(), 1.0);
    assert_eq!(crackme.id(), id);
    assert_eq!(crackme.base().solutions(), 0);
    assert_eq!(crackme.base().comments(), 2);
    assert_eq!(crackme.description(), "easy crackme ..enjoy )");
}

#[test]
fn crackme_parse_full_crackme() {
    let html = Html::parse_document(&ENTRY_PAGE.replace("3.7", "4.5"));
    let crackme = OverviewCrackme::with_full_html(&html, "60816fca33c5d42f38520831").unwrap();

    assert_eq!(crackme.name(), "SAFE_01");
    assert_eq!(crackme.base().author(), "oles");
    assert_eq!(crackme.base().date(), "12:44 PM 04/22/2021");
    assert_eq!(crackme.base().platform(), Platform::Windows);
    assert_eq!(crackme.base().language(), Language::VisualBasic);
    assert_eq!(crackme.base().stats().quality.as_str().parse::<f32>().unwrap(), 4.5);
    assert_eq!(crackme.base().stats().difficulty.as_str().parse::<f32>().unwrap(), 1.0);
    assert_eq!(
        download_href(&html),
        Ok("/static/crackme/60816fca33c5d42f38520831.zip".to_string())
    );
}

#[test]
fn overview_twice_is_the_same() {
    let first = OverviewCrackme::with_full_html(&Html::parse_document(ENTRY_PAGE), "id");
    let second = OverviewCrackme::with_full_html(&Html::parse_document(ENTRY_PAGE), "id");
    assert!(first.is_ok());
    assert_eq!(first, second);
}

#[test]
fn overview_from_plain_values() {
    let crackme =
        OverviewCrackme::from_parts("abc", &columns(), &headings(), &spans(), 3, 4).unwrap();
    assert_eq!(crackme.name(), "SAFE_01");
    assert_eq!(crackme.id(), "abc");
    assert_eq!(crackme.base().author(), "oles");
    assert_eq!(crackme.base().language(), Language::VisualBasic);
    assert_eq!(crackme.base().date(), "12:44 PM 04/22/2021");
    assert_eq!(crackme.base().platform(), Platform::Windows);
    assert_eq!(crackme.base().stats().difficulty.as_str(), "1.0");
    assert_eq!(crackme.base().stats().quality.as_str(), "3.7");
    assert_eq!(crackme.base().solutions(), 3);
    assert_eq!(crackme.base().comments(), 4);
    assert_eq!(crackme.description(), "easy crackme ..enjoy )");
    assert_eq!(
        crackme.to_string(),
        "Name: SAFE_01\nAuthor: oles\nLanguage: (Visual) Basic\nUpload: 12:44 PM 04/22/2021\n\
Platform: Windows\nQuality: 3.7\nDifficulty: 1.0\nSolutions: 3\nComments: 4\n\n\
Description: easy crackme ..enjoy )\n"
    );
}

#[test]
fn overview_names_the_missing_value() {
    let names: [&str; 6] = ["author", "language", "upload", "platform", "difficulty", "quality"];
    for k in 0..6usize {
        let some: Vec<Vec<String>> = columns()[..k].to_vec();
        assert_eq!(
            OverviewCrackme::from_parts("x", &some, &headings(), &spans(), 0, 0),
            Err(CrackmeError::NotFound(names[k]))
        );
    }
}

#[test]
fn overview_names_the_unreadable_value() {
    let cases: [(usize, &str, &str); 4] = [
        (1, "Klingon", "language"),
        (3, "Amiga", "platform"),
        (4, "hard", "difficulty"),
        (5, "good", "quality"),
    ];
    for (at, value, field) in cases {
        let mut all = columns();
        all[at][1] = value.to_string();
        assert_eq!(
            OverviewCrackme::from_parts("x", &all, &headings(), &spans(), 0, 0),
            Err(CrackmeError::DetailParse(field))
        );
    }
}

#[test]
fn overview_takes_two_tokens_after_the_fields_and_no_more() {
    let mut all = columns();
    all.push(texts(&["label", "third"]));
    assert_eq!(
        OverviewCrackme::from_parts("x", &all, &headings(), &spans(), 0, 0),
        Err(CrackmeError::Leftover("quality"))
    );
    let six: Vec<Vec<String>> = vec![
        texts(&["Author:", "oles"]),
        texts(&["Language:", "Java"]),
        texts(&["Upload:", "now"]),
        texts(&["Platform", "DOS"]),
        texts(&["Difficulty:", "1.0"]),
        texts(&["Quality:", "3.7"]),
    ];
    assert!(OverviewCrackme::from_parts("x", &six, &headings(), &spans(), 0, 0).is_ok());
}

#[test]
fn overview_needs_a_heading_with_the_separator() {
    let none: Vec<Vec<String>> = vec![];
    let one_text: Vec<Vec<String>> = vec![texts(&["oles's SAFE_01"])];
    let no_separator: Vec<Vec<String>> = vec![texts(&["oles", " SAFE_01"])];
    for h in [none, one_text, no_separator] {
        assert_eq!(
            OverviewCrackme::from_parts("x", &columns(), &h, &spans(), 0, 0),
            Err(CrackmeError::NotFound("h3"))
        );
    }
    let twice: Vec<Vec<String>> = vec![texts(&["oles", "'s Bob's keygen's end"])];
    let crackme = OverviewCrackme::from_parts("x", &columns(), &twice, &spans(), 0, 0).unwrap();
    assert_eq!(crackme.name(), "Bob");
}

#[test]
fn overview_needs_a_description() {
    let none: Vec<Vec<String>> = vec![];
    let blank: Vec<Vec<String>> = vec![texts(&[" ", "\n"]), texts(&["text"])];
    for s in [none, blank] {
        assert_eq!(
            OverviewCrackme::from_parts("x", &columns(), &headings(), &s, 0, 0),
            Err(CrackmeError::NotFound("description"))
        );
    }
}

#[test]
fn fields_fail_before_name_and_description() {
    let none: Vec<Vec<String>> = vec![];
    let mut all = columns();
    all[5][1] = "good".to_string();
    assert_eq!(
        OverviewCrackme::from_parts("x", &all, &none, &none, 0, 0),
        Err(CrackmeError::DetailParse("quality"))
    );
    assert_eq!(
        OverviewCrackme::from_parts("x", &columns(), &none, &none, 0, 0),
        Err(CrackmeError::NotFound("h3"))
    );
}

#[test]
fn token_is_the_value_of_the_token_element() {
    let page: &str = r#"<html><body><form method="post">
<input type="hidden" id="token" name="token" value="SECRET-REDACTED">
<input type="text" id="name" value="other">
</form></body></html>"#;
    assert_eq!(get_token(&Html::parse_document(page)), Ok("SECRET-REDACTED".to_string()));
}

#[test]
fn token_missing_is_not_found() {
    let no_element = Html::parse_document("<html><body><input id=\"name\" value=\"x\"></body></html>");
    assert_eq!(get_token(&no_element), Err(CrackmeError::NotFound("token")));
    let no_value = Html::parse_document("<html><body><input id=\"token\"></body></html>");
    assert_eq!(get_token(&no_value), Err(CrackmeError::NotFound("token")));
}

#[test]
fn download_link_missing_is_not_found() {
    let html = Html::parse_document("<html><body><a class=\"btn\" href=\"/x\">x</a></body></html>");
    assert_eq!(download_href(&html), Err(CrackmeError::NotFound("href")));
    let bare = Html::parse_document("<html><body><a class=\"btn-download\">x</a></body></html>");
    assert_eq!(download_href(&bare), Err(CrackmeError::NotFound("href")));
}

#[test]
fn error_messages_name_the_field() {
    assert_eq!(CrackmeError::NotFound("ID").message(), "No value found for ID!");
    assert_eq!(CrackmeError::DetailParse("quality").message(), "Failed to parse quality!");
    assert_eq!(
        CrackmeError::Leftover("comments").message(),
        "Unexpected value after comments!"
    );
}
