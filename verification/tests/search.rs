use crackmes::choice::{Chooser, Key, Outcome};
use crackmes::fuzzy::is_match;
use crackmes::list::{parse_row, ListCrackme};
use crackmes::search::{SearchText, Searcher};

fn entry(id: &str, name: &str, author: &str) -> ListCrackme {
    let row: Vec<&str> =
        vec![name, author, "C/C++", "1.0", "4.0", "Windows", "5:40 PM 05/07/2021", "0", "1"];
    parse_row(id, &row).unwrap()
}

fn five() -> Vec<ListCrackme> {
    vec![
        entry("id0", "EZwan", "DirkD"),
        entry("id1", "SAFE_01", "oles"),
        entry("id2", "Crack Me", "Segfault21"),
        entry("id3", "keygenme", "anna"),
        entry("id4", "unpackme", "bob"),
    ]
}

fn plain(c: char) -> Key {
    Key::Char { c, control: false }
}

#[test]
fn fuzzy_match_is_a_subsequence_match() {
    assert!(is_match("", ""));
    assert!(is_match("abcdefaghi", ""));
    assert!(!is_match("", "a"));
    assert!(!is_match("abc", "abx"));
    assert!(is_match("axbycz", "abc"));
    assert!(is_match("axbycz", "xyz"));
    assert!(!is_match("axbycz", "zyx"));
    assert!(!is_match("abc", "abcd"));
    assert!(!is_match("abcdefaghi", "中"));
}

#[test]
fn fuzzy_match_is_exact_only_for_upper_case_queries() {
    assert!(is_match("EZwan", "ezwan"));
    assert!(is_match("EZwan", "EZ"));
    assert!(!is_match("EZwan", "eZw"));
    assert!(!is_match("ezwan", "EZ"));
    assert!(is_match("EZWAN", "ezwan"));
    assert!(!is_match("ezwan", "Ezwan"));
    assert!(is_match("École", "cole"));
    assert!(!is_match("École", "école"));
}

#[test]
fn new_searcher_keeps_all_and_selects_the_last() {
    let searcher = Searcher::new(five());
    assert_eq!(searcher.state(), Some(4));
    assert_eq!(searcher.selected().unwrap().id(), "id4");
    assert_eq!(
        searcher.list(),
        vec![
            "EZwan by DirkD",
            "SAFE_01 by oles",
            "Crack Me by Segfault21",
            "keygenme by anna",
            "unpackme by bob"
        ]
    );
}

#[test]
fn empty_searcher_selects_nothing() {
    let mut searcher = Searcher::new(Vec::new());
    assert_eq!(searcher.state(), None);
    assert!(searcher.selected().is_none());
    searcher.next();
    assert_eq!(searcher.state(), None);
    searcher.previous();
    assert_eq!(searcher.state(), None);
    searcher.last();
    assert_eq!(searcher.state(), None);
    searcher.search("x");
    assert_eq!(searcher.state(), None);
    assert_eq!(searcher.fetch_descriptions(), Vec::<usize>::new());
    assert_eq!(searcher.list(), Vec::<String>::new());
    assert!(searcher.into_selected().is_none());
}

#[test]
fn empty_query_matches_all() {
    let mut searcher = Searcher::new(five());
    searcher.search("zzz");
    for query in ["", " ", "\t \n"] {
        searcher.search(query);
        assert_eq!(searcher.list().len(), 5);
        assert_eq!(searcher.state(), Some(4));
    }
}

#[test]
fn unmatched_query_yields_the_empty_set() {
    let mut searcher = Searcher::new(five());
    searcher.search("no such crackme qqq");
    assert_eq!(searcher.list(), Vec::<String>::new());
    assert_eq!(searcher.state(), None);
    assert!(searcher.selected().is_none());
    assert_eq!(searcher.fetch_descriptions(), Vec::<usize>::new());
    searcher.next();
    searcher.previous();
    assert_eq!(searcher.state(), None);
}

#[test]
fn search_keeps_the_order_of_the_page() {
    let mut searcher = Searcher::new(five());
    searcher.search("  me ");
    assert_eq!(
        searcher.list(),
        vec!["Crack Me by Segfault21", "keygenme by anna", "unpackme by bob"]
    );
    assert_eq!(searcher.state(), Some(2));
    assert_eq!(searcher.selected().unwrap().id(), "id4");
    searcher.search("oles");
    assert_eq!(searcher.list(), vec!["SAFE_01 by oles"]);
    assert_eq!(searcher.state(), Some(0));
    assert_eq!(searcher.selected().unwrap().id(), "id1");
}

#[test]
fn search_reads_every_field_and_the_description() {
    let mut searcher = Searcher::new(five());
    searcher.search("id3");
    assert_eq!(searcher.list(), vec!["keygenme by anna"]);
    searcher.search("patchme");
    assert_eq!(searcher.list().len(), 0);
    assert_eq!(searcher.describe(0, "a patchme for beginners".to_string()), Ok(()));
    searcher.search("patchme");
    assert_eq!(searcher.list(), vec!["EZwan by DirkD"]);
}

#[test]
fn cursor_stays_inside_the_list() {
    let mut searcher = Searcher::new(five());
    searcher.previous();
    searcher.previous();
    searcher.previous();
    searcher.previous();
    assert_eq!(searcher.state(), Some(0));
    for expected in [1usize, 2, 3, 4] {
        searcher.next();
        assert_eq!(searcher.state(), Some(expected));
    }
    searcher.next();
    assert_eq!(searcher.state(), Some(4));
    searcher.previous();
    assert_eq!(searcher.state(), Some(3));
    searcher.previous();
    searcher.previous();
    searcher.previous();
    assert_eq!(searcher.state(), Some(0));
    searcher.previous();
    assert_eq!(searcher.state(), Some(0));
    searcher.last();
    assert_eq!(searcher.state(), Some(4));
}

#[test]
fn window_is_the_cursor_and_its_neighbours() {
    let mut searcher = Searcher::new(five());
    assert_eq!(searcher.fetch_descriptions(), vec![3, 4]);
    searcher.previous();
    searcher.previous();
    assert_eq!(searcher.state(), Some(2));
    assert_eq!(searcher.fetch_descriptions(), vec![1, 2, 3]);
    searcher.previous();
    searcher.previous();
    assert_eq!(searcher.fetch_descriptions(), vec![0, 1]);
}

#[test]
fn filled_entries_are_not_fetched_again() {
    let mut searcher = Searcher::new(five());
    searcher.previous();
    searcher.previous();
    assert_eq!(searcher.describe(2, "two".to_string()), Ok(()));
    assert_eq!(searcher.fetch_descriptions(), vec![1, 3]);
    assert_eq!(searcher.describe(1, "one".to_string()), Ok(()));
    assert_eq!(searcher.describe(3, "three".to_string()), Ok(()));
    assert_eq!(searcher.fetch_descriptions(), Vec::<usize>::new());
    assert_eq!(searcher.describe(2, "again".to_string()), Err("again".to_string()));
    assert_eq!(searcher.selected().unwrap().description(), Some("two"));
    assert_eq!(searcher.describe(9, "nowhere".to_string()), Err("nowhere".to_string()));
}

#[test]
fn window_follows_the_kept_entries() {
    let mut searcher = Searcher::new(five());
    searcher.search("me");
    searcher.previous();
    assert_eq!(searcher.state(), Some(1));
    assert_eq!(searcher.fetch_descriptions(), vec![2, 3, 4]);
    searcher.search("bob");
    assert_eq!(searcher.fetch_descriptions(), vec![4]);
}

#[test]
fn into_selected_gives_the_entry_under_the_cursor() {
    let mut searcher = Searcher::new(five());
    searcher.search("anna");
    let chosen = searcher.into_selected().unwrap();
    assert_eq!(chosen.id(), "id3");
    assert_eq!(chosen.name(), "keygenme");
}

#[test]
fn search_text_grows_and_shrinks() {
    let mut text = SearchText::new();
    assert_eq!(text.as_str(), "");
    text.pop();
    assert_eq!(text.as_str(), "");
    text.push('a');
    text.push('é');
    text.push('b');
    assert_eq!(text.as_str(), "aéb");
    text.pop();
    assert_eq!(text.as_str(), "aé");
    text.pop();
    text.pop();
    text.pop();
    assert_eq!(text.as_str(), "");
    assert_eq!(SearchText::default().as_str(), "");
}

#[test]
fn search_text_shows_its_end() {
    let mut text = SearchText::new();
    for c in "abcdefghij".chars() {
        text.push(c);
    }
    assert_eq!(text.get(0), "");
    assert_eq!(text.get(1), "j");
    assert_eq!(text.get(2), "ij");
    assert_eq!(text.get(3), "");
    assert_eq!(text.get(4), "j");
    assert_eq!(text.get(8), "fghij");
    assert_eq!(text.get(13), "abcdefghij");
    assert_eq!(text.get(14), "abcdefghij");
    assert_eq!(text.get(usize::MAX), "abcdefghij");
    assert_eq!(SearchText::new().get(10), "");
}

#[test]
fn keys_step_type_and_end() {
    let mut chooser = Chooser::new(five());
    assert_eq!(chooser.searcher().state(), Some(4));
    assert_eq!(chooser.press(Key::Up), Outcome::Continue);
    assert_eq!(chooser.searcher().state(), Some(3));
    assert_eq!(chooser.press(Key::Char { c: 'k', control: true }), Outcome::Continue);
    assert_eq!(chooser.searcher().state(), Some(2));
    assert_eq!(chooser.press(Key::Down), Outcome::Continue);
    assert_eq!(chooser.press(Key::Char { c: 'j', control: true }), Outcome::Continue);
    assert_eq!(chooser.press(Key::Char { c: 'j', control: true }), Outcome::Continue);
    assert_eq!(chooser.searcher().state(), Some(4));
    assert_eq!(chooser.search_text().as_str(), "");

    assert_eq!(chooser.press(plain('m')), Outcome::Continue);
    assert_eq!(chooser.press(plain('e')), Outcome::Continue);
    assert_eq!(chooser.search_text().as_str(), "me");
    assert_eq!(chooser.searcher().list().len(), 3);
    assert_eq!(chooser.searcher().state(), Some(2));

    assert_eq!(chooser.press(plain('k')), Outcome::Continue);
    assert_eq!(chooser.search_text().as_str(), "mek");
    assert_eq!(chooser.press(Key::Backspace), Outcome::Continue);
    assert_eq!(chooser.press(Key::Char { c: 'x', control: true }), Outcome::Continue);
    assert_eq!(chooser.search_text().as_str(), "mex");
    assert_eq!(chooser.searcher().list().len(), 0);
    assert_eq!(chooser.searcher().state(), None);
    assert_eq!(chooser.press(Key::Backspace), Outcome::Continue);
    assert_eq!(chooser.press(Key::Backspace), Outcome::Continue);
    assert_eq!(chooser.press(Key::Backspace), Outcome::Continue);
    assert_eq!(chooser.press(Key::Backspace), Outcome::Continue);
    assert_eq!(chooser.search_text().as_str(), "");
    assert_eq!(chooser.searcher().list().len(), 5);
    assert_eq!(chooser.searcher().state(), Some(4));
}

#[test]
fn enter_ends_with_the_selection() {
    let mut chooser = Chooser::new(five());
    chooser.press(Key::Up);
    let outcome = chooser.press(Key::Enter);
    assert_eq!(outcome, Outcome::Chosen);
    assert_eq!(chooser.finish(outcome).unwrap().id(), "id3");
}

#[test]
fn escape_and_unknown_keys_end_without_a_selection() {
    for key in [Key::Esc, Key::Other] {
        let mut chooser = Chooser::new(five());
        let outcome = chooser.press(key);
        assert_eq!(outcome, Outcome::Aborted);
        assert_eq!(chooser.searcher().state(), Some(4));
        assert!(chooser.finish(outcome).is_none());
    }
    let chooser = Chooser::new(five());
    assert!(chooser.finish(Outcome::Continue).is_none());
}

#[test]
fn enter_on_an_empty_list_gives_nothing() {
    let mut chooser = Chooser::new(five());
    chooser.press(plain('#'));
    chooser.press(plain('#'));
    let outcome = chooser.press(Key::Enter);
    assert_eq!(outcome, Outcome::Chosen);
    assert!(chooser.finish(outcome).is_none());
}

#[test]
fn chooser_fetches_around_the_cursor() {
    let mut chooser = Chooser::new(five());
    assert_eq!(chooser.fetch_descriptions(), vec![3, 4]);
    assert_eq!(chooser.describe(3, "three".to_string()), Ok(()));
    assert_eq!(chooser.describe(4, "four".to_string()), Ok(()));
    assert_eq!(chooser.fetch_descriptions(), Vec::<usize>::new());
    chooser.press(Key::Up);
    assert_eq!(chooser.fetch_descriptions(), vec![2]);
    assert_eq!(chooser.describe(3, "again".to_string()), Err("again".to_string()));
    assert_eq!(chooser.searcher().selected().unwrap().description(), Some("three"));
}

#[test]
fn search_text_is_not_cut_inside_a_character() {
    let mut text = SearchText::new();
    for c in "aébc".chars() {
        text.push(c);
    }
    assert_eq!(text.try_get(3), Some(""));
    assert_eq!(text.try_get(5), Some("bc"));
    assert_eq!(text.try_get(6), None);
    assert_eq!(text.try_get(7), Some("ébc"));
    assert_eq!(text.try_get(8), Some("aébc"));
    assert_eq!(text.try_get(2), Some("bc"));
}

#[test]
fn kept_indices_rise() {
    let mut searcher = Searcher::new(five());
    assert_eq!(searcher.found(), &vec![0usize, 1, 2, 3, 4]);
    searcher.search("me");
    assert_eq!(searcher.found(), &vec![2usize, 3, 4]);
    searcher.search("qqq");
    assert_eq!(searcher.found(), &Vec::<usize>::new());
}

#[test]
fn entries_are_reached_by_their_index() {
    let searcher = Searcher::new(five());
    assert_eq!(searcher.entry(0).unwrap().id(), "id0");
    assert_eq!(searcher.entry(4).unwrap().id(), "id4");
    assert!(searcher.entry(5).is_none());
}

fn lower(c: char) -> char {
    if ('A'..='Z').contains(&c) {
        ((c as u8) + 32) as char
    } else {
        c
    }
}

fn occurs(choice: &[char], pattern: &[char], exact: bool) -> bool {
    if pattern.is_empty() {
        true
    } else if choice.is_empty() {
        false
    } else if (exact && choice[0] == pattern[0])
        || (!exact && lower(choice[0]) == lower(pattern[0]))
    {
        occurs(&choice[1..], &pattern[1..], exact)
    } else {
        occurs(&choice[1..], pattern, exact)
    }
}

fn words_of(alphabet: &[char], longest: usize) -> Vec<Vec<char>> {
    let mut all: Vec<Vec<char>> = vec![Vec::new()];
    let mut last: Vec<Vec<char>> = vec![Vec::new()];
    for _ in 0..longest {
        let mut next: Vec<Vec<char>> = Vec::new();
        for word in &last {
            for c in alphabet {
                let mut longer = word.clone();
                longer.push(*c);
                next.push(longer);
            }
        }
        all.extend(next.iter().cloned());
        last = next;
    }
    all
}

#[test]
fn every_short_query_matches_as_a_subsequence() {
    let alphabet: [char; 6] = ['a', 'A', 'b', 'B', 'é', 'É'];
    let choices = words_of(&alphabet, 4);
    let patterns = words_of(&alphabet, 3);
    for choice in &choices {
        let text: String = choice.iter().collect();
        for pattern in &patterns {
            let query: String = pattern.iter().collect();
            let exact = pattern.iter().any(|c| ('A'..='Z').contains(c));
            assert_eq!(
                is_match(&text, &query),
                occurs(choice, pattern, exact),
                "{:?} in {:?}",
                query,
                text
            );
        }
    }
}
