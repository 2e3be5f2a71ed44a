use vstd::prelude::*;
use crate::list::{accepts_description, list_views, ListCrackme, ListView};
use crate::search::{
    chosen, described, indices, last_position, matching, position_after_next, position_after_previous,
    wanted, SearchText, Searcher, SearcherView,
};

verus! {

/// A key that the user pressed, as far as the choice depends on it.
#[derive(Debug, Clone, Copy, PartialEq, Eq, Structural)]
pub enum Key {
    Enter,
    Esc,
    Up,
    Down,
    Backspace,
    /// A character, and whether the control key, and no other modifier,
    /// was held with it.
    Char { c: char, control: bool },
    /// Any other key.
    Other,
}

/// How the choice goes on after a key.
#[derive(Debug, Clone, Copy, PartialEq, Eq, Structural)]
pub enum Outcome {
    /// The choice goes on: the descriptions around the cursor are wanted,
    /// and the screen is drawn anew.
    Continue,
    /// The choice ends with the entry under the cursor.
    Chosen,
    /// The choice ends without an entry.
    Aborted,
}

/// What the choice holds, as mathematical values.
pub struct ChooserView {
    pub searcher: SearcherView,
    pub query: Seq<char>,
}

/// What a key does.
pub enum Move {
    Accept,
    Abort,
    StepUp,
    StepDown,
    Type(char),
    Erase,
}

/// What the key `key` does: control with `k` and control with `j` step
/// like the arrows, every other character is typed, and a key that has no
/// meaning aborts.
pub open spec fn move_of(key: Key) -> Move {
    match key {
        Key::Enter => Move::Accept,
        Key::Esc => Move::Abort,
        Key::Up => Move::StepUp,
        Key::Down => Move::StepDown,
        Key::Backspace => Move::Erase,
        Key::Char { c, control } => if control && c == 'k' {
            Move::StepUp
        } else if control && c == 'j' {
            Move::StepDown
        } else {
            Move::Type(c)
        },
        Key::Other => Move::Abort,
    }
}

/// How the choice goes on after the key `key`.
pub open spec fn outcome_of(key: Key) -> Outcome {
    match move_of(key) {
        Move::Accept => Outcome::Chosen,
        Move::Abort => Outcome::Aborted,
        _ => Outcome::Continue,
    }
}

/// The query after the key `key`.
pub open spec fn query_after(query: Seq<char>, key: Key) -> Seq<char> {
    match move_of(key) {
        Move::Type(c) => query.push(c),
        Move::Erase => if query.len() > 0 {
            query.drop_last()
        } else {
            query
        },
        _ => query,
    }
}

/// The searcher after a new query was answered.
pub open spec fn answered(s: SearcherView, query: Seq<char>) -> SearcherView {
    let found = matching(s.entries, query);
    SearcherView { entries: s.entries, found, cursor: last_position(found.len() as int) }
}

/// The choice after the key `key`: a step moves the cursor, a change of
/// the query answers the new query, and a key that ends the choice leaves
/// everything as it is.
pub open spec fn after_key(v: ChooserView, key: Key) -> ChooserView {
    let s = v.searcher;
    match move_of(key) {
        Move::Accept | Move::Abort => v,
        Move::StepUp => ChooserView {
            searcher: SearcherView {
                entries: s.entries,
                found: s.found,
                cursor: position_after_previous(s.cursor, s.found.len() as int),
            },
            query: v.query,
        },
        Move::StepDown => ChooserView {
            searcher: SearcherView {
                entries: s.entries,
                found: s.found,
                cursor: position_after_next(s.cursor, s.found.len() as int),
            },
            query: v.query,
        },
        Move::Type(_) | Move::Erase => ChooserView {
            searcher: answered(s, query_after(v.query, key)),
            query: query_after(v.query, key),
        },
    }
}

/// The entry that a choice ends with.
pub open spec fn result_of(v: ChooserView, outcome: Outcome) -> Option<ListView> {
    match outcome {
        Outcome::Chosen => chosen(v.searcher),
        _ => None,
    }
}

/// A character that is typed and erased again leaves the query as it was,
/// and the entries that the query keeps.
pub proof fn lemma_erase_undoes_type(v: ChooserView, c: char, control: bool)
    requires
        move_of(Key::Char { c, control }) == Move::Type(c),
    ensures
        after_key(after_key(v, Key::Char { c, control }), Key::Backspace).query == v.query,
        after_key(after_key(v, Key::Char { c, control }), Key::Backspace).searcher == answered(
            v.searcher,
            v.query,
        ),
{
    assert(v.query.push(c).drop_last() =~= v.query);
}

/// A key that ends the choice changes nothing.
pub proof fn lemma_end_changes_nothing(v: ChooserView, key: Key)
    requires
        outcome_of(key) != Outcome::Continue,
    ensures
        after_key(v, key) == v,
{
}

/// The user's choice among the entries of one page: the entries with the
/// cursor, and the query typed so far.
#[derive(Debug)]
pub struct Chooser {
    searcher: Searcher,
    text: SearchText,
}

impl View for Chooser {
    type V = ChooserView;

    closed spec fn view(&self) -> ChooserView {
        ChooserView { searcher: self.searcher@, query: self.text@ }
    }
}

impl Chooser {
    /// A choice among `store` with an empty query, every entry kept and
    /// the cursor on the last one.
    pub fn new(store: Vec<ListCrackme>) -> (r: Chooser)
        ensures
            r@.query == Seq::<char>::empty(),
            r@.searcher.entries == list_views(store@),
            r@.searcher.found == indices(store.len() as nat),
            r@.searcher.cursor == last_position(store.len() as int),
    {
        Chooser { searcher: Searcher::new(store), text: SearchText::new() }
    }

    /// Takes a key: moves the cursor or changes the query and answers it,
    /// and says how the choice goes on.
    pub fn press(&mut self, key: Key) -> (r: Outcome)
        ensures
            final(self)@ == after_key(old(self)@, key),
            r == outcome_of(key),
    {
        match key {
            Key::Enter => Outcome::Chosen,
            Key::Esc => Outcome::Aborted,
            Key::Up => {
                self.searcher.previous();
                Outcome::Continue
            },
            Key::Down => {
                self.searcher.next();
                Outcome::Continue
            },
            Key::Backspace => {
                self.text.pop();
                self.searcher.search(self.text.as_str());
                Outcome::Continue
            },
            Key::Char { c, control } => {
                if control && c == 'k' {
                    self.searcher.previous();
                } else if control && c == 'j' {
                    self.searcher.next();
                } else {
                    self.text.push(c);
                    self.searcher.search(self.text.as_str());
                }
                Outcome::Continue
            },
            Key::Other => Outcome::Aborted,
        }
    }

    /// The entries and the cursor.
    pub fn searcher(&self) -> (r: &Searcher)
        ensures
            r@ == self@.searcher,
    {
        &self.searcher
    }

    /// The query typed so far.
    pub fn search_text(&self) -> (r: &SearchText)
        ensures
            r@ == self@.query,
    {
        &self.text
    }

    /// The indices of the entries whose descriptions are to be fetched
    /// before the screen is drawn.
    pub fn fetch_descriptions(&self) -> (r: Vec<usize>)
        ensures
            r@ == wanted(self@.searcher),
            forall|k: int| 0 <= k < r.len() ==> (#[trigger] r@[k]) < self@.searcher.entries.len(),
    {
        self.searcher.fetch_descriptions()
    }

    /// Writes a description that was fetched to the entry at `index`,
    /// once; a second one for the same entry comes back and changes
    /// nothing.
    pub fn describe(&mut self, index: usize, text: String) -> (r: Result<(), String>)
        ensures
            final(self)@.query == old(self)@.query,
            final(self)@.searcher.entries == described(
                old(self)@.searcher.entries,
                index as int,
                text@,
            ),
            final(self)@.searcher.found == old(self)@.searcher.found,
            final(self)@.searcher.cursor == old(self)@.searcher.cursor,
            r is Ok <==> index < old(self)@.searcher.entries.len() && accepts_description(
                old(self)@.searcher.entries[index as int],
            ),
            r matches Err(back) ==> back == text && final(self)@ == old(self)@,
    {
        let ghost before = self.searcher@.entries;
        let r = self.searcher.describe(index, text);
        proof {
            if r is Err {
                assert(self.searcher@.entries =~= before);
            }
        }
        r
    }

    /// Ends the choice: the entry under the cursor where the user chose
    /// it, and none otherwise.
    pub fn finish(self, outcome: Outcome) -> (r: Option<ListCrackme>)
        ensures
            match r {
                Some(entry) => result_of(self@, outcome) == Some(entry@),
                None => result_of(self@, outcome) is None,
            },
    {
        match outcome {
            Outcome::Chosen => self.searcher.into_selected(),
            _ => None,
        }
    }
}

} // verus!
