use vstd::prelude::*;
use vstd::string::StringSliceAdditionalSpecFns;
use vstd::utf8::{
    encode_utf8, encode_utf8_valid_utf8, is_ascii_chars, is_ascii_chars_encode_utf8,
    is_char_boundary, is_char_boundary_iff_not_is_continuation_byte,
    is_char_boundary_start_end_of_seq, is_continuation_byte,
};
use crate::fuzzy::{fuzzy_matches, is_match};
use crate::list::{
    accepts_description, label, list_views, search_text, with_description,
    ListCrackme, ListView,
};
use crate::text::{pop_char, push_char, trim, trimmed};

verus! {

/// The query that the user is typing.
#[derive(Debug)]
pub struct SearchText(String);

impl Default for SearchText {
    fn default() -> (r: SearchText)
        ensures
            r@ == Seq::<char>::empty(),
    {
        SearchText(String::new())
    }
}

impl View for SearchText {
    type V = Seq<char>;

    closed spec fn view(&self) -> Seq<char> {
        self.0@
    }
}

/// How many cells of the query's box hold no text: its two borders and the
/// cursor.
pub open spec fn box_overhead() -> nat {
    3
}

/// Where the part of a text of `len` bytes begins that fits a box
/// `length` cells wide: the box's overhead is taken off where the box is
/// wide enough for it, and the text's end is kept.
pub open spec fn window_start(len: nat, length: nat) -> nat {
    let room = if length >= box_overhead() {
        (length - box_overhead()) as nat
    } else {
        length
    };
    if len > room {
        (len - room) as nat
    } else {
        0
    }
}

/// A text of ASCII characters can be cut at every byte.
pub proof fn lemma_ascii_is_cut_anywhere(text: Seq<char>, at: int)
    requires
        is_ascii_chars(text),
        0 <= at <= encode_utf8(text).len(),
    ensures
        is_char_boundary(encode_utf8(text), at),
{
    let bytes = encode_utf8(text);
    encode_utf8_valid_utf8(text);
    is_ascii_chars_encode_utf8(text);
    if at == bytes.len() {
        is_char_boundary_start_end_of_seq(bytes);
    } else {
        let b = bytes[at];
        assert(b == text[at] as u8);
        assert(b < 128);
        assert(!is_continuation_byte(b));
        is_char_boundary_iff_not_is_continuation_byte(bytes, at);
    }
}

impl SearchText {
    /// The query's bytes in UTF-8.
    pub open spec fn bytes(&self) -> Seq<u8> {
        encode_utf8(self@)
    }

    /// An empty query.
    pub fn new() -> (r: SearchText)
        ensures
            r@ == Seq::<char>::empty(),
    {
        SearchText(String::new())
    }

    /// The query as it stands.
    pub fn as_str(&self) -> (r: &str)
        ensures
            r@ == self@,
    {
        self.0.as_str()
    }

    /// Adds a character at the end.
    pub fn push(&mut self, c: char)
        ensures
            final(self)@ == old(self)@.push(c),
    {
        push_char(&mut self.0, c);
    }

    /// Takes the last character away; an empty query stays empty.
    pub fn pop(&mut self)
        ensures
            old(self)@.len() == 0 ==> final(self)@ == old(self)@,
            old(self)@.len() > 0 ==> final(self)@ == old(self)@.drop_last(),
    {
        let _ = pop_char(&mut self.0);
    }

    fn start(&self, length: usize) -> (r: usize)
        ensures
            r == window_start(self.bytes().len(), length as nat),
            r <= self.bytes().len(),
    {
        let room = match length.checked_sub(3) {
            Some(room) => room,
            None => length,
        };
        let len = self.0.as_str().as_bytes().len();
        if len > room {
            len - room
        } else {
            0
        }
    }

    /// The end of the query that fits a box `length` cells wide, counted in
    /// bytes. The place where that part begins must not lie inside a
    /// character.
    pub fn get(&self, length: usize) -> (r: &str)
        requires
            is_char_boundary(
                self.bytes(),
                window_start(self.bytes().len(), length as nat) as int,
            ),
        ensures
            r.spec_bytes() == self.bytes().subrange(
                window_start(self.bytes().len(), length as nat) as int,
                self.bytes().len() as int,
            ),
    {
        let start = self.start(length);
        self.0.as_str().split_at(start).1
    }

    /// The end of the query that fits a box `length` cells wide, where
    /// that part does not begin inside a character.
    pub fn try_get(&self, length: usize) -> (r: Option<&str>)
        ensures
            r is Some <==> is_char_boundary(
                self.bytes(),
                window_start(self.bytes().len(), length as nat) as int,
            ),
            r matches Some(part) ==> part.spec_bytes() == self.bytes().subrange(
                window_start(self.bytes().len(), length as nat) as int,
                self.bytes().len() as int,
            ),
    {
        let start = self.start(length);
        if self.0.as_str().is_char_boundary(start) {
            Some(self.get(length))
        } else {
            None
        }
    }
}

/// What a searcher holds, as mathematical values.
pub struct SearcherView {
    /// The entries, in the order of their page.
    pub entries: Seq<ListView>,
    /// The indices of the entries that the last query kept.
    pub found: Seq<usize>,
    /// The position in `found` that is selected.
    pub cursor: Option<usize>,
}

/// The indices below `n` of the entries whose search text the query
/// `pattern` matches, in rising order, gathered one entry after the other.
pub open spec fn matching_upto(entries: Seq<ListView>, pattern: Seq<char>, n: int) -> Seq<usize>
    decreases n,
{
    if n <= 0 {
        Seq::empty()
    } else if fuzzy_matches(search_text(entries[n - 1]), pattern) {
        matching_upto(entries, pattern, n - 1).push((n - 1) as usize)
    } else {
        matching_upto(entries, pattern, n - 1)
    }
}

/// The first `n` indices, in rising order.
pub open spec fn indices(n: nat) -> Seq<usize> {
    Seq::new(n, |i: int| i as usize)
}

/// The indices of the entries that the query keeps: those whose search
/// text the trimmed query matches, in the order of the entries.
pub open spec fn matching(entries: Seq<ListView>, query: Seq<char>) -> Seq<usize> {
    indices(entries.len()).filter(
        |i: usize| fuzzy_matches(search_text(entries[i as int]), trimmed(query)),
    )
}

/// What a query keeps is what `matching_upto` gathers over all the
/// entries.
pub proof fn lemma_matching_is_gathered(entries: Seq<ListView>, query: Seq<char>, n: int)
    requires
        0 <= n <= entries.len(),
        n <= usize::MAX,
    ensures
        indices(n as nat).filter(
            |i: usize| fuzzy_matches(search_text(entries[i as int]), trimmed(query)),
        ) == matching_upto(entries, trimmed(query), n),
    decreases n,
{
    reveal(Seq::filter);
    let keep = |i: usize| fuzzy_matches(search_text(entries[i as int]), trimmed(query));
    if n > 0 {
        lemma_matching_is_gathered(entries, query, n - 1);
        assert(indices(n as nat).drop_last() =~= indices((n - 1) as nat));
        assert(indices(n as nat).last() == (n - 1) as usize);
    } else {
        assert(indices(0).filter(keep) =~= Seq::<usize>::empty());
    }
}

/// Whether `found` rises strictly and stays below `count`.
pub open spec fn rising_below(found: Seq<usize>, count: int) -> bool {
    &&& forall|i: int| 0 <= i < found.len() ==> (#[trigger] found[i]) < count
    &&& forall|i: int, j: int| 0 <= i < j < found.len() ==> found[i] < found[j]
}

/// The position that is selected when a query has just been answered: the
/// last of the kept entries, and none where none was kept.
pub open spec fn last_position(kept: int) -> Option<usize> {
    if kept > 0 {
        Some((kept - 1) as usize)
    } else {
        None
    }
}

/// The position on which a step lands that starts from no position: the
/// first one, where an entry was kept.
pub open spec fn first_position(kept: int) -> Option<usize> {
    if kept > 0 {
        Some(0)
    } else {
        None
    }
}

/// The position after a step down: the next one, and the last one stays.
pub open spec fn position_after_next(cursor: Option<usize>, kept: int) -> Option<usize> {
    match cursor {
        Some(i) => if i + 1 < kept {
            Some((i + 1) as usize)
        } else {
            Some(i)
        },
        None => first_position(kept),
    }
}

/// The position after a step up: the one before, and the first one stays.
pub open spec fn position_after_previous(cursor: Option<usize>, kept: int) -> Option<usize> {
    match cursor {
        Some(i) => if i > 0 {
            Some((i - 1) as usize)
        } else {
            Some(i)
        },
        None => first_position(kept),
    }
}

/// The positions around the cursor whose descriptions are wanted: the one
/// before it, its own and the one after it, as far as they exist.
pub open spec fn window(cursor: Option<usize>, kept: int) -> Option<(int, int)> {
    match cursor {
        Some(i) => if i < kept {
            Some(
                (
                    if i > 0 {
                        i - 1
                    } else {
                        0
                    },
                    if i + 1 < kept {
                        i + 1
                    } else {
                        kept - 1
                    },
                ),
            )
        } else {
            None
        },
        None => None,
    }
}

/// The indices of the entries at the positions `from` to `to` of `found`,
/// `to` left out, that have no description yet, gathered one position
/// after the other.
pub open spec fn lacking(entries: Seq<ListView>, found: Seq<usize>, from: int, to: int) -> Seq<
    usize,
>
    decreases to - from,
{
    if to <= from {
        Seq::empty()
    } else if accepts_description(entries[found[to - 1] as int]) {
        lacking(entries, found, from, to - 1).push(found[to - 1])
    } else {
        lacking(entries, found, from, to - 1)
    }
}

/// The indices of the entries whose descriptions are to be fetched now:
/// those in the window around the cursor that have none yet, in the order
/// of the list.
pub open spec fn wanted(v: SearcherView) -> Seq<usize> {
    match window(v.cursor, v.found.len() as int) {
        Some((first, last)) => v.found.subrange(first, last + 1).filter(
            |i: usize| accepts_description(v.entries[i as int]),
        ),
        None => Seq::empty(),
    }
}

/// What `lacking` gathers of the positions `from` to `to` is what is left
/// of them when the entries that have a description are taken out.
pub proof fn lemma_lacking_is_gathered(
    entries: Seq<ListView>,
    found: Seq<usize>,
    from: int,
    to: int,
)
    requires
        0 <= from <= to <= found.len(),
    ensures
        lacking(entries, found, from, to) == found.subrange(from, to).filter(
            |i: usize| accepts_description(entries[i as int]),
        ),
    decreases to - from,
{
    reveal(Seq::filter);
    let keep = |i: usize| accepts_description(entries[i as int]);
    if from < to {
        lemma_lacking_is_gathered(entries, found, from, to - 1);
        assert(found.subrange(from, to).drop_last() =~= found.subrange(from, to - 1));
        assert(found.subrange(from, to).last() == found[to - 1]);
    } else {
        assert(found.subrange(from, to).filter(keep) =~= Seq::<usize>::empty());
    }
}

/// What `matching_upto` gives rises strictly, stays below `n`, and holds
/// exactly the indices below `n` that the query matches.
pub proof fn lemma_matching_upto(entries: Seq<ListView>, pattern: Seq<char>, n: int)
    requires
        0 <= n <= entries.len(),
        n <= usize::MAX,
    ensures
        rising_below(matching_upto(entries, pattern, n), n),
        forall|i: int|
            0 <= i < matching_upto(entries, pattern, n).len() ==> fuzzy_matches(
                search_text(entries[(#[trigger] matching_upto(entries, pattern, n)[i]) as int]),
                pattern,
            ),
        forall|k: int|
            0 <= k < n && fuzzy_matches(search_text(#[trigger] entries[k]), pattern)
                ==> matching_upto(entries, pattern, n).contains(k as usize),
        matching_upto(entries, pattern, n).len() <= n,
    decreases n,
{
    if n > 0 {
        lemma_matching_upto(entries, pattern, n - 1);
        let before = matching_upto(entries, pattern, n - 1);
        let now = matching_upto(entries, pattern, n);
        if fuzzy_matches(search_text(entries[n - 1]), pattern) {
            assert(now == before.push((n - 1) as usize));
            assert(now[before.len() as int] == (n - 1) as usize);
            assert forall|k: int|
                0 <= k < n && fuzzy_matches(
                    search_text(#[trigger] entries[k]),
                    pattern,
                ) implies now.contains(k as usize) by {
                if k < n - 1 {
                    let at = choose|at: int| 0 <= at < before.len() && before[at] == k as usize;
                    assert(now[at] == k as usize);
                } else {
                    assert(now[before.len() as int] == k as usize);
                }
            }
        }
    }
}

/// What a query keeps rises strictly, points at entries, and holds exactly
/// the indices of the entries whose search text the trimmed query matches.
pub proof fn lemma_matching(entries: Seq<ListView>, query: Seq<char>)
    requires
        entries.len() <= usize::MAX,
    ensures
        rising_below(matching(entries, query), entries.len() as int),
        forall|k: int|
            0 <= k < entries.len() ==> (matching(entries, query).contains(k as usize)
                <==> fuzzy_matches(search_text(#[trigger] entries[k]), trimmed(query))),
{
    let kept = matching(entries, query);
    lemma_matching_is_gathered(entries, query, entries.len() as int);
    lemma_matching_upto(entries, trimmed(query), entries.len() as int);
    assert forall|k: int| 0 <= k < entries.len() && kept.contains(k as usize) implies fuzzy_matches(
        search_text(#[trigger] entries[k]),
        trimmed(query),
    ) by {
        let at = choose|at: int| 0 <= at < kept.len() && kept[at] == k as usize;
        assert(fuzzy_matches(search_text(entries[kept[at] as int]), trimmed(query)));
    }
}

/// A query that is blank keeps every entry.
pub proof fn lemma_blank_query_keeps_all(entries: Seq<ListView>, query: Seq<char>)
    requires
        trimmed(query).len() == 0,
        entries.len() <= usize::MAX,
    ensures
        matching(entries, query) == indices(entries.len()),
{
    lemma_matching_is_gathered(entries, query, entries.len() as int);
    lemma_gathers_all(entries, trimmed(query), entries.len() as int);
}

proof fn lemma_gathers_all(entries: Seq<ListView>, pattern: Seq<char>, n: int)
    requires
        pattern.len() == 0,
        0 <= n <= entries.len(),
    ensures
        matching_upto(entries, pattern, n) == indices(n as nat),
    decreases n,
{
    if n > 0 {
        lemma_gathers_all(entries, pattern, n - 1);
    }
    assert(matching_upto(entries, pattern, n) =~= indices(n as nat));
}

/// A query that matches no entry keeps none.
pub proof fn lemma_unmatched_query_keeps_none(entries: Seq<ListView>, query: Seq<char>)
    requires
        entries.len() <= usize::MAX,
        forall|k: int|
            0 <= k < entries.len() ==> !fuzzy_matches(
                search_text(#[trigger] entries[k]),
                trimmed(query),
            ),
    ensures
        matching(entries, query).len() == 0,
{
    lemma_matching_is_gathered(entries, query, entries.len() as int);
    lemma_gathers_none(entries, trimmed(query), entries.len() as int);
}

proof fn lemma_gathers_none(entries: Seq<ListView>, pattern: Seq<char>, n: int)
    requires
        0 <= n <= entries.len(),
        forall|k: int|
            0 <= k < entries.len() ==> !fuzzy_matches(search_text(#[trigger] entries[k]), pattern),
    ensures
        matching_upto(entries, pattern, n).len() == 0,
    decreases n,
{
    if n > 0 {
        lemma_gathers_none(entries, pattern, n - 1);
    }
}

/// Whether the entry at `index` stands at one of the positions `from` to
/// `to` of `found`, `to` left out, and has no description yet.
pub open spec fn lacks_at(
    entries: Seq<ListView>,
    found: Seq<usize>,
    from: int,
    to: int,
    index: usize,
) -> bool {
    exists|p: int|
        from <= p < to && #[trigger] found[p] == index && accepts_description(
            entries[index as int],
        )
}

/// What is wanted of the positions `from` to `to` is exactly the entries
/// at those positions that have no description yet.
pub proof fn lemma_lacking(entries: Seq<ListView>, found: Seq<usize>, from: int, to: int)
    requires
        0 <= from <= to <= found.len(),
    ensures
        lacking(entries, found, from, to).len() <= to - from,
        forall|k: int|
            0 <= k < lacking(entries, found, from, to).len() ==> lacks_at(
                entries,
                found,
                from,
                to,
                #[trigger] lacking(entries, found, from, to)[k],
            ),
        forall|index: usize|
            lacks_at(entries, found, from, to, index) ==> lacking(
                entries,
                found,
                from,
                to,
            ).contains(index),
    decreases to - from,
{
    if from < to {
        lemma_lacking(entries, found, from, to - 1);
        let before = lacking(entries, found, from, to - 1);
        let now = lacking(entries, found, from, to);
        let top = found[to - 1];
        assert forall|k: int| 0 <= k < now.len() implies lacks_at(
            entries,
            found,
            from,
            to,
            #[trigger] now[k],
        ) by {
            if k < before.len() {
                assert(now[k] == before[k]);
                assert(lacks_at(entries, found, from, to - 1, before[k]));
                let p = choose|p: int|
                    from <= p < to - 1 && #[trigger] found[p] == before[k]
                        && accepts_description(entries[before[k] as int]);
                assert(from <= p < to && found[p] == now[k]);
            } else {
                assert(now[k] == top);
                assert(found[to - 1] == top);
            }
        }
        assert forall|index: usize| lacks_at(entries, found, from, to, index) implies now.contains(
            index,
        ) by {
            let p = choose|p: int|
                from <= p < to && #[trigger] found[p] == index && accepts_description(
                    entries[index as int],
                );
            if p < to - 1 {
                assert(lacks_at(entries, found, from, to - 1, index));
                let at = choose|at: int| 0 <= at < before.len() && before[at] == index;
                assert(now[at] == index);
            } else {
                assert(now[before.len() as int] == index);
            }
        }
    }
}

/// Once the entries around the cursor have their descriptions, none is
/// wanted.
pub proof fn lemma_filled_window_wants_nothing(v: SearcherView)
    requires
        v.cursor matches Some(i) ==> i < v.found.len(),
        forall|p: int|
            0 <= p < v.found.len() && (v.cursor matches Some(i) && i - 1 <= p <= i + 1)
                ==> !accepts_description(v.entries[(#[trigger] v.found[p]) as int]),
    ensures
        wanted(v).len() == 0,
{
    match window(v.cursor, v.found.len() as int) {
        Some((first, last)) => {
            lemma_lacking_is_gathered(v.entries, v.found, first, last + 1);
            lemma_lacking(v.entries, v.found, first, last + 1);
            let w = lacking(v.entries, v.found, first, last + 1);
            if w.len() > 0 {
                assert(lacks_at(v.entries, v.found, first, last + 1, w[0]));
                let p = choose|p: int|
                    first <= p < last + 1 && #[trigger] v.found[p] == w[0]
                        && accepts_description(v.entries[w[0] as int]);
                assert(!accepts_description(v.entries[v.found[p] as int]));
            }
        },
        None => {},
    }
}

/// The window around a cursor holds the cursor and at most its two
/// neighbours, and lies inside the kept entries.
pub proof fn lemma_window(cursor: usize, kept: int)
    requires
        cursor < kept,
    ensures
        window(Some(cursor), kept) matches Some((first, last)) && 0 <= first <= cursor <= last
            < kept && cursor - first <= 1 && last - cursor <= 1 && (cursor > 0 ==> first
            == cursor - 1) && (cursor + 1 < kept ==> last == cursor + 1),
{
}

/// The entries of one page, the ones that the last query kept, and the
/// cursor among them.
#[derive(Debug)]
pub struct Searcher {
    store: Vec<ListCrackme>,
    found: Vec<usize>,
    selected: Option<usize>,
}

impl View for Searcher {
    type V = SearcherView;

    closed spec fn view(&self) -> SearcherView {
        SearcherView {
            entries: list_views(self.store@),
            found: self.found@,
            cursor: self.selected,
        }
    }
}

/// The labels of the kept entries, in their order.
pub open spec fn labels(v: SearcherView) -> Seq<Seq<char>> {
    Seq::new(v.found.len(), |i: int| label(v.entries[v.found[i] as int]))
}

/// The entry under the cursor.
pub open spec fn chosen(v: SearcherView) -> Option<ListView> {
    match v.cursor {
        Some(i) => if i < v.found.len() && v.found[i as int] < v.entries.len() {
            Some(v.entries[v.found[i as int] as int])
        } else {
            None
        },
        None => None,
    }
}

/// The entries after an attempt to write the description `text` to the
/// entry at `index`.
pub open spec fn described(entries: Seq<ListView>, index: int, text: Seq<char>) -> Seq<ListView> {
    if 0 <= index < entries.len() {
        entries.update(index, with_description(entries[index], text))
    } else {
        entries
    }
}

impl Searcher {
    /// The kept indices rise strictly and point at entries, and the cursor
    /// is a position among the kept ones.
    #[verifier::type_invariant]
    spec fn inv(&self) -> bool {
        &&& rising_below(self.found@, self.store.len() as int)
        &&& self.selected matches Some(i) ==> i < self.found.len()
    }

    /// The indices of the kept entries, in rising order.
    pub fn found(&self) -> (r: &Vec<usize>)
        ensures
            r@ == self@.found,
            rising_below(r@, self@.entries.len() as int),
            r@.len() <= self@.entries.len(),
    {
        proof {
            use_type_invariant(self);
            lemma_rising_is_short(self.found@, self.store.len() as int);
        }
        &self.found
    }

    /// A searcher over `store` that keeps every entry, with the cursor on
    /// the last one.
    pub fn new(store: Vec<ListCrackme>) -> (r: Searcher)
        ensures
            r@.entries == list_views(store@),
            r@.found == indices(store.len() as nat),
            r@.cursor == last_position(store.len() as int),
    {
        let mut found: Vec<usize> = Vec::new();
        let mut i: usize = 0;
        while i < store.len()
            invariant
                i <= store.len(),
                found@ == indices(i as nat),
            decreases store.len() - i,
        {
            found.push(i);
            assert(found@ =~= indices((i + 1) as nat));
            i += 1;
        }
        let selected = if found.len() > 0 {
            Some(found.len() - 1)
        } else {
            None
        };
        Searcher { store, found, selected }
    }

    /// The indices of the entries whose descriptions are to be fetched
    /// now, in the order of the list: those at the cursor and next to it
    /// that have none yet.
    pub fn fetch_descriptions(&self) -> (r: Vec<usize>)
        ensures
            r@ == wanted(self@),
            forall|k: int| 0 <= k < r.len() ==> (#[trigger] r@[k]) < self@.entries.len(),
    {
        proof {
            use_type_invariant(self);
        }
        let mut out: Vec<usize> = Vec::new();
        let cursor = match self.selected {
            Some(i) => i,
            None => {
                return out;
            },
        };
        let kept = self.found.len();
        let first = if cursor > 0 {
            cursor - 1
        } else {
            0
        };
        let last = if cursor + 1 < kept {
            cursor + 1
        } else {
            kept - 1
        };
        let mut at: usize = first;
        while at <= last
            invariant
                first <= at <= last + 1,
                last < kept,
                kept == self.found.len(),
                rising_below(self.found@, self.store.len() as int),
                out@ == lacking(self@.entries, self@.found, first as int, at as int),
                forall|k: int| 0 <= k < out.len() ==> (#[trigger] out@[k]) < self.store.len(),
            decreases last + 1 - at,
        {
            let index = self.found[at];
            if self.store[index].description().is_none() {
                out.push(index);
            }
            at += 1;
        }
        proof {
            lemma_lacking_is_gathered(self@.entries, self@.found, first as int, last + 1);
        }
        out
    }

    /// Writes the description `text` to the entry at `index`, once: an
    /// entry that has a description keeps it, and `text` comes back; so it
    /// does where there is no such entry.
    pub fn describe(&mut self, index: usize, text: String) -> (r: Result<(), String>)
        ensures
            final(self)@.entries == described(old(self)@.entries, index as int, text@),
            final(self)@.found == old(self)@.found,
            final(self)@.cursor == old(self)@.cursor,
            r is Ok <==> index < old(self)@.entries.len() && accepts_description(
                old(self)@.entries[index as int],
            ),
            r matches Err(back) ==> back == text,
    {
        proof {
            use_type_invariant(&*self);
        }
        if index >= self.store.len() {
            return Err(text);
        }
        let ghost before = self.store@;
        let r = self.store[index].try_set_description(text);
        proof {
            assert(list_views(self.store@) =~= described(
                list_views(before),
                index as int,
                text@,
            ));
        }
        r
    }

    /// The entry at `index` of the page.
    pub fn entry(&self, index: usize) -> (r: Option<&ListCrackme>)
        ensures
            r is Some <==> index < self@.entries.len(),
            r matches Some(entry) ==> entry@ == self@.entries[index as int],
    {
        if index < self.store.len() {
            Some(&self.store[index])
        } else {
            None
        }
    }

    /// The position of the cursor among the kept entries.
    pub fn state(&self) -> (r: Option<usize>)
        ensures
            r == self@.cursor,
            r matches Some(i) ==> i < self@.found.len(),
    {
        proof {
            use_type_invariant(self);
        }
        self.selected
    }

    /// Answers a query: keeps the entries whose search text the trimmed
    /// query matches, in their order, and puts the cursor on the last of
    /// them.
    pub fn search(&mut self, query: &str)
        ensures
            final(self)@.entries == old(self)@.entries,
            final(self)@.found == matching(old(self)@.entries, query@),
            final(self)@.cursor == last_position(final(self)@.found.len() as int),
    {
        proof {
            use_type_invariant(&*self);
        }
        let pattern = trim(query);
        let mut items: Vec<usize> = Vec::new();
        let ghost entries = list_views(self.store@);
        let mut i: usize = 0;
        while i < self.store.len()
            invariant
                i <= self.store.len(),
                entries == list_views(self.store@),
                pattern@ == trimmed(query@),
                items@ == matching_upto(entries, pattern@, i as int),
            decreases self.store.len() - i,
        {
            let text = self.store[i].to_search_string();
            if is_match(text.as_str(), pattern) {
                items.push(i);
            }
            i += 1;
        }
        proof {
            lemma_matching_upto(entries, pattern@, self.store.len() as int);
            lemma_matching_is_gathered(entries, query@, self.store.len() as int);
        }
        let last = if items.len() > 0 {
            Some(items.len() - 1)
        } else {
            None
        };
        self.selected = None;
        self.found = items;
        self.selected = last;
    }

    /// The labels of the kept entries, in their order.
    pub fn list(&self) -> (r: Vec<String>)
        ensures
            r.deep_view() == labels(self@),
    {
        proof {
            use_type_invariant(self);
        }
        let mut out: Vec<String> = Vec::new();
        let mut i: usize = 0;
        while i < self.found.len()
            invariant
                i <= self.found.len(),
                rising_below(self.found@, self.store.len() as int),
                out.len() == i,
                forall|k: int| 0 <= k < i ==> (#[trigger] out@[k])@ == labels(self@)[k],
            decreases self.found.len() - i,
        {
            out.push(self.store[self.found[i]].label());
            i += 1;
        }
        assert(out.deep_view() =~= labels(self@));
        out
    }

    /// Moves the cursor one entry down; on the last entry it stays. From no
    /// position the cursor goes to the first entry.
    pub fn next(&mut self)
        ensures
            final(self)@.entries == old(self)@.entries,
            final(self)@.found == old(self)@.found,
            final(self)@.cursor == position_after_next(
                old(self)@.cursor,
                old(self)@.found.len() as int,
            ),
    {
        proof {
            use_type_invariant(&*self);
        }
        match self.selected {
            Some(i) => {
                if i + 1 < self.found.len() {
                    self.selected = Some(i + 1);
                }
            },
            None => {
                if self.found.len() > 0 {
                    self.selected = Some(0);
                }
            },
        }
    }

    /// Moves the cursor one entry up; on the first entry it stays. From no
    /// position the cursor goes to the first entry.
    pub fn previous(&mut self)
        ensures
            final(self)@.entries == old(self)@.entries,
            final(self)@.found == old(self)@.found,
            final(self)@.cursor == position_after_previous(
                old(self)@.cursor,
                old(self)@.found.len() as int,
            ),
    {
        proof {
            use_type_invariant(&*self);
        }
        match self.selected {
            Some(i) => {
                if i > 0 {
                    self.selected = Some(i - 1);
                }
            },
            None => {
                if self.found.len() > 0 {
                    self.selected = Some(0);
                }
            },
        }
    }

    /// The entry under the cursor.
    pub fn selected(&self) -> (r: Option<&ListCrackme>)
        ensures
            match r {
                Some(entry) => chosen(self@) == Some(entry@),
                None => chosen(self@) is None,
            },
    {
        proof {
            use_type_invariant(self);
        }
        match self.selected {
            Some(i) => Some(&self.store[self.found[i]]),
            None => None,
        }
    }

    /// Puts the cursor on the last of the kept entries.
    pub fn last(&mut self)
        ensures
            final(self)@.entries == old(self)@.entries,
            final(self)@.found == old(self)@.found,
            final(self)@.cursor == last_position(old(self)@.found.len() as int),
    {
        proof {
            use_type_invariant(&*self);
        }
        if self.found.len() > 0 {
            self.selected = Some(self.found.len() - 1);
        } else {
            self.selected = None;
        }
    }

    /// Gives up the searcher for the entry under the cursor.
    pub fn into_selected(self) -> (r: Option<ListCrackme>)
        ensures
            match r {
                Some(entry) => chosen(self@) == Some(entry@),
                None => chosen(self@) is None,
            },
    {
        proof {
            use_type_invariant(&self);
        }
        let mut store = self.store;
        match self.selected {
            Some(i) => Some(store.swap_remove(self.found[i])),
            None => None,
        }
    }
}

/// Indices that rise strictly below `count` are at most `count` many.
pub proof fn lemma_rising_is_short(found: Seq<usize>, count: int)
    requires
        rising_below(found, count),
        0 <= count,
    ensures
        found.len() <= count,
    decreases found.len(),
{
    if found.len() > 0 {
        let shorter = found.drop_last();
        let top = found.last();
        assert(found[found.len() - 1] == top);
        assert forall|i: int| 0 <= i < shorter.len() implies (#[trigger] shorter[i]) < top by {
            assert(shorter[i] == found[i]);
        }
        assert forall|i: int, j: int| 0 <= i < j < shorter.len() implies shorter[i]
            < shorter[j] by {
            assert(shorter[i] == found[i] && shorter[j] == found[j]);
        }
        lemma_rising_is_short(shorter, top as int);
    }
}

} // verus!
