use vstd::prelude::*;

verus! {

/// The characters of `s`, in order.
pub fn to_chars(s: &str) -> (r: Vec<char>)
    ensures
        r@ == s@,
{
    let mut out: Vec<char> = Vec::new();
    for c in it: s.chars()
        invariant
            out@ == it.seq().take(it.index()),
            it.seq() == s@,
    {
        out.push(c);
    }
    out
}

/// Calls `String::push`: `c` is appended to `s`.
#[verifier::external_body]
pub(crate) fn push_char(s: &mut String, c: char)
    ensures
        final(s)@ == old(s)@.push(c),
{
    s.push(c)
}

/// Calls `String::pop`: the last character leaves `s` and is returned;
/// an empty `s` stays empty and gives `None`.
#[verifier::external_body]
pub(crate) fn pop_char(s: &mut String) -> (r: Option<char>)
    ensures
        old(s)@.len() == 0 ==> r is None && final(s)@ == old(s)@,
        old(s)@.len() > 0 ==> r == Some(old(s)@.last()) && final(s)@ == old(s)@.drop_last(),
{
    s.pop()
}

/// Whether two strings hold the same characters.
pub fn str_eq(a: &str, b: &str) -> (r: bool)
    ensures
        r == (a@ == b@),
{
    let x = to_chars(a);
    let y = to_chars(b);
    if x.len() != y.len() {
        return false;
    }
    let mut i: usize = 0;
    while i < x.len()
        invariant
            i <= x.len(),
            x.len() == y.len(),
            x@ == a@,
            y@ == b@,
            forall|k: int| 0 <= k < i ==> x@[k] == y@[k],
        decreases x.len() - i,
    {
        if x[i] != y[i] {
            return false;
        }
        i += 1;
    }
    assert(a@ =~= b@);
    true
}

/// The characters that count as white space: the code points that carry the
/// Unicode property `White_Space`.
pub open spec fn is_white_space(c: char) -> bool {
    ||| '\u{9}' <= c <= '\u{d}'
    ||| c == ' '
    ||| c == '\u{85}'
    ||| c == '\u{a0}'
    ||| c == '\u{1680}'
    ||| '\u{2000}' <= c <= '\u{200a}'
    ||| c == '\u{2028}'
    ||| c == '\u{2029}'
    ||| c == '\u{202f}'
    ||| c == '\u{205f}'
    ||| c == '\u{3000}'
}

/// Whether `c` is white space.
pub fn is_whitespace(c: char) -> (r: bool)
    ensures
        r == is_white_space(c),
{
    ('\u{9}' <= c && c <= '\u{d}') || c == ' ' || c == '\u{85}' || c == '\u{a0}' || c
        == '\u{1680}' || ('\u{2000}' <= c && c <= '\u{200a}') || c == '\u{2028}' || c
        == '\u{2029}' || c == '\u{202f}' || c == '\u{205f}' || c == '\u{3000}'
}

/// `c` with an upper-case ASCII letter turned into its lower-case form.
pub open spec fn ascii_lower(c: char) -> char {
    if 'A' <= c <= 'Z' {
        ((c as u32) + 32) as char
    } else {
        c
    }
}

/// `s` with each character passed through `ascii_lower`.
pub open spec fn lowered(s: Seq<char>) -> Seq<char> {
    Seq::new(s.len(), |i: int| ascii_lower(s[i]))
}

/// Whether every character of `s` is white space (true of the empty string).
pub open spec fn is_blank(s: Seq<char>) -> bool {
    forall|i: int| 0 <= i < s.len() ==> is_white_space(#[trigger] s[i])
}

/// The first index at or after `from` that holds no white space, or the
/// length of `s` where there is none.
pub open spec fn skip_blank(s: Seq<char>, from: int) -> int
    decreases s.len() - from,
{
    if 0 <= from < s.len() && is_white_space(s[from]) {
        skip_blank(s, from + 1)
    } else {
        from
    }
}

/// The end of the last character before `to` that is no white space, never
/// below `stop`.
pub open spec fn skip_blank_back(s: Seq<char>, to: int, stop: int) -> int
    decreases to,
{
    if stop < to <= s.len() && 0 < to && is_white_space(s[to - 1]) {
        skip_blank_back(s, to - 1, stop)
    } else {
        to
    }
}

/// `s` without the white space at its two ends.
pub open spec fn trimmed(s: Seq<char>) -> Seq<char> {
    let start = skip_blank(s, 0);
    let end = skip_blank_back(s, s.len() as int, start);
    s.subrange(start, end)
}

/// `skip_blank` stays inside the string and passes white space only.
pub proof fn lemma_skip_blank(s: Seq<char>, from: int)
    requires
        0 <= from <= s.len(),
    ensures
        from <= skip_blank(s, from) <= s.len(),
        forall|k: int| from <= k < skip_blank(s, from) ==> is_white_space(#[trigger] s[k]),
        skip_blank(s, from) < s.len() ==> !is_white_space(s[skip_blank(s, from)]),
    decreases s.len() - from,
{
    if from < s.len() && is_white_space(s[from]) {
        lemma_skip_blank(s, from + 1);
    }
}

/// `skip_blank_back` stays between `stop` and `to` and passes white space only.
pub proof fn lemma_skip_blank_back(s: Seq<char>, to: int, stop: int)
    requires
        0 <= stop <= to <= s.len(),
    ensures
        stop <= skip_blank_back(s, to, stop) <= to,
        forall|k: int|
            skip_blank_back(s, to, stop) <= k < to ==> is_white_space(#[trigger] s[k]),
        stop < skip_blank_back(s, to, stop) ==> !is_white_space(
            s[skip_blank_back(s, to, stop) - 1],
        ),
    decreases to,
{
    if stop < to && is_white_space(s[to - 1]) {
        lemma_skip_blank_back(s, to - 1, stop);
    }
}

/// A string is blank exactly when nothing is left of it after trimming.
pub proof fn lemma_blank_iff_trimmed_empty(s: Seq<char>)
    ensures
        is_blank(s) <==> trimmed(s).len() == 0,
{
    let start = skip_blank(s, 0);
    lemma_skip_blank(s, 0);
    lemma_skip_blank_back(s, s.len() as int, start);
    let end = skip_blank_back(s, s.len() as int, start);
    if is_blank(s) {
        if start < s.len() {
            assert(is_white_space(s[start]));
        }
    }
    if trimmed(s).len() == 0 {
        assert(start == end);
        assert forall|i: int| 0 <= i < s.len() implies is_white_space(#[trigger] s[i]) by {
            if i < start {
            } else {
            }
        }
    }
}

/// Trimming leaves no white space at either end.
pub proof fn lemma_trimmed_ends(s: Seq<char>)
    ensures
        trimmed(s).len() > 0 ==> !is_white_space(trimmed(s).first()) && !is_white_space(
            trimmed(s).last(),
        ),
        trimmed(trimmed(s)) == trimmed(s),
{
    let start = skip_blank(s, 0);
    lemma_skip_blank(s, 0);
    lemma_skip_blank_back(s, s.len() as int, start);
    let t = trimmed(s);
    if t.len() > 0 {
        assert(skip_blank(t, 0) == 0);
        assert(skip_blank_back(t, t.len() as int, 0) == t.len());
        assert(trimmed(t) =~= t);
    } else {
        assert(skip_blank(t, 0) == 0);
        assert(trimmed(t) =~= t);
    }
}

/// Whether `s` holds white space only.
pub fn is_blank_str(s: &str) -> (r: bool)
    ensures
        r == is_blank(s@),
{
    let chars = to_chars(s);
    let mut i: usize = 0;
    while i < chars.len()
        invariant
            i <= chars.len(),
            chars@ == s@,
            forall|k: int| 0 <= k < i ==> is_white_space(#[trigger] chars@[k]),
        decreases chars.len() - i,
    {
        if !is_whitespace(chars[i]) {
            return false;
        }
        i += 1;
    }
    true
}

/// `s` without the white space at its two ends.
pub fn trim(s: &str) -> (r: &str)
    ensures
        r@ == trimmed(s@),
{
    let chars = to_chars(s);
    let n = chars.len();
    let mut start: usize = 0;
    while start < n && is_whitespace(chars[start])
        invariant
            start <= n,
            n == chars.len(),
            chars@ == s@,
            skip_blank(s@, 0) == skip_blank(s@, start as int),
        decreases n - start,
    {
        start += 1;
    }
    let mut end: usize = n;
    while end > start && is_whitespace(chars[end - 1])
        invariant
            start <= end <= n,
            n == chars.len(),
            chars@ == s@,
            skip_blank_back(s@, n as int, start as int) == skip_blank_back(
                s@,
                end as int,
                start as int,
            ),
        decreases end,
    {
        end -= 1;
    }
    s.substring_char(start, end)
}

/// Where the part of `s` before `to` that holds no `/` begins.
pub open spec fn segment_start(s: Seq<char>, to: int) -> int
    decreases to,
{
    if 0 < to <= s.len() && s[to - 1] != '/' {
        segment_start(s, to - 1)
    } else {
        to
    }
}

/// What follows the last `/` of `s`; all of `s` where it holds none.
pub open spec fn last_segment(s: Seq<char>) -> Seq<char> {
    s.subrange(segment_start(s, s.len() as int), s.len() as int)
}

/// `segment_start` stays inside the string, and no `/` follows it.
pub proof fn lemma_segment_start(s: Seq<char>, to: int)
    requires
        0 <= to <= s.len(),
    ensures
        0 <= segment_start(s, to) <= to,
        forall|k: int| segment_start(s, to) <= k < to ==> #[trigger] s[k] != '/',
        segment_start(s, to) > 0 ==> s[segment_start(s, to) - 1] == '/',
    decreases to,
{
    if 0 < to && s[to - 1] != '/' {
        lemma_segment_start(s, to - 1);
    }
}

/// The last segment holds no `/`, ends `s`, and begins `s` or follows a
/// `/`.
pub proof fn lemma_last_segment(s: Seq<char>)
    ensures
        forall|k: int| 0 <= k < last_segment(s).len() ==> #[trigger] last_segment(s)[k] != '/',
        last_segment(s).len() <= s.len(),
        s.subrange(s.len() - last_segment(s).len(), s.len() as int) == last_segment(s),
        last_segment(s).len() < s.len() ==> s[s.len() - last_segment(s).len() - 1] == '/',
{
    lemma_segment_start(s, s.len() as int);
}

/// What follows the last `/` of `s`; all of `s` where it holds none.
pub fn last_segment_of(s: &str) -> (r: &str)
    ensures
        r@ == last_segment(s@),
{
    let chars = to_chars(s);
    let n = chars.len();
    let mut start: usize = n;
    while start > 0 && chars[start - 1] != '/'
        invariant
            start <= n,
            n == chars.len(),
            chars@ == s@,
            segment_start(s@, n as int) == segment_start(s@, start as int),
        decreases start,
    {
        start -= 1;
    }
    s.substring_char(start, n)
}

/// Whether `pat` stands in `s` at index `i`.
pub open spec fn occurs_at(s: Seq<char>, pat: Seq<char>, i: int) -> bool {
    0 <= i && i + pat.len() <= s.len() && s.subrange(i, i + pat.len()) == pat
}

/// The first index at or after `from` at which `pat` stands in `s`.
pub open spec fn find_from(s: Seq<char>, pat: Seq<char>, from: int) -> Option<int>
    decreases s.len() + 1 - from,
{
    if from < 0 || from + pat.len() > s.len() {
        None
    } else if occurs_at(s, pat, from) {
        Some(from)
    } else {
        find_from(s, pat, from + 1)
    }
}

/// The second of the pieces into which the separator `sep` cuts `s`: what
/// stands between its first occurrence and the next one, or the end of `s`.
pub open spec fn second_piece(s: Seq<char>, sep: Seq<char>) -> Option<Seq<char>> {
    match find_from(s, sep, 0) {
        None => None,
        Some(i) => {
            let start = i + sep.len();
            match find_from(s, sep, start) {
                None => Some(s.subrange(start, s.len() as int)),
                Some(j) => Some(s.subrange(start, j)),
            }
        },
    }
}

/// What `find_from` finds is the first occurrence at or after `from`.
pub proof fn lemma_find_from(s: Seq<char>, pat: Seq<char>, from: int)
    requires
        0 <= from,
    ensures
        match find_from(s, pat, from) {
            Some(i) => from <= i && occurs_at(s, pat, i) && forall|k: int|
                from <= k < i ==> !occurs_at(s, pat, k),
            None => forall|k: int| from <= k ==> !occurs_at(s, pat, k),
        },
    decreases s.len() + 1 - from,
{
    if from + pat.len() > s.len() {
    } else if occurs_at(s, pat, from) {
    } else {
        lemma_find_from(s, pat, from + 1);
    }
}

fn stands_at(s: &Vec<char>, pat: &Vec<char>, i: usize) -> (r: bool)
    requires
        i + pat.len() <= s.len(),
    ensures
        r == occurs_at(s@, pat@, i as int),
{
    let mut k: usize = 0;
    while k < pat.len()
        invariant
            k <= pat.len(),
            i + pat.len() <= s.len(),
            forall|j: int| 0 <= j < k ==> s@[i + j] == pat@[j],
        decreases pat.len() - k,
    {
        if s[i + k] != pat[k] {
            assert(s@.subrange(i as int, i + pat.len())[k as int] == s@[i + k]);
            return false;
        }
        k += 1;
    }
    assert(s@.subrange(i as int, i + pat.len()) =~= pat@);
    true
}

/// The first index at or after `from` at which `pat` stands in `s`.
pub fn find_in(s: &Vec<char>, pat: &Vec<char>, from: usize) -> (r: Option<usize>)
    ensures
        match r {
            Some(i) => find_from(s@, pat@, from as int) == Some(i as int),
            None => find_from(s@, pat@, from as int) is None,
        },
{
    if pat.len() > s.len() || from > s.len() - pat.len() {
        return None;
    }
    let last = s.len() - pat.len();
    let mut i: usize = from;
    loop
        invariant
            from <= i <= last,
            last == s.len() - pat.len(),
            find_from(s@, pat@, from as int) == find_from(s@, pat@, i as int),
        decreases last - i,
    {
        if stands_at(s, pat, i) {
            return Some(i);
        }
        if i == last {
            assert(find_from(s@, pat@, i + 1) is None);
            return None;
        }
        i += 1;
    }
}

/// The second of the pieces into which `sep` cuts `s`.
pub fn second_piece_of<'a>(s: &'a str, sep: &str) -> (r: Option<&'a str>)
    ensures
        match r {
            Some(piece) => second_piece(s@, sep@) == Some(piece@),
            None => second_piece(s@, sep@) is None,
        },
{
    let chars = to_chars(s);
    let pat = to_chars(sep);
    match find_in(&chars, &pat, 0) {
        None => None,
        Some(i) => {
            proof {
                lemma_find_from(s@, sep@, 0);
                assert(occurs_at(chars@, pat@, i as int));
                assert(i + pat.len() <= chars.len());
            }
            let start = i + pat.len();
            match find_in(&chars, &pat, start) {
                None => Some(s.substring_char(start, chars.len())),
                Some(j) => {
                    proof {
                        lemma_find_from(s@, sep@, start as int);
                    }
                    Some(s.substring_char(start, j))
                },
            }
        },
    }
}

} // verus!
