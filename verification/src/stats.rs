use vstd::prelude::*;
use vstd::string::StringExecFns;
use crate::number::is_digit;
use crate::text::{ascii_lower, lowered, to_chars};

verus! {

/// Whether `c` is a plus or a minus sign.
pub open spec fn is_sign(c: char) -> bool {
    c == '+' || c == '-'
}

/// The first index at or after `from` that holds no digit.
pub open spec fn digits_end(s: Seq<char>, from: int) -> int
    decreases s.len() - from,
{
    if 0 <= from < s.len() && is_digit(s[from]) {
        digits_end(s, from + 1)
    } else {
        from
    }
}

/// Whether `s` from `at` to its end is an exponent: the letter `e` in
/// either case, an optional sign, and one or more digits.
pub open spec fn is_exponent(s: Seq<char>, at: int) -> bool {
    &&& 0 <= at < s.len()
    &&& (s[at] == 'e' || s[at] == 'E')
    &&& {
        let first = if at + 1 < s.len() && is_sign(s[at + 1]) {
            at + 2
        } else {
            at + 1
        };
        first < digits_end(s, first) && digits_end(s, first) == s.len()
    }
}

/// Whether `s` is an unsigned decimal number: digits with at most one point
/// among them, at least one digit in all, and an optional exponent.
pub open spec fn is_number(s: Seq<char>) -> bool {
    let whole_end = digits_end(s, 0);
    let has_point = whole_end < s.len() && s[whole_end] == '.';
    let mantissa_end = if has_point {
        digits_end(s, whole_end + 1)
    } else {
        whole_end
    };
    let digit_count = if has_point {
        mantissa_end - 1
    } else {
        whole_end
    };
    digit_count >= 1 && (mantissa_end == s.len() || is_exponent(s, mantissa_end))
}

/// Whether `s` is one of the words for infinity and not-a-number, in any
/// mix of upper and lower case.
pub open spec fn is_special(s: Seq<char>) -> bool {
    ||| lowered(s) == seq!['i', 'n', 'f']
    ||| lowered(s) == seq!['n', 'a', 'n']
    ||| lowered(s) == seq!['i', 'n', 'f', 'i', 'n', 'i', 't', 'y']
}

/// `s` without a leading sign.
pub open spec fn unsigned_part(s: Seq<char>) -> Seq<char> {
    if s.len() > 0 && is_sign(s[0]) {
        s.drop_first()
    } else {
        s
    }
}

/// Whether `s` is written as a floating-point number: an optional sign and
/// then a decimal number or one of the special words.
pub open spec fn is_float_literal(s: Seq<char>) -> bool {
    is_number(unsigned_part(s)) || is_special(unsigned_part(s))
}

fn scan_digits(s: &Vec<char>, from: usize) -> (r: usize)
    requires
        from <= s.len(),
    ensures
        r == digits_end(s@, from as int),
        from <= r <= s.len(),
{
    let mut i: usize = from;
    while i < s.len() && '0' <= s[i] && s[i] <= '9'
        invariant
            from <= i <= s.len(),
            digits_end(s@, from as int) == digits_end(s@, i as int),
        decreases s.len() - i,
    {
        i += 1;
    }
    i
}

fn lower(c: char) -> (r: char)
    ensures
        r == ascii_lower(c),
{
    if 'A' <= c && c <= 'Z' {
        ((c as u8) + 32) as char
    } else {
        c
    }
}

fn spells(s: &Vec<char>, from: usize, word: &Vec<char>) -> (r: bool)
    requires
        from <= s.len(),
    ensures
        r == (lowered(s@.subrange(from as int, s.len() as int)) == word@),
{
    let n = s.len() - from;
    let ghost rest = s@.subrange(from as int, s.len() as int);
    if n != word.len() {
        return false;
    }
    let mut i: usize = 0;
    while i < n
        invariant
            i <= n,
            n == s.len() - from,
            n == word.len(),
            rest == s@.subrange(from as int, s.len() as int),
            forall|k: int| 0 <= k < i ==> lowered(rest)[k] == word@[k],
        decreases n - i,
    {
        if lower(s[from + i]) != word[i] {
            assert(lowered(rest)[i as int] != word@[i as int]);
            return false;
        }
        i += 1;
    }
    assert(lowered(rest) =~= word@);
    true
}

/// Whether `token` is written as a floating-point number.
pub fn is_float(token: &str) -> (r: bool)
    ensures
        r == is_float_literal(token@),
{
    let chars = to_chars(token);
    let n = chars.len();
    let start: usize = if n > 0 && (chars[0] == '+' || chars[0] == '-') {
        1
    } else {
        0
    };
    let ghost body = unsigned_part(token@);
    assert(body =~= chars@.subrange(start as int, n as int));
    let mut rest: Vec<char> = Vec::new();
    let mut k: usize = start;
    while k < n
        invariant
            start <= k <= n,
            n == chars.len(),
            rest@ == chars@.subrange(start as int, k as int),
        decreases n - k,
    {
        rest.push(chars[k]);
        assert(chars@.subrange(start as int, k + 1) =~= chars@.subrange(
            start as int,
            k as int,
        ).push(chars@[k as int]));
        k += 1;
    }
    assert(rest@ == body);
    assert(rest@.subrange(0, rest.len() as int) =~= rest@);
    let inf: Vec<char> = vec!['i', 'n', 'f'];
    let nan: Vec<char> = vec!['n', 'a', 'n'];
    let infinity: Vec<char> = vec!['i', 'n', 'f', 'i', 'n', 'i', 't', 'y'];
    assert(inf@ =~= seq!['i', 'n', 'f']);
    assert(nan@ =~= seq!['n', 'a', 'n']);
    assert(infinity@ =~= seq!['i', 'n', 'f', 'i', 'n', 'i', 't', 'y']);
    if spells(&rest, 0, &inf) || spells(&rest, 0, &nan) || spells(&rest, 0, &infinity) {
        return true;
    }
    is_number_in(&rest)
}

fn is_number_in(s: &Vec<char>) -> (r: bool)
    ensures
        r == is_number(s@),
{
    let n = s.len();
    let whole_end = scan_digits(s, 0);
    let has_point = whole_end < n && s[whole_end] == '.';
    let mantissa_end = if has_point {
        scan_digits(s, whole_end + 1)
    } else {
        whole_end
    };
    let digit_count = if has_point {
        mantissa_end - 1
    } else {
        whole_end
    };
    if digit_count < 1 {
        return false;
    }
    if mantissa_end == n {
        return true;
    }
    if !(s[mantissa_end] == 'e' || s[mantissa_end] == 'E') {
        return false;
    }
    let first = if mantissa_end + 1 < n && (s[mantissa_end + 1] == '+' || s[mantissa_end + 1]
        == '-') {
        mantissa_end + 2
    } else {
        mantissa_end + 1
    };
    let last = scan_digits(s, first);
    first < last && last == n
}

/// A rating as the catalog prints it: the text of a floating-point number.
#[derive(Debug, PartialEq, Eq)]
pub struct Rating {
    text: String,
}

impl Clone for Rating {
    fn clone(&self) -> (r: Rating)
        ensures
            r@ == self@,
    {
        proof {
            use_type_invariant(self);
        }
        Rating { text: self.text.clone() }
    }
}

impl View for Rating {
    type V = Seq<char>;

    closed spec fn view(&self) -> Seq<char> {
        self.text@
    }
}

impl Rating {
    /// The text of every rating is written as a floating-point number.
    #[verifier::type_invariant]
    spec fn is_literal(&self) -> bool {
        is_float_literal(self.text@)
    }

    /// The rating that `token` spells, where it spells one.
    pub fn parse(token: &str) -> (r: Option<Rating>)
        ensures
            r is Some <==> is_float_literal(token@),
            r matches Some(rating) ==> rating@ == token@,
    {
        if is_float(token) {
            Some(Rating { text: String::from_str(token) })
        } else {
            None
        }
    }

    /// The rating's text, which is written as a floating-point number.
    pub fn as_str(&self) -> (r: &str)
        ensures
            r@ == self@,
            is_float_literal(r@),
    {
        proof {
            use_type_invariant(self);
        }
        self.text.as_str()
    }
}

/// How the users of the catalog rate a crackme.
#[derive(Debug, PartialEq, Eq)]
pub struct Stats {
    pub quality: Rating,
    pub difficulty: Rating,
}

impl Clone for Stats {
    fn clone(&self) -> (r: Stats)
        ensures
            r.quality@ == self.quality@,
            r.difficulty@ == self.difficulty@,
    {
        Stats { quality: self.quality.clone(), difficulty: self.difficulty.clone() }
    }
}

impl Stats {
    /// The two ratings together.
    pub fn new(quality: Rating, difficulty: Rating) -> (r: Stats)
        ensures
            r.quality == quality,
            r.difficulty == difficulty,
    {
        Stats { quality, difficulty }
    }
}

} // verus!
