//! Term matching for search: a query matches a text where the text holds a
//! term that starts with the query.

use vstd::prelude::*;
use crate::outside::{chars_of, lowercase, lowercased};

verus! {

/// A character that belongs to a term: an ASCII letter or digit, or any
/// character outside ASCII. Every other character separates terms.
pub open spec fn is_term_char(c: char) -> bool {
    let u = c as u32;
    ||| 48 <= u <= 57
    ||| 65 <= u <= 90
    ||| 97 <= u <= 122
    ||| u >= 128
}

/// The query `q` stands in text `t` at position `i`, at the start of a term.
pub open spec fn term_starts_at(t: Seq<char>, q: Seq<char>, i: int) -> bool {
    &&& 0 <= i
    &&& i + q.len() <= t.len()
    &&& i == 0 || !is_term_char(t[i - 1])
    &&& t.subrange(i, i + q.len()) == q
}

/// Some term of text `t` starts with the query `q`.
pub open spec fn term_match(t: Seq<char>, q: Seq<char>) -> bool {
    exists|i: int| term_starts_at(t, q, i)
}

/// Whether the text matches the query, both folded to lower case.
pub open spec fn folded_match(text: Seq<char>, qf: Seq<char>) -> bool {
    term_match(lowercased(text), qf)
}

pub fn is_term_char_exec(c: char) -> (r: bool)
    ensures
        r == is_term_char(c),
{
    let u = c as u32;
    (48 <= u && u <= 57) || (65 <= u && u <= 90) || (97 <= u && u <= 122) || u >= 128
}

/// Whether `q` stands in `t` at position `i`.
fn occurs_at(t: &Vec<char>, q: &Vec<char>, i: usize) -> (r: bool)
    requires
        i + q@.len() <= t@.len(),
    ensures
        r == (t@.subrange(i as int, i + q@.len()) == q@),
{
    let n = t.len();
    let mut j: usize = 0;
    while j < q.len()
        invariant
            n == t@.len(),
            i + q@.len() <= t@.len(),
            j <= q@.len(),
            forall|k: int| 0 <= k < j ==> t@[i + k] == q@[k],
        decreases q@.len() - j,
    {
        if t[i + j] != q[j] {
            proof {
                assert(t@.subrange(i as int, i + q@.len())[j as int] != q@[j as int]);
            }
            return false;
        }
        j = j + 1;
    }
    proof {
        assert(t@.subrange(i as int, i + q@.len()) =~= q@);
    }
    true
}

/// Whether some term of `t` starts with `q`.
pub fn term_match_exec(t: &Vec<char>, q: &Vec<char>) -> (r: bool)
    ensures
        r == term_match(t@, q@),
{
    if q.len() > t.len() {
        return false;
    }
    let last = t.len() - q.len();
    let mut i: usize = 0;
    while i <= last
        invariant
            last + q@.len() == t@.len(),
            i <= last + 1,
            forall|k: int| 0 <= k < i ==> !term_starts_at(t@, q@, k),
        decreases last + 1 - i,
    {
        let boundary = i == 0 || !is_term_char_exec(t[i - 1]);
        if boundary && occurs_at(t, q, i) {
            proof {
                assert(term_starts_at(t@, q@, i as int));
            }
            return true;
        }
        if i == last {
            return false;
        }
        i = i + 1;
    }
    false
}

/// The query folded to lower case, as characters.
pub fn fold_query(q: &String) -> (r: Vec<char>)
    ensures
        r@ == lowercased(q@),
{
    let f = lowercase(q.as_str());
    chars_of(f.as_str())
}

/// Whether a text matches a folded query: some term of the folded text
/// starts with it.
pub fn text_matches(text: &String, qf: &Vec<char>) -> (r: bool)
    ensures
        r == folded_match(text@, qf@),
{
    let f = lowercase(text.as_str());
    let t = chars_of(f.as_str());
    term_match_exec(&t, qf)
}

} // verus!
