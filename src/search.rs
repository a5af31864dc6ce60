use vstd::prelude::*;

use crate::catalog::Cell;
use crate::text::chars_of;

verus! {

/// Whether std counts a character as alphanumeric (Unicode Alphabetic or Numeric).
pub uninterp spec fn alnum_of(c: char) -> bool;

/// Relies on `char::is_alphanumeric`: the Unicode Alphabetic or Numeric
/// property, which among ASCII characters holds exactly of letters and digits.
#[verifier::external_body]
fn alphanumeric(c: char) -> (r: bool)
    ensures
        r == alnum_of(c),
        c <= '\u{7f}' ==> (r <==> (('a' <= c && c <= 'z') || ('A' <= c && c <= 'Z') || ('0' <= c
            && c <= '9'))),
{
    c.is_alphanumeric()
}

/// A character that belongs to a search token: an alphanumeric one. Every
/// other character separates tokens.
pub open spec fn is_word_char(c: char) -> bool {
    alnum_of(c)
}

/// The code of a character once ASCII capitals are folded to small letters.
/// Folding stops at ASCII: other letters match only themselves.
pub open spec fn folded(c: char) -> int {
    if 'A' <= c && c <= 'Z' {
        (c as u32) + 32
    } else {
        c as u32 as int
    }
}

/// `q[i..j]` is a whole token of the query: word characters, with none just
/// before or just after.
pub open spec fn is_term(q: Seq<char>, i: int, j: int) -> bool {
    &&& 0 <= i < j <= q.len()
    &&& forall|k: int| i <= k < j ==> is_word_char(#[trigger] q[k])
    &&& (i == 0 || !is_word_char(q[i - 1]))
    &&& (j == q.len() || !is_word_char(q[j]))
}

/// A token of `f` starts at `p` and begins with `q[i..j]`, ignoring ASCII case.
pub open spec fn prefix_at(f: Seq<char>, p: int, q: Seq<char>, i: int, j: int) -> bool {
    &&& 0 <= p
    &&& p + (j - i) <= f.len()
    &&& (p == 0 || !is_word_char(f[p - 1]))
    &&& forall|k: int| 0 <= k < j - i ==> folded(#[trigger] f[p + k]) == folded(q[i + k])
}

/// Some token of `f` begins with `q[i..j]`.
pub open spec fn field_has(f: Seq<char>, q: Seq<char>, i: int, j: int) -> bool {
    exists|p: int| #[trigger] prefix_at(f, p, q, i, j)
}

/// Some indexed field of the cell (manufacturer, model, form factor,
/// chemistry) has a token that begins with `q[i..j]`.
pub open spec fn cell_has(c: Cell, q: Seq<char>, i: int, j: int) -> bool {
    field_has(c.manufacturer@, q, i, j) || field_has(c.model@, q, i, j) || field_has(
        c.form_factor@,
        q,
        i,
        j,
    ) || field_has(c.chemistry@, q, i, j)
}

/// The query holds at least one token.
pub open spec fn has_terms(q: Seq<char>) -> bool {
    exists|i: int, j: int| #[trigger] is_term(q, i, j)
}

/// A cell matches a query when the query has a token and every token of the
/// query begins some token of the cell's indexed fields, with ASCII case
/// ignored. A query without any
/// token matches nothing.
pub open spec fn cell_matches(c: Cell, q: Seq<char>) -> bool {
    has_terms(q) && forall|i: int, j: int| #[trigger] is_term(q, i, j) ==> cell_has(c, q, i, j)
}

/// `q` stands at `p` in `f` at the start of a token of `f`.
pub open spec fn starts_token(f: Seq<char>, p: int, q: Seq<char>) -> bool {
    &&& 0 <= p
    &&& p + q.len() <= f.len()
    &&& f.subrange(p, p + q.len()) == q
    &&& (p == 0 || !is_word_char(f[p - 1]))
}

proof fn lemma_token_in_field(f: Seq<char>, p: int, q: Seq<char>)
    requires
        starts_token(f, p, q),
        q.len() > 0,
        forall|k: int| 0 <= k < q.len() ==> is_word_char(#[trigger] q[k]),
    ensures
        field_has(f, q, 0, q.len() as int),
{
    assert forall|k: int| 0 <= k < q.len() implies folded(#[trigger] f[p + k]) == folded(q[0 + k]) by {
        assert(f.subrange(p, p + q.len())[k] == f[p + k]);
    }
    assert(prefix_at(f, p, q, 0, q.len() as int));
}

/// A query made of one whole token that begins a token of one of a cell's
/// indexed fields matches that cell.
pub proof fn lemma_field_token_matches(c: Cell, q: Seq<char>, p: int)
    requires
        q.len() > 0,
        forall|k: int| 0 <= k < q.len() ==> is_word_char(#[trigger] q[k]),
        starts_token(c.manufacturer@, p, q) || starts_token(c.model@, p, q) || starts_token(
            c.form_factor@,
            p,
            q,
        ) || starts_token(c.chemistry@, p, q),
    ensures
        cell_matches(c, q),
{
    assert(is_term(q, 0, q.len() as int));
    if starts_token(c.manufacturer@, p, q) {
        lemma_token_in_field(c.manufacturer@, p, q);
    } else if starts_token(c.model@, p, q) {
        lemma_token_in_field(c.model@, p, q);
    } else if starts_token(c.form_factor@, p, q) {
        lemma_token_in_field(c.form_factor@, p, q);
    } else {
        lemma_token_in_field(c.chemistry@, p, q);
    }
    assert forall|i: int, j: int| #[trigger] is_term(q, i, j) implies cell_has(c, q, i, j) by {
        if i > 0 {
            assert(is_word_char(q[i - 1]));
        }
        if j < q.len() {
            assert(is_word_char(q[j]));
        }
    }
}

fn word_char(c: char) -> (r: bool)
    ensures
        r == is_word_char(c),
{
    alphanumeric(c)
}

fn fold_code(c: char) -> (r: u32)
    ensures
        r == folded(c),
{
    if 'A' <= c && c <= 'Z' {
        (c as u32) + 32
    } else {
        c as u32
    }
}

/// Whether some token of `f` begins with `q[i..j]`.
fn field_has_term(f: &Vec<char>, q: &Vec<char>, i: usize, j: usize) -> (r: bool)
    requires
        i < j <= q@.len(),
    ensures
        r == field_has(f@, q@, i as int, j as int),
{
    let w = j - i;
    if w > f.len() {
        proof {
            assert forall|p: int| !prefix_at(f@, p, q@, i as int, j as int) by {}
        }
        return false;
    }
    let last = f.len() - w;
    let mut p: usize = 0;
    while p <= last
        invariant
            w == j - i,
            i < j <= q@.len(),
            w <= f@.len(),
            f@.len() <= usize::MAX,
            last == f@.len() - w,
            p <= last + 1,
            forall|x: int| 0 <= x < p ==> !prefix_at(f@, x, q@, i as int, j as int),
        decreases last + 1 - p,
    {
        if p == 0 || !word_char(f[p - 1]) {
            let mut k: usize = 0;
            let mut same = true;
            while k < w && same
                invariant
                    w == j - i,
                    i < j <= q@.len(),
                    w <= f@.len(),
                    f@.len() <= usize::MAX,
                    p <= last,
                    last == f@.len() - w,
                    k <= w,
                    forall|y: int| 0 <= y < k ==> folded(#[trigger] f@[p + y]) == folded(q@[i + y]),
                    !same ==> k < w && folded(f@[p + k]) != folded(q@[i + k]),
                decreases w - k + (if same { 1int } else { 0int }),
            {
                let fp = p + k;
                let qp = i + k;
                if fold_code(f[fp]) == fold_code(q[qp]) {
                    k = k + 1;
                } else {
                    same = false;
                }
            }
            if k == w {
                proof {
                    assert(prefix_at(f@, p as int, q@, i as int, j as int));
                }
                return true;
            }
            proof {
                assert(folded(f@[p + k]) != folded(q@[i + k]));
            }
        }
        p = p + 1;
    }
    proof {
        assert forall|x: int| !prefix_at(f@, x, q@, i as int, j as int) by {
            if 0 <= x <= last {
            }
        }
    }
    false
}

/// Whether some indexed field of the cell has a token that begins with `q[i..j]`.
fn cell_has_term(c: &Cell, q: &Vec<char>, i: usize, j: usize) -> (r: bool)
    requires
        i < j <= q@.len(),
    ensures
        r == cell_has(*c, q@, i as int, j as int),
{
    field_has_term(&chars_of(c.manufacturer.as_str()), q, i, j) || field_has_term(
        &chars_of(c.model.as_str()),
        q,
        i,
        j,
    ) || field_has_term(&chars_of(c.form_factor.as_str()), q, i, j) || field_has_term(
        &chars_of(c.chemistry.as_str()),
        q,
        i,
        j,
    )
}

proof fn lemma_term_end_unique(q: Seq<char>, i: int, j: int, k: int)
    requires
        is_term(q, i, j),
        is_term(q, i, k),
    ensures
        j == k,
{
    if j < k {
        assert(is_word_char(q[j]));
    } else if k < j {
        assert(is_word_char(q[k]));
    }
}

/// Whether a cell matches a query given as characters.
pub fn matches_query(c: &Cell, q: &Vec<char>) -> (r: bool)
    ensures
        r == cell_matches(*c, q@),
{
    let n = q.len();
    let mut any = false;
    let mut i: usize = 0;
    while i < n
        invariant
            n == q@.len(),
            i <= n,
            any == exists|a: int, b: int| a < i && #[trigger] is_term(q@, a, b),
            forall|a: int, b: int| a < i && #[trigger] is_term(q@, a, b) ==> cell_has(*c, q@, a, b),
        decreases n - i,
    {
        if word_char(q[i]) && (i == 0 || !word_char(q[i - 1])) {
            let mut j: usize = i + 1;
            while j < n && word_char(q[j])
                invariant
                    n == q@.len(),
                    i < j <= n,
                    forall|k: int| i <= k < j ==> is_word_char(#[trigger] q@[k]),
                decreases n - j,
            {
                j = j + 1;
            }
            proof {
                assert(is_term(q@, i as int, j as int));
            }
            if !cell_has_term(c, q, i, j) {
                return false;
            }
            any = true;
            proof {
                assert forall|a: int, b: int| a < i + 1 && #[trigger] is_term(q@, a, b) implies cell_has(
                    *c,
                    q@,
                    a,
                    b,
                ) by {
                    if a == i {
                        lemma_term_end_unique(q@, a, b, j as int);
                    }
                }
            }
        } else {
            proof {
                assert forall|b: int| !is_term(q@, i as int, b) by {}
            }
        }
        i = i + 1;
    }
    proof {
        assert forall|a: int, b: int| #[trigger] is_term(q@, a, b) implies a < n by {}
    }
    any
}

/// Whether a cell matches a query.
pub fn cell_matches_text(c: &Cell, query: &str) -> (r: bool)
    ensures
        r == cell_matches(*c, query@),
{
    matches_query(c, &chars_of(query))
}

} // verus!
