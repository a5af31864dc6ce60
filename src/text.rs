use vstd::prelude::*;

verus! {

/// Compares two texts character by character.
pub fn same_text(a: &str, b: &str) -> (r: bool)
    ensures
        r == (a@ == b@),
{
    let n = a.unicode_len();
    let m = b.unicode_len();
    if n != m {
        return false;
    }
    let mut i: usize = 0;
    while i < n
        invariant
            n == a@.len(),
            m == b@.len(),
            n == m,
            i <= n,
            forall|k: int| 0 <= k < i ==> a@[k] == b@[k],
        decreases n - i,
    {
        if a.get_char(i) != b.get_char(i) {
            return false;
        }
        i = i + 1;
    }
    proof {
        assert(a@ =~= b@);
    }
    true
}

/// Builds an owned string holding the given text.
pub fn owned(s: &str) -> (r: String)
    ensures
        r@ == s@,
{
    s.to_string()
}

/// `a` and `b` agree on their first `k` characters.
pub open spec fn agree_upto(a: Seq<char>, b: Seq<char>, k: int) -> bool {
    forall|i: int| 0 <= i < k ==> a[i] == b[i]
}

/// `k` is where `a` first falls below `b`: the texts agree before it, and
/// there `a` ends while `b` goes on, or `a` has the smaller code point.
pub open spec fn below_at(a: Seq<char>, b: Seq<char>, k: int) -> bool {
    &&& 0 <= k <= a.len()
    &&& k <= b.len()
    &&& agree_upto(a, b, k)
    &&& ((k == a.len() && k < b.len()) || (k < a.len() && k < b.len() && a[k] < b[k]))
}

/// Code-point lexicographic order of texts, the order of their UTF-8 bytes.
pub open spec fn text_lt(a: Seq<char>, b: Seq<char>) -> bool {
    exists|k: int| #[trigger] below_at(a, b, k)
}

/// No text lies below itself, and two texts are not each below the other.
pub proof fn lemma_text_lt_asymmetric(a: Seq<char>, b: Seq<char>)
    ensures
        !(text_lt(a, b) && text_lt(b, a)),
        !text_lt(a, a),
{
    if text_lt(a, b) && text_lt(b, a) {
        let k1 = choose|k: int| below_at(a, b, k);
        let k2 = choose|k: int| below_at(b, a, k);
        if k1 < k2 {
            assert(a[k1] == b[k1]);
        } else if k2 < k1 {
            assert(a[k2] == b[k2]);
        }
    }
    if text_lt(a, a) {
        let k = choose|k: int| below_at(a, a, k);
    }
}

/// Two different texts are ordered one way or the other.
pub proof fn lemma_text_lt_total(a: Seq<char>, b: Seq<char>)
    requires
        a != b,
    ensures
        text_lt(a, b) || text_lt(b, a),
{
    let n = if a.len() < b.len() {
        a.len() as int
    } else {
        b.len() as int
    };
    if agree_upto(a, b, n) {
        if a.len() == b.len() {
            assert(a =~= b);
        } else if a.len() < b.len() {
            assert(below_at(a, b, n));
        } else {
            assert(below_at(b, a, n));
        }
    } else {
        lemma_first_difference(a, b, n);
        let k = choose|k: int| 0 <= k < n && a[k] != b[k] && agree_upto(a, b, k);
        if a[k] < b[k] {
            assert(below_at(a, b, k));
        } else {
            assert(below_at(b, a, k));
        }
    }
}

proof fn lemma_first_difference(a: Seq<char>, b: Seq<char>, n: int)
    requires
        0 <= n <= a.len(),
        n <= b.len(),
        !agree_upto(a, b, n),
    ensures
        exists|k: int| 0 <= k < n && a[k] != b[k] && agree_upto(a, b, k),
    decreases n,
{
    if agree_upto(a, b, n - 1) {
        assert(a[n - 1] != b[n - 1]);
    } else {
        lemma_first_difference(a, b, n - 1);
    }
}

/// The order of texts is transitive.
pub proof fn lemma_text_lt_transitive(a: Seq<char>, b: Seq<char>, c: Seq<char>)
    requires
        text_lt(a, b),
        text_lt(b, c),
    ensures
        text_lt(a, c),
{
    let k1 = choose|k: int| below_at(a, b, k);
    let k2 = choose|k: int| below_at(b, c, k);
    if k1 < k2 {
        assert(below_at(a, c, k1));
    } else if k2 < k1 {
        assert(below_at(a, c, k2));
    } else {
        assert(below_at(a, c, k1));
    }
}

/// The characters of a text, one per element.
pub fn chars_of(s: &str) -> (r: Vec<char>)
    ensures
        r@ == s@,
{
    let n = s.unicode_len();
    let mut r: Vec<char> = Vec::new();
    let mut i: usize = 0;
    while i < n
        invariant
            n == s@.len(),
            i <= n,
            r@ == s@.subrange(0, i as int),
        decreases n - i,
    {
        r.push(s.get_char(i));
        i = i + 1;
        proof {
            assert(r@ =~= s@.subrange(0, i as int));
        }
    }
    proof {
        assert(r@ =~= s@);
    }
    r
}

/// Whether `a` comes strictly before `b` in code-point order.
pub fn text_less(a: &str, b: &str) -> (r: bool)
    ensures
        r == text_lt(a@, b@),
{
    let x = chars_of(a);
    let y = chars_of(b);
    let mut i: usize = 0;
    while i < x.len() && i < y.len() && x[i] == y[i]
        invariant
            x@ == a@,
            y@ == b@,
            i <= x@.len(),
            i <= y@.len(),
            agree_upto(a@, b@, i as int),
        decreases x@.len() - i,
    {
        i = i + 1;
    }
    if i == x.len() {
        if i < y.len() {
            proof {
                assert(below_at(a@, b@, i as int));
            }
            true
        } else {
            proof {
                assert(a@ =~= b@);
                lemma_text_lt_asymmetric(a@, b@);
            }
            false
        }
    } else if i == y.len() {
        proof {
            assert(below_at(b@, a@, i as int));
            lemma_text_lt_asymmetric(a@, b@);
        }
        false
    } else if x[i] < y[i] {
        proof {
            assert(below_at(a@, b@, i as int));
        }
        true
    } else {
        proof {
            assert(below_at(b@, a@, i as int));
            lemma_text_lt_asymmetric(a@, b@);
        }
        false
    }
}

} // verus!
