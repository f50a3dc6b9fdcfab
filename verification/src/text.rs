use vstd::prelude::*;
use vstd::string::StrSliceExecFns;

verus! {

/// The position where two texts first differ: the first index at which their characters
/// differ, or the length of the shorter one when one is a prefix of the other.
pub open spec fn common_prefix_at(a: Seq<char>, b: Seq<char>, k: int) -> bool {
    &&& 0 <= k <= a.len()
    &&& k <= b.len()
    &&& forall|j: int| 0 <= j < k ==> #[trigger] a[j] == b[j]
    &&& (k == a.len() || k == b.len() || a[k] != b[k])
}

/// `a` sorts strictly before `b` in Rust's order of strings: at the first position where they
/// differ, `a` has the smaller character (Rust compares the UTF-8 bytes, which orders
/// characters by code point), or `a` is a proper prefix of `b`.
pub open spec fn text_lt(a: Seq<char>, b: Seq<char>) -> bool {
    exists|k: int|
        #[trigger] common_prefix_at(a, b, k) && ((k == a.len() && k < b.len()) || (k < a.len() && k
            < b.len() && (a[k] as int) < (b[k] as int)))
}

/// `a` sorts before `b` or equals it.
pub open spec fn text_le(a: Seq<char>, b: Seq<char>) -> bool {
    !text_lt(b, a)
}

/// Two texts have a single first point of difference.
proof fn lemma_common_prefix_unique(a: Seq<char>, b: Seq<char>, k1: int, k2: int)
    requires
        common_prefix_at(a, b, k1),
        common_prefix_at(a, b, k2),
    ensures
        k1 == k2,
{
    if k1 < k2 {
        assert(a[k1] == b[k1]);
    } else if k2 < k1 {
        assert(a[k2] == b[k2]);
    }
}

/// Two texts always have a first point of difference.
proof fn lemma_common_prefix_exists(a: Seq<char>, b: Seq<char>, i: int) -> (k: int)
    requires
        0 <= i <= a.len(),
        i <= b.len(),
        forall|j: int| 0 <= j < i ==> #[trigger] a[j] == b[j],
    ensures
        common_prefix_at(a, b, k),
    decreases a.len() - i,
{
    if i == a.len() || i == b.len() || a[i] != b[i] {
        i
    } else {
        lemma_common_prefix_exists(a, b, i + 1)
    }
}

/// The first point of difference does not depend on the order of the two texts.
proof fn lemma_common_prefix_symmetric(a: Seq<char>, b: Seq<char>, k: int)
    requires
        common_prefix_at(a, b, k),
    ensures
        common_prefix_at(b, a, k),
{
}

/// The order of texts is total: two texts are equal, or one sorts before the other.
pub proof fn lemma_text_trichotomy(a: Seq<char>, b: Seq<char>)
    ensures
        a == b || text_lt(a, b) || text_lt(b, a),
{
    let k = lemma_common_prefix_exists(a, b, 0);
    lemma_common_prefix_symmetric(a, b, k);
    if k == a.len() && k == b.len() {
        assert(a =~= b);
    } else if k == a.len() {
        assert(text_lt(a, b));
    } else if k == b.len() {
        assert(text_lt(b, a));
    } else {
        assert(a[k] != b[k]);
        if (a[k] as int) < (b[k] as int) {
            assert(text_lt(a, b));
        } else {
            assert((b[k] as int) < (a[k] as int));
            assert(text_lt(b, a));
        }
    }
}

/// The order of texts is asymmetric, hence irreflexive.
pub proof fn lemma_text_asymmetric(a: Seq<char>, b: Seq<char>)
    ensures
        text_lt(a, b) ==> !text_lt(b, a),
        !text_lt(a, a),
{
    if text_lt(a, b) && text_lt(b, a) {
        let k1 = choose|k: int|
            #[trigger] common_prefix_at(a, b, k) && ((k == a.len() && k < b.len()) || (k < a.len()
                && k < b.len() && (a[k] as int) < (b[k] as int)));
        let k2 = choose|k: int|
            #[trigger] common_prefix_at(b, a, k) && ((k == b.len() && k < a.len()) || (k < b.len()
                && k < a.len() && (b[k] as int) < (a[k] as int)));
        lemma_common_prefix_symmetric(b, a, k2);
        lemma_common_prefix_unique(a, b, k1, k2);
    }
    if text_lt(a, a) {
        let k = choose|k: int|
            #[trigger] common_prefix_at(a, a, k) && ((k == a.len() && k < a.len()) || (k < a.len()
                && k < a.len() && (a[k] as int) < (a[k] as int)));
    }
}

/// The order of texts is transitive.
pub proof fn lemma_text_transitive(a: Seq<char>, b: Seq<char>, c: Seq<char>)
    requires
        text_lt(a, b),
        text_lt(b, c),
    ensures
        text_lt(a, c),
{
    let k1 = choose|k: int|
        #[trigger] common_prefix_at(a, b, k) && ((k == a.len() && k < b.len()) || (k < a.len() && k
            < b.len() && (a[k] as int) < (b[k] as int)));
    let k2 = choose|k: int|
        #[trigger] common_prefix_at(b, c, k) && ((k == b.len() && k < c.len()) || (k < b.len() && k
            < c.len() && (b[k] as int) < (c[k] as int)));
    if k1 <= k2 {
        assert forall|j: int| 0 <= j < k1 implies #[trigger] a[j] == c[j] by {
            assert(a[j] == b[j]);
            assert(b[j] == c[j]);
        }
        if k1 < k2 {
            assert(k1 < c.len());
            if k1 < a.len() {
                assert(b[k1] == c[k1]);
            }
        }
        assert(common_prefix_at(a, c, k1));
        assert(text_lt(a, c));
    } else {
        assert forall|j: int| 0 <= j < k2 implies #[trigger] a[j] == c[j] by {
            assert(a[j] == b[j]);
            assert(b[j] == c[j]);
        }
        assert(k2 < b.len());
        assert(a[k2] == b[k2]);
        assert(common_prefix_at(a, c, k2));
        assert(text_lt(a, c));
    }
}

/// A text that sorts before another sorts before every text that follows that one.
pub proof fn lemma_text_lt_le(a: Seq<char>, b: Seq<char>, c: Seq<char>)
    requires
        text_lt(a, b),
        text_le(b, c),
    ensures
        text_lt(a, c),
{
    lemma_text_trichotomy(b, c);
    if b != c {
        lemma_text_transitive(a, b, c);
    }
}

/// Whether `a` sorts strictly before `b`.
pub fn text_less(a: &str, b: &str) -> (lt: bool)
    ensures
        lt == text_lt(a@, b@),
{
    let la = a.unicode_len();
    let lb = b.unicode_len();
    let mut i: usize = 0;
    while i < la && i < lb
        invariant
            i <= la,
            i <= lb,
            la == a@.len(),
            lb == b@.len(),
            forall|j: int| 0 <= j < i ==> #[trigger] a@[j] == b@[j],
        decreases la - i,
    {
        let ca = a.get_char(i);
        let cb = b.get_char(i);
        if ca != cb {
            let lt = (ca as u32) < (cb as u32);
            proof {
                assert(common_prefix_at(a@, b@, i as int));
                if !lt {
                    assert forall|k: int| common_prefix_at(a@, b@, k) implies k == i by {
                        lemma_common_prefix_unique(a@, b@, k, i as int);
                    }
                }
            }
            return lt;
        }
        i += 1;
    }
    proof {
        assert(common_prefix_at(a@, b@, i as int));
        assert forall|k: int| common_prefix_at(a@, b@, k) implies k == i by {
            lemma_common_prefix_unique(a@, b@, k, i as int);
        }
    }
    la < lb
}

/// Whether `a` sorts before `b` or equals it.
pub fn text_less_or_equal(a: &str, b: &str) -> (le: bool)
    ensures
        le == text_le(a@, b@),
{
    !text_less(b, a)
}

} // verus!
