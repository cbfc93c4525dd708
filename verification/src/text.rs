//! Text primitives: literal prefixes and the lexicographic order on names.

use vstd::prelude::*;
use vstd::string::*;

verus! {

/// How one name stands relative to another in lexicographic order.
#[derive(Clone, Copy, Debug, PartialEq, Eq, Structural)]
pub enum Order {
    Before,
    Same,
    After,
}

/// `a` and `b` agree on their first `k` characters, and at position `k`
/// either `a` has ended while `b` goes on, or `a` holds the smaller character.
pub open spec fn splits_at(a: Seq<char>, b: Seq<char>, k: int) -> bool {
    &&& 0 <= k <= a.len()
    &&& k < b.len()
    &&& forall|j: int| 0 <= j < k ==> a[j] == b[j]
    &&& (k == a.len() || (a[k] as u32) < (b[k] as u32))
}

/// Strict lexicographic order by character code.
pub open spec fn precedes(a: Seq<char>, b: Seq<char>) -> bool {
    exists|k: int| splits_at(a, b, k)
}

/// The position of `a` relative to `b`.
pub open spec fn order_of(a: Seq<char>, b: Seq<char>) -> Order {
    if precedes(a, b) {
        Order::Before
    } else if a == b {
        Order::Same
    } else {
        Order::After
    }
}

/// Every element of `names` strictly precedes the one after it.
pub open spec fn strictly_sorted(names: Seq<Seq<char>>) -> bool {
    forall|i: int, j: int| 0 <= i < j < names.len() ==> precedes(names[i], names[j])
}

/// The order is transitive.
pub proof fn lemma_precedes_transitive(a: Seq<char>, b: Seq<char>, c: Seq<char>)
    requires
        precedes(a, b),
        precedes(b, c),
    ensures
        precedes(a, c),
{
    let k1 = choose|k: int| splits_at(a, b, k);
    let k2 = choose|k: int| splits_at(b, c, k);
    let k = if k1 <= k2 { k1 } else { k2 };
    assert(splits_at(a, c, k));
}

/// No name precedes itself, and no two names precede each other.
pub proof fn lemma_precedes_asymmetric(a: Seq<char>, b: Seq<char>)
    requires
        precedes(a, b),
    ensures
        !precedes(b, a),
        a != b,
{
    let k1 = choose|k: int| splits_at(a, b, k);
    if precedes(b, a) {
        let k2 = choose|k: int| splits_at(b, a, k);
        if k1 < k2 {
            assert(b[k1] == a[k1]);
        } else if k2 < k1 {
            assert(a[k2] == b[k2]);
        }
        assert(false);
    }
    if a == b {
        assert(splits_at(a, a, k1));
        assert(false);
    }
}

/// Different characters have different codes.
proof fn lemma_codes_differ(x: char, y: char)
    requires
        x != y,
    ensures
        x as u32 != y as u32,
{
}

/// Two names that agree on their first `k` characters are equal, or one of
/// them precedes the other.
proof fn lemma_total_from(a: Seq<char>, b: Seq<char>, k: int)
    requires
        0 <= k <= a.len(),
        k <= b.len(),
        forall|j: int| 0 <= j < k ==> a[j] == b[j],
    ensures
        precedes(a, b) || a == b || precedes(b, a),
    decreases a.len() - k,
{
    if k == a.len() && k == b.len() {
        assert(a =~= b);
    } else if k == a.len() {
        assert(splits_at(a, b, k));
    } else if k == b.len() {
        assert(splits_at(b, a, k));
    } else if a[k] == b[k] {
        lemma_total_from(a, b, k + 1);
    } else if (a[k] as u32) < (b[k] as u32) {
        assert(splits_at(a, b, k));
    } else {
        lemma_codes_differ(a[k], b[k]);
        assert(splits_at(b, a, k));
    }
}

/// The order is total: of two different names one precedes the other.
pub proof fn lemma_precedes_total(a: Seq<char>, b: Seq<char>)
    ensures
        precedes(a, b) || a == b || precedes(b, a),
{
    lemma_total_from(a, b, 0);
}

/// Compares two names character by character.
pub fn compare(a: &str, b: &str) -> (r: Order)
    ensures
        r == order_of(a@, b@),
{
    let la: usize = a.unicode_len();
    let lb: usize = b.unicode_len();
    let mut i: usize = 0;
    while i < la && i < lb
        invariant
            la == a@.len(),
            lb == b@.len(),
            i <= la,
            i <= lb,
            forall|j: int| 0 <= j < i ==> a@[j] == b@[j],
        decreases la - i,
    {
        let ca: char = a.get_char(i);
        let cb: char = b.get_char(i);
        if (ca as u32) < (cb as u32) {
            proof {
                assert(splits_at(a@, b@, i as int));
            }
            return Order::Before;
        }
        if (cb as u32) < (ca as u32) {
            proof {
                assert(splits_at(b@, a@, i as int));
                lemma_precedes_asymmetric(b@, a@);
            }
            return Order::After;
        }
        i += 1;
    }
    if la < lb {
        proof {
            assert(splits_at(a@, b@, i as int));
        }
        Order::Before
    } else if lb < la {
        proof {
            assert(splits_at(b@, a@, i as int));
            lemma_precedes_asymmetric(b@, a@);
        }
        Order::After
    } else {
        proof {
            assert(a@ =~= b@);
            if precedes(a@, b@) {
                lemma_precedes_asymmetric(a@, b@);
            }
        }
        Order::Same
    }
}

/// Whether `name` begins with `prefix`, compared character by character with
/// no normalisation.
pub fn starts_with(name: &str, prefix: &str) -> (r: bool)
    ensures
        r == prefix@.is_prefix_of(name@),
{
    let ln: usize = name.unicode_len();
    let lp: usize = prefix.unicode_len();
    if lp > ln {
        return false;
    }
    let mut i: usize = 0;
    while i < lp
        invariant
            ln == name@.len(),
            lp == prefix@.len(),
            lp <= ln,
            i <= lp,
            forall|j: int| 0 <= j < i ==> name@[j] == prefix@[j],
        decreases lp - i,
    {
        let cn: char = name.get_char(i);
        let cp: char = prefix.get_char(i);
        if cn != cp {
            proof {
                assert(name@.subrange(0, lp as int)[i as int] == name@[i as int]);
            }
            return false;
        }
        i += 1;
    }
    proof {
        assert(prefix@ =~= name@.subrange(0, lp as int));
    }
    true
}

} // verus!
