//! Identifiers of actors and program codes, and the orders by which the
//! programs' maps keep their keys.
use vstd::prelude::*;

verus! {

/// A 256-bit actor (account or program) identifier, held as two halves:
/// `hi` is the big-endian value of the first 16 bytes, `lo` of the last 16.
/// Comparing `(hi, lo)` lexicographically is comparing the 32 bytes.
#[derive(Clone, Copy, Debug, PartialEq, Eq, Structural)]
pub struct ActorId {
    pub hi: u128,
    pub lo: u128,
}

/// A 256-bit identifier of uploaded program code, held as `ActorId` is.
#[derive(Clone, Copy, Debug, PartialEq, Eq, Structural)]
pub struct CodeId {
    pub hi: u128,
    pub lo: u128,
}

impl ActorId {
    /// The all-zero identifier, which a program's default state holds.
    pub fn zero() -> (id: ActorId)
        ensures
            id.hi == 0 && id.lo == 0,
    {
        ActorId { hi: 0, lo: 0 }
    }
}

impl CodeId {
    /// The all-zero code identifier.
    pub fn zero() -> (id: CodeId)
        ensures
            id.hi == 0 && id.lo == 0,
    {
        CodeId { hi: 0, lo: 0 }
    }
}

impl View for ActorId {
    type V = ActorId;

    open spec fn view(&self) -> ActorId {
        *self
    }
}

/// Byte order of two actor identifiers.
pub open spec fn actor_lt(a: ActorId, b: ActorId) -> bool {
    a.hi < b.hi || (a.hi == b.hi && a.lo < b.lo)
}

/// `k` is the first position at which `a` and `b` differ (or the end of the
/// shorter one), and there `a` is the smaller.
pub open spec fn chars_differ_first_at(a: Seq<char>, b: Seq<char>, k: int) -> bool {
    &&& 0 <= k <= a.len()
    &&& k <= b.len()
    &&& forall|j: int| 0 <= j < k ==> a[j] == b[j]
    &&& ((k == a.len() && k < b.len()) || (k < a.len() && k < b.len() && (a[k] as int) < (b[k] as int)))
}

/// Lexicographic order of strings by code points, which is the order of
/// their UTF-8 bytes.
pub open spec fn chars_lt(a: Seq<char>, b: Seq<char>) -> bool {
    exists|k: int| #[trigger] chars_differ_first_at(a, b, k)
}

proof fn lemma_chars_lt_irreflexive(a: Seq<char>)
    ensures
        !chars_lt(a, a),
{
    assert forall|k: int| !#[trigger] chars_differ_first_at(a, a, k) by {}
}

proof fn lemma_chars_lt_transitive(a: Seq<char>, b: Seq<char>, c: Seq<char>)
    requires
        chars_lt(a, b),
        chars_lt(b, c),
    ensures
        chars_lt(a, c),
{
    let k1 = choose|k: int| chars_differ_first_at(a, b, k);
    let k2 = choose|k: int| chars_differ_first_at(b, c, k);
    if k1 < k2 {
        assert(b[k1] == c[k1]);
        assert(chars_differ_first_at(a, c, k1));
    } else if k2 < k1 {
        assert(a[k2] == b[k2]);
        assert(chars_differ_first_at(a, c, k2));
    } else {
        assert(chars_differ_first_at(a, c, k1));
    }
}

proof fn lemma_chars_lt_total_from(a: Seq<char>, b: Seq<char>, k: int)
    requires
        0 <= k <= a.len(),
        k <= b.len(),
        forall|j: int| 0 <= j < k ==> a[j] == b[j],
    ensures
        a == b || chars_lt(a, b) || chars_lt(b, a),
    decreases a.len() - k,
{
    if k == a.len() && k == b.len() {
        assert(a =~= b);
    } else if k == a.len() {
        assert(chars_differ_first_at(a, b, k));
    } else if k == b.len() {
        assert(chars_differ_first_at(b, a, k));
    } else if (a[k] as int) < (b[k] as int) {
        assert(chars_differ_first_at(a, b, k));
    } else if (b[k] as int) < (a[k] as int) {
        assert(chars_differ_first_at(b, a, k));
    } else {
        lemma_chars_lt_total_from(a, b, k + 1);
    }
}

/// A type whose values can key a `SortedMap`: its view is strictly and totally
/// ordered by `key_lt`, and the order and equality can be computed.
pub trait MapKey: View + Sized {
    spec fn key_lt(a: Self::V, b: Self::V) -> bool;

    proof fn lemma_key_lt_irreflexive(a: Self::V)
        ensures
            !Self::key_lt(a, a),
    ;

    proof fn lemma_key_lt_transitive(a: Self::V, b: Self::V, c: Self::V)
        requires
            Self::key_lt(a, b),
            Self::key_lt(b, c),
        ensures
            Self::key_lt(a, c),
    ;

    proof fn lemma_key_lt_total(a: Self::V, b: Self::V)
        ensures
            a == b || Self::key_lt(a, b) || Self::key_lt(b, a),
    ;

    fn lt_key(&self, other: &Self) -> (r: bool)
        ensures
            r == Self::key_lt(self@, other@),
    ;

    fn eq_key(&self, other: &Self) -> (r: bool)
        ensures
            r == (self@ == other@),
    ;
}

impl MapKey for ActorId {
    open spec fn key_lt(a: ActorId, b: ActorId) -> bool {
        actor_lt(a, b)
    }

    proof fn lemma_key_lt_irreflexive(a: ActorId) {
    }

    proof fn lemma_key_lt_transitive(a: ActorId, b: ActorId, c: ActorId) {
    }

    proof fn lemma_key_lt_total(a: ActorId, b: ActorId) {
    }

    fn lt_key(&self, other: &ActorId) -> (r: bool) {
        self.hi < other.hi || (self.hi == other.hi && self.lo < other.lo)
    }

    fn eq_key(&self, other: &ActorId) -> (r: bool) {
        self.hi == other.hi && self.lo == other.lo
    }
}

impl MapKey for u32 {
    open spec fn key_lt(a: u32, b: u32) -> bool {
        a < b
    }

    proof fn lemma_key_lt_irreflexive(a: u32) {
    }

    proof fn lemma_key_lt_transitive(a: u32, b: u32, c: u32) {
    }

    proof fn lemma_key_lt_total(a: u32, b: u32) {
    }

    fn lt_key(&self, other: &u32) -> (r: bool) {
        *self < *other
    }

    fn eq_key(&self, other: &u32) -> (r: bool) {
        *self == *other
    }
}

impl MapKey for String {
    open spec fn key_lt(a: Seq<char>, b: Seq<char>) -> bool {
        chars_lt(a, b)
    }

    proof fn lemma_key_lt_irreflexive(a: Seq<char>) {
        lemma_chars_lt_irreflexive(a);
    }

    proof fn lemma_key_lt_transitive(a: Seq<char>, b: Seq<char>, c: Seq<char>) {
        lemma_chars_lt_transitive(a, b, c);
    }

    proof fn lemma_key_lt_total(a: Seq<char>, b: Seq<char>) {
        lemma_chars_lt_total_from(a, b, 0);
    }

    fn lt_key(&self, other: &String) -> (r: bool) {
        string_lt(self, other)
    }

    fn eq_key(&self, other: &String) -> (r: bool) {
        *self == *other
    }
}

/// Whether `a` comes before `b` in the order of their code points.
pub fn string_lt(a: &String, b: &String) -> (r: bool)
    ensures
        r == chars_lt(a@, b@),
{
    let sa = a.as_str();
    let sb = b.as_str();
    let la = sa.unicode_len();
    let lb = sb.unicode_len();
    let mut i: usize = 0;
    while i < la && i < lb
        invariant
            la == a@.len(),
            lb == b@.len(),
            sa@ == a@,
            sb@ == b@,
            i <= la,
            i <= lb,
            forall|j: int| 0 <= j < i ==> a@[j] == b@[j],
        decreases la - i,
    {
        let ca = sa.get_char(i);
        let cb = sb.get_char(i);
        if ca != cb {
            let r = ca < cb;
            proof {
                if r {
                    assert(chars_differ_first_at(a@, b@, i as int));
                } else {
                    assert(chars_differ_first_at(b@, a@, i as int));
                    if chars_lt(a@, b@) {
                        lemma_chars_lt_transitive(a@, b@, a@);
                        lemma_chars_lt_irreflexive(a@);
                    }
                }
            }
            return r;
        }
        i = i + 1;
    }
    proof {
        if la < lb {
            assert(chars_differ_first_at(a@, b@, i as int));
        } else if lb < la {
            assert(chars_differ_first_at(b@, a@, i as int));
            if chars_lt(a@, b@) {
                lemma_chars_lt_transitive(a@, b@, a@);
                lemma_chars_lt_irreflexive(a@);
            }
        } else {
            assert(a@ =~= b@);
            lemma_chars_lt_irreflexive(a@);
        }
    }
    la < lb
}

/// A copy that is equal to the original, where `Clone` gives no such promise.
pub trait Duplicate: Sized {
    fn duplicate(&self) -> (r: Self)
        ensures
            r == *self,
    ;
}

impl Duplicate for ActorId {
    fn duplicate(&self) -> (r: ActorId) {
        *self
    }
}

impl Duplicate for u32 {
    fn duplicate(&self) -> (r: u32) {
        *self
    }
}

impl Duplicate for String {
    fn duplicate(&self) -> (r: String) {
        self.clone()
    }
}

} // verus!
