//! The directory listing that observers seed their state with: of the names
//! found in the watched directory, those that end in the tracked suffix, in
//! ascending lexical order.
//!
//! Reading the directory is the caller's business; this module selects and
//! orders the names it is given.

use crate::debounce::{has_suffix, is_suffix};
use vstd::prelude::*;
use vstd::seq_lib::{to_multiset_build, to_multiset_insert};
use vstd::utf8::encode_utf8;

verus! {

/// The length of the longest common prefix of `a` and `b`, counted from
/// position `i`, up to which they are taken to agree.
pub open spec fn common_prefix_from(a: Seq<u8>, b: Seq<u8>, i: nat) -> nat
    decreases a.len() - i,
{
    if i < a.len() && i < b.len() && a[i as int] == b[i as int] {
        common_prefix_from(a, b, i + 1)
    } else {
        i
    }
}

/// Lexicographic order on byte strings: at the first position where the two
/// differ the byte of `a` is the smaller one, or `a` ends there.
pub open spec fn bytes_le(a: Seq<u8>, b: Seq<u8>) -> bool {
    let k = common_prefix_from(a, b, 0) as int;
    k >= a.len() || (k < b.len() && a[k] < b[k])
}

/// The lexical order of names: the lexicographic order of their UTF-8
/// encodings.
pub open spec fn name_le(a: Seq<char>, b: Seq<char>) -> bool {
    bytes_le(encode_utf8(a), encode_utf8(b))
}

/// Each name is at most every name after it.
pub open spec fn ascending(names: Seq<Seq<char>>) -> bool {
    forall|i: int, j: int| 0 <= i < j < names.len() ==> name_le(names[i], names[j])
}

/// The views of a sequence of names.
pub open spec fn name_views(names: Seq<String>) -> Seq<Seq<char>> {
    names.map_values(|name: String| name@)
}

/// The names that end in `suffix`, in the order given.
pub open spec fn matching(names: Seq<Seq<char>>, suffix: Seq<char>) -> Seq<Seq<char>> {
    names.filter(|name: Seq<char>| is_suffix(name, suffix))
}

/// What the common prefix length is: the two agree before it, and at it
/// they differ or one of them ends.
proof fn lemma_common_prefix(a: Seq<u8>, b: Seq<u8>, i: nat)
    requires
        i <= a.len(),
        i <= b.len(),
    ensures
        i <= common_prefix_from(a, b, i) <= a.len(),
        common_prefix_from(a, b, i) <= b.len(),
        forall|j: int| i <= j < common_prefix_from(a, b, i) ==> a[j] == b[j],
        ({
            let k = common_prefix_from(a, b, i) as int;
            k == a.len() || k == b.len() || a[k] != b[k]
        }),
    decreases a.len() - i,
{
    if i < a.len() && i < b.len() && a[i as int] == b[i as int] {
        lemma_common_prefix(a, b, i + 1);
    }
}

/// A position before which the two agree, and at which they differ or one
/// of them ends, is the common prefix length.
proof fn lemma_common_prefix_is(a: Seq<u8>, b: Seq<u8>, i: nat, k: nat)
    requires
        i <= k,
        k <= a.len(),
        k <= b.len(),
        forall|j: int| i <= j < k ==> a[j] == b[j],
        k == a.len() || k == b.len() || a[k as int] != b[k as int],
    ensures
        common_prefix_from(a, b, i) == k,
    decreases k - i,
{
    if i < k {
        lemma_common_prefix_is(a, b, i + 1, k);
    }
}

/// Of two byte strings, one is at most the other.
pub proof fn lemma_bytes_le_total(a: Seq<u8>, b: Seq<u8>)
    ensures
        bytes_le(a, b) || bytes_le(b, a),
{
    lemma_common_prefix(a, b, 0);
    lemma_common_prefix_is(b, a, 0, common_prefix_from(a, b, 0));
}

/// The order on byte strings is transitive.
pub proof fn lemma_bytes_le_transitive(a: Seq<u8>, b: Seq<u8>, c: Seq<u8>)
    requires
        bytes_le(a, b),
        bytes_le(b, c),
    ensures
        bytes_le(a, c),
{
    lemma_common_prefix(a, b, 0);
    lemma_common_prefix(b, c, 0);
    let ab = common_prefix_from(a, b, 0);
    let bc = common_prefix_from(b, c, 0);
    if ab == a.len() {
        if ab <= bc {
            lemma_common_prefix_is(a, c, 0, ab);
        } else {
            lemma_common_prefix_is(a, c, 0, bc);
        }
    } else if ab < bc {
        lemma_common_prefix_is(a, c, 0, ab);
    } else {
        lemma_common_prefix_is(a, c, 0, bc);
    }
}

/// Two byte strings that are each at most the other are the same.
pub proof fn lemma_bytes_le_antisymmetric(a: Seq<u8>, b: Seq<u8>)
    requires
        bytes_le(a, b),
        bytes_le(b, a),
    ensures
        a == b,
{
    lemma_common_prefix(a, b, 0);
    lemma_common_prefix_is(b, a, 0, common_prefix_from(a, b, 0));
    assert(a =~= b);
}

/// Whether `a` comes before `b` in lexical order, or is equal to it.
pub fn name_precedes(a: &str, b: &str) -> (le: bool)
    ensures
        le == name_le(a@, b@),
{
    let x = a.as_bytes();
    let y = b.as_bytes();
    let n: usize = x.len();
    let m: usize = y.len();
    let mut i: usize = 0;
    while i < n && i < m
        invariant
            i <= n,
            i <= m,
            n == x@.len(),
            m == y@.len(),
            x@ == encode_utf8(a@),
            y@ == encode_utf8(b@),
            common_prefix_from(x@, y@, 0) == common_prefix_from(x@, y@, i as nat),
        decreases n - i,
    {
        if x[i] != y[i] {
            return x[i] < y[i];
        }
        i += 1;
    }
    i >= n
}

/// Selects from `names` those that end in `suffix` and puts them in
/// ascending lexical order. A name that occurs several times is listed as
/// many times.
pub fn list_matching(names: &Vec<String>, suffix: &str) -> (listing: Vec<String>)
    ensures
        ascending(name_views(listing@)),
        name_views(listing@).to_multiset() == matching(name_views(names@), suffix@).to_multiset(),
{
    let mut listing: Vec<String> = Vec::new();
    let ghost all = name_views(names@);
    let mut i: usize = 0;
    proof {
        reveal(Seq::filter);
        assert(all.take(0) =~= Seq::<Seq<char>>::empty());
        assert(name_views(listing@) =~= Seq::<Seq<char>>::empty());
    }
    while i < names.len()
        invariant
            i <= names.len(),
            all == name_views(names@),
            ascending(name_views(listing@)),
            name_views(listing@).to_multiset() == matching(all.take(i as int), suffix@).to_multiset(),
        decreases names.len() - i,
    {
        let name: &String = &names[i];
        proof {
            assert(all.take(i + 1) =~= all.take(i as int).push(name@));
            all.take(i as int).lemma_filter_push(
                name@,
                |name: Seq<char>| is_suffix(name, suffix@),
            );
        }
        if has_suffix(name.as_str(), suffix) {
            let ghost before = name_views(listing@);
            let mut p: usize = 0;
            while p < listing.len() && name_precedes(listing[p].as_str(), name.as_str())
                invariant
                    p <= listing.len(),
                    before == name_views(listing@),
                    forall|j: int| 0 <= j < p ==> name_le(before[j], name@),
                decreases listing.len() - p,
            {
                p += 1;
            }
            listing.insert(p, name.clone());
            proof {
                let after = name_views(listing@);
                assert(after =~= before.insert(p as int, name@));
                to_multiset_insert(before, p as int, name@);
                to_multiset_build(
                    matching(all.take(i as int), suffix@),
                    name@,
                );
                assert forall|j: int, k: int| 0 <= j < k < after.len() implies name_le(
                    after[j],
                    after[k],
                ) by {
                    if j == p {
                        // `name` against what stood at `p` or later
                        let here = encode_utf8(before[p as int]);
                        let there = encode_utf8(before[k - 1]);
                        lemma_bytes_le_total(here, encode_utf8(name@));
                        if k - 1 > p {
                            assert(name_le(before[p as int], before[k - 1]));
                            lemma_bytes_le_transitive(encode_utf8(name@), here, there);
                        }
                    } else if k == p {
                        assert(name_le(before[j], name@));
                    } else {
                        let j0 = if j < p { j } else { j - 1 };
                        let k0 = if k < p { k } else { k - 1 };
                        assert(name_le(before[j0], before[k0]));
                    }
                }
            }
        }
        i += 1;
    }
    assert(all.take(i as int) =~= all);
    listing
}

} // verus!
