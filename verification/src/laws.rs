//! Laws relating the card operations, stated over [`CardView`] — the model
//! every executable operation is specified against — and proved for all card
//! states and all inputs.

use vstd::prelude::*;
use crate::card::CardView;

verus! {

/// Setting the title and then reading it yields exactly the title that was
/// set, for every card state and every title.
pub proof fn lemma_title_round_trip(m: CardView, t: Seq<char>)
    ensures
        m.with_title(t).title == t,
{
}

/// A parent reference that fits the unsigned 32-bit identity space
/// round-trips through the sentinel encoding unchanged; a negative reference
/// reads back as the sentinel -1.
pub proof fn lemma_parent_round_trip(m: CardView, p: i64)
    ensures
        0 <= p <= u32::MAX as i64 ==> m.with_parent(p).parent_sentinel() == p,
        p < 0 ==> m.with_parent(p).parent_sentinel() == -1,
{
}

/// Adding a non-negative child identity that is not yet present appends it:
/// the list grows by exactly one and the new last element is that identity.
/// Repeating the same call leaves the card unchanged.
pub proof fn lemma_add_child(m: CardView, x: i64)
    ensures
        x >= 0 && !m.children.contains(x as u32) ==> {
            &&& m.child_added(x).children == m.children.push(x as u32)
            &&& m.child_added(x).children.len() == m.children.len() + 1
            &&& m.child_added(x).children.last() == x as u32
        },
        m.child_added(x).child_added(x) == m.child_added(x),
{
    if x >= 0 && !m.children.contains(x as u32) {
        let grown = m.child_added(x).children;
        assert(grown[m.children.len() as int] == x as u32);
        assert(grown.contains(x as u32));
    }
}

/// A negative child reference never changes the card.
pub proof fn lemma_add_child_negative(m: CardView, x: i64)
    ensures
        x < 0 ==> m.child_added(x) == m,
{
}

/// Removing a present child deletes one occurrence at its first position and
/// keeps the relative order of the remaining entries; removing an absent or
/// negative identity changes nothing. On a card with no duplicate children,
/// the identity is gone afterwards.
pub proof fn lemma_remove_child(m: CardView, x: i64)
    ensures
        x < 0 ==> m.child_removed(x) == m,
        x >= 0 && !m.children.contains(x as u32) ==> m.child_removed(x) == m,
        x >= 0 && m.children.contains(x as u32) ==> {
            &&& m.child_removed(x).children.len() == m.children.len() - 1
            &&& exists|k: int|
                0 <= k < m.children.len() && m.children[k] == x as u32
                    && m.child_removed(x).children == m.children.remove(k)
        },
        m.wf() && x >= 0 ==> !m.child_removed(x).children.contains(x as u32),
{
    if x >= 0 {
        let id = x as u32;
        m.children.index_of_first_ensures(id);
        if m.children.contains(id) {
            let k = m.children.index_of_first(id)->0;
            assert(m.children[k] == id && m.child_removed(x).children == m.children.remove(k));
            if m.wf() {
                lemma_remove_no_other_occurrence(m.children, k);
            }
        }
    }
}

/// A freshly constructed card has no children, no bucket assignment, and
/// exactly the bucket "Default", whatever the constructor arguments were; it
/// satisfies the card invariants.
pub proof fn lemma_new_defaults(title: Seq<char>, parent_ref: i64)
    ensures
        CardView::init(title, parent_ref).children.len() == 0,
        CardView::init(title, parent_ref).bucket is None,
        CardView::init(title, parent_ref).buckets == seq!["Default"@],
        CardView::init(title, parent_ref).wf(),
{
}

/// Adding a bucket name that is not yet present appends it at the end;
/// repeating the same call leaves the card unchanged.
pub proof fn lemma_add_bucket(m: CardView, name: Seq<char>)
    ensures
        !m.buckets.contains(name) ==> {
            &&& m.bucket_added(name).buckets == m.buckets.push(name)
            &&& m.bucket_added(name).buckets.len() == m.buckets.len() + 1
            &&& m.bucket_added(name).buckets.last() == name
        },
        m.bucket_added(name).bucket_added(name) == m.bucket_added(name),
{
    if !m.buckets.contains(name) {
        let grown = m.bucket_added(name).buckets;
        assert(grown[m.buckets.len() as int] == name);
        assert(grown.contains(name));
    }
}

/// Setting the bucket to the empty string always clears the assignment; any
/// non-empty name is stored as given, whether or not it appears in `buckets`.
pub proof fn lemma_set_bucket(m: CardView, name: Seq<char>)
    ensures
        name.len() == 0 ==> m.with_bucket(name).bucket is None,
        name.len() > 0 ==> m.with_bucket(name).bucket == Some(name),
{
}

/// Every operation preserves the card invariants: no duplicate children, no
/// duplicate bucket names, at least one bucket, and a stored parent identity
/// within the unsigned 32-bit identity space.
pub proof fn lemma_operations_preserve_wf(m: CardView, raw: i64, t: Seq<char>, name: Seq<char>)
    requires
        m.wf(),
    ensures
        m.with_title(t).wf(),
        m.with_parent(raw).wf(),
        m.child_added(raw).wf(),
        m.child_removed(raw).wf(),
        m.with_bucket(name).wf(),
        m.bucket_added(name).wf(),
{
    assert(m.child_added(raw).children.no_duplicates()) by {
        if raw >= 0 && !m.children.contains(raw as u32) {
            let grown = m.children.push(raw as u32);
            assert forall|i: int, j: int|
                0 <= i < grown.len() && 0 <= j < grown.len() && i != j implies grown[i]
                != grown[j] by {
                if i < m.children.len() && j < m.children.len() {
                } else if i < m.children.len() {
                    assert(m.children.contains(m.children[i]));
                } else if j < m.children.len() {
                    assert(m.children.contains(m.children[j]));
                }
            }
        }
    }
    assert(m.child_removed(raw).children.no_duplicates()) by {
        if raw >= 0 {
            let id = raw as u32;
            m.children.index_of_first_ensures(id);
            if m.children.contains(id) {
                let k = m.children.index_of_first(id)->0;
                lemma_remove_keeps_no_duplicates(m.children, k);
            }
        }
    }
    assert(m.bucket_added(name).buckets.no_duplicates()) by {
        if !m.buckets.contains(name) {
            let grown = m.buckets.push(name);
            assert forall|i: int, j: int|
                0 <= i < grown.len() && 0 <= j < grown.len() && i != j implies grown[i]
                != grown[j] by {
                if i < m.buckets.len() && j < m.buckets.len() {
                } else if i < m.buckets.len() {
                    assert(m.buckets.contains(m.buckets[i]));
                } else if j < m.buckets.len() {
                    assert(m.buckets.contains(m.buckets[j]));
                }
            }
        }
    }
}

/// Removing an element at a valid index of a duplicate-free sequence leaves a
/// duplicate-free sequence.
proof fn lemma_remove_keeps_no_duplicates(s: Seq<u32>, k: int)
    requires
        0 <= k < s.len(),
        s.no_duplicates(),
    ensures
        s.remove(k).no_duplicates(),
{
    s.remove_ensures(k);
    let r = s.remove(k);
    assert forall|i: int, j: int|
        0 <= i < r.len() && 0 <= j < r.len() && i != j implies r[i] != r[j] by {
        let oi: int = if i < k { i } else { i + 1 };
        let oj: int = if j < k { j } else { j + 1 };
        assert(r[i] == s[oi] && r[j] == s[oj]);
    }
}

/// In a duplicate-free sequence, removing the element at an index where some
/// value sits removes the value's only occurrence.
proof fn lemma_remove_no_other_occurrence(s: Seq<u32>, k: int)
    requires
        0 <= k < s.len(),
        s.no_duplicates(),
    ensures
        !s.remove(k).contains(s[k]),
{
    s.remove_ensures(k);
    let r = s.remove(k);
    assert forall|j: int| 0 <= j < r.len() implies r[j] != s[k] by {
        let oj: int = if j < k { j } else { j + 1 };
        assert(r[j] == s[oj]);
    }
}

} // verus!
