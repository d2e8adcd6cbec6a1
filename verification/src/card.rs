//! The `Card` record and its mathematical model.
//!
//! A card is one node of a tree kept by an external owner. It stores an
//! identity, a display title, an optional parent identity, the ordered list of
//! its direct children (no duplicates), an optional bucket assignment, and the
//! ordered list of bucket names available for its children (no duplicates,
//! never empty). Identities cross the call boundary as signed 64-bit integers
//! where any negative value means "absent"; internally a present parent always
//! fits the unsigned 32-bit identity space.

use vstd::prelude::*;

verus! {

/// The abstract state of a [`Card`]: every attribute as a spec-level value.
/// The executable operations are each specified as equal to one of the
/// transition functions below applied to the card's view.
#[verifier::ext_equal]
pub ghost struct CardView {
    pub id: u32,
    pub title: Seq<char>,
    pub parent_id: Option<i64>,
    pub children: Seq<u32>,
    pub bucket: Option<Seq<char>>,
    pub buckets: Seq<Seq<char>>,
}

/// Normalization of a signed parent reference: a negative reference means "no
/// parent"; a non-negative one is reduced to the unsigned 32-bit identity
/// space and stored.
pub open spec fn normalize_parent(raw: i64) -> Option<i64> {
    if raw >= 0 {
        Some((raw as u32) as i64)
    } else {
        None
    }
}

impl CardView {
    /// The local invariants every reachable card satisfies: no duplicate
    /// children, no duplicate bucket names, at least one bucket, and a stored
    /// parent identity that fits the unsigned 32-bit identity space.
    pub open spec fn wf(self) -> bool {
        &&& self.children.no_duplicates()
        &&& self.buckets.no_duplicates()
        &&& self.buckets.len() >= 1
        &&& match self.parent_id {
            Some(p) => 0 <= p <= u32::MAX as i64,
            None => true,
        }
    }

    /// The state of a freshly constructed card: identity 0 (assignment of real
    /// identities is the owner's job), the given title, the normalized parent,
    /// no children, no bucket assignment, and exactly the bucket "Default".
    pub open spec fn init(title: Seq<char>, parent_ref: i64) -> CardView {
        CardView {
            id: 0,
            title: title,
            parent_id: normalize_parent(parent_ref),
            children: Seq::empty(),
            bucket: None,
            buckets: seq!["Default"@],
        }
    }

    /// The parent identity in the signed wire encoding: the identity itself if
    /// present, the sentinel -1 if absent.
    pub open spec fn parent_sentinel(self) -> i64 {
        match self.parent_id {
            Some(p) => p,
            None => -1i64,
        }
    }

    /// The bucket assignment in its wire encoding: the name if assigned, the
    /// empty string if not (the two are interchangeable by normalization).
    pub open spec fn bucket_or_empty(self) -> Seq<char> {
        match self.bucket {
            Some(b) => b,
            None => Seq::empty(),
        }
    }

    /// The card after `set_title`: the title is replaced unconditionally.
    pub open spec fn with_title(self, title: Seq<char>) -> CardView {
        CardView { title: title, ..self }
    }

    /// The card after `set_parent_id`: the same normalization as construction.
    pub open spec fn with_parent(self, raw: i64) -> CardView {
        CardView { parent_id: normalize_parent(raw), ..self }
    }

    /// The card after `add_child`: a negative reference or an identity already
    /// present changes nothing; otherwise the identity is appended at the end.
    pub open spec fn child_added(self, raw: i64) -> CardView {
        if raw < 0 {
            self
        } else if self.children.contains(raw as u32) {
            self
        } else {
            CardView { children: self.children.push(raw as u32), ..self }
        }
    }

    /// The card after `remove_child`: a negative reference or an identity not
    /// present changes nothing; otherwise the first occurrence is removed and
    /// the remaining entries keep their relative order.
    pub open spec fn child_removed(self, raw: i64) -> CardView {
        if raw < 0 {
            self
        } else {
            match self.children.index_of_first(raw as u32) {
                Some(i) => CardView { children: self.children.remove(i), ..self },
                None => self,
            }
        }
    }

    /// The card after `set_bucket`: an empty name clears the assignment, any
    /// other name is stored as given (membership in `buckets` is not checked).
    pub open spec fn with_bucket(self, name: Seq<char>) -> CardView {
        if name.len() == 0 {
            CardView { bucket: None, ..self }
        } else {
            CardView { bucket: Some(name), ..self }
        }
    }

    /// The card after `add_bucket`: a name already present changes nothing;
    /// otherwise the name is appended at the end.
    pub open spec fn bucket_added(self, name: Seq<char>) -> CardView {
        if self.buckets.contains(name) {
            self
        } else {
            CardView { buckets: self.buckets.push(name), ..self }
        }
    }
}

/// One node in a tree of cards, owned and mutated by a single external
/// context. All mutation goes through the methods below; each is total (no
/// error paths) and rejected inputs leave the card unchanged.
pub struct Card {
    id: u32,
    title: String,
    parent_id: Option<i64>,
    children: Vec<u32>,
    bucket: Option<String>,
    buckets: Vec<String>,
}

impl View for Card {
    type V = CardView;

    closed spec fn view(&self) -> CardView {
        CardView {
            id: self.id,
            title: self.title@,
            parent_id: self.parent_id,
            children: self.children@,
            bucket: match self.bucket {
                Some(b) => Some(b@),
                None => None,
            },
            buckets: self.buckets.deep_view(),
        }
    }
}

impl Card {
    /// Constructs a card with the given title and signed parent reference.
    /// Always succeeds; the result satisfies the card invariants.
    pub fn new_card(title: String, parent_id: i64) -> (c: Card)
        ensures
            c@ == CardView::init(title@, parent_id),
            c@.wf(),
    {
        let parent = parent_from_ref(parent_id);
        let mut buckets: Vec<String> = Vec::new();
        buckets.push(String::from_str("Default"));
        let c = Card {
            id: 0,
            title,
            parent_id: parent,
            children: Vec::new(),
            bucket: None,
            buckets,
        };
        proof {
            assert(c@.buckets =~= seq!["Default"@]);
            assert(c@ =~~= CardView::init(title@, parent_id));
        }
        c
    }

    /// Returns the current title.
    pub fn get_title(&self) -> (r: String)
        ensures
            r@ == self@.title,
    {
        self.title.clone()
    }

    /// Replaces the title unconditionally; nothing else changes.
    pub fn set_title(&mut self, new_title: String)
        ensures
            final(self)@ == old(self)@.with_title(new_title@),
    {
        self.title = new_title;
        proof {
            assert(self@ =~~= old(self)@.with_title(self.title@));
        }
    }

    /// Returns the card's identity.
    pub fn get_id(&self) -> (r: u32)
        ensures
            r == self@.id,
    {
        self.id
    }

    /// Returns the parent identity, or the sentinel -1 if the card has no
    /// parent.
    pub fn get_parent_id(&self) -> (r: i64)
        ensures
            r == self@.parent_sentinel(),
    {
        match self.parent_id {
            Some(p) => p,
            None => -1,
        }
    }

    /// Replaces the parent link, normalizing as construction does: a negative
    /// reference means "no parent". Nothing else changes.
    pub fn set_parent_id(&mut self, new_parent_id: i64)
        ensures
            final(self)@ == old(self)@.with_parent(new_parent_id),
    {
        self.parent_id = parent_from_ref(new_parent_id);
        proof {
            assert(self@ =~~= old(self)@.with_parent(new_parent_id));
        }
    }

    /// Assigns the card to the named bucket, or clears the assignment if the
    /// name is empty. The name is not checked against `buckets`.
    pub fn set_bucket(&mut self, bucket_name: String)
        ensures
            final(self)@ == old(self)@.with_bucket(bucket_name@),
    {
        if bucket_name.as_str().is_empty() {
            self.bucket = None;
        } else {
            self.bucket = Some(bucket_name);
        }
        proof {
            assert(self@ =~~= old(self)@.with_bucket(bucket_name@));
        }
    }

    /// Appends a child identity. A negative reference, or an identity already
    /// present, is rejected and the card is left unchanged.
    pub fn add_child(&mut self, new_child_id: i64)
        ensures
            final(self)@ == old(self)@.child_added(new_child_id),
    {
        if new_child_id < 0 {
            return;
        }
        let id = new_child_id as u32;
        if self.contains_child(id) {
            return;
        }
        self.children.push(id);
        proof {
            assert(self@ =~~= old(self)@.child_added(new_child_id));
        }
    }

    /// Removes the first occurrence of the given child identity, keeping the
    /// relative order of the rest. A negative reference, or an identity not
    /// present, is rejected and the card is left unchanged.
    pub fn remove_child(&mut self, child_id: i64)
        ensures
            final(self)@ == old(self)@.child_removed(child_id),
    {
        if child_id < 0 {
            return;
        }
        let id = child_id as u32;
        let ghost cs = self.children@;
        let mut i: usize = 0;
        while i < self.children.len()
            invariant
                *self == *old(self),
                cs == self.children@,
                child_id >= 0,
                id == child_id as u32,
                i <= cs.len(),
                forall|j: int| 0 <= j < i ==> cs[j] != id,
            decreases cs.len() - i,
        {
            if self.children[i] == id {
                proof {
                    cs.index_of_first_ensures(id);
                    assert(cs.contains(id));
                    assert(cs.index_of_first(id) == Some(i as int));
                }
                self.children.remove(i);
                proof {
                    assert(self@ =~~= old(self)@.child_removed(child_id));
                }
                return;
            }
            i += 1;
        }
        proof {
            cs.index_of_first_ensures(id);
            if cs.contains(id) {
                let w = choose|w: int| 0 <= w < cs.len() && cs[w] == id;
                assert(cs[w] != id);
            }
        }
    }

    /// Appends a bucket name. A name already present is rejected and the card
    /// is left unchanged.
    pub fn add_bucket(&mut self, name: String)
        ensures
            final(self)@ == old(self)@.bucket_added(name@),
    {
        if self.contains_bucket(&name) {
            return;
        }
        self.buckets.push(name);
        proof {
            assert(self@.buckets =~= old(self)@.buckets.push(self.buckets@.last()@));
            assert(self@ =~~= old(self)@.bucket_added(self.buckets@.last()@));
        }
    }

    /// Returns a copy of the children list, in insertion order.
    pub fn get_children(&self) -> (r: Vec<u32>)
        ensures
            r@ == self@.children,
    {
        let mut r: Vec<u32> = Vec::new();
        let mut i: usize = 0;
        while i < self.children.len()
            invariant
                i <= self.children@.len(),
                r@ == self.children@.subrange(0, i as int),
            decreases self.children@.len() - i,
        {
            r.push(self.children[i]);
            proof {
                assert(r@ =~= self.children@.subrange(0, i + 1));
            }
            i += 1;
        }
        proof {
            assert(r@ =~= self.children@);
        }
        r
    }

    /// Returns a copy of the bucket names, in insertion order.
    pub fn get_buckets(&self) -> (r: Vec<String>)
        ensures
            r.deep_view() == self@.buckets,
    {
        let mut r: Vec<String> = Vec::new();
        let mut i: usize = 0;
        while i < self.buckets.len()
            invariant
                i <= self.buckets@.len(),
                r@.len() == i,
                r.deep_view() == self@.buckets.subrange(0, i as int),
            decreases self.buckets@.len() - i,
        {
            let b = self.buckets[i].clone();
            let ghost r0 = r@;
            r.push(b);
            proof {
                assert forall|j: int| 0 <= j < i + 1 implies r.deep_view()[j]
                    == self@.buckets.subrange(0, i as int + 1)[j] by {
                    if j < i as int {
                        assert(r@[j] == r0[j]);
                        assert(r0[j]@ == self@.buckets.subrange(0, i as int)[j]);
                    }
                }
                assert(r.deep_view() =~= self@.buckets.subrange(0, i + 1));
            }
            i += 1;
        }
        proof {
            assert(r.deep_view() =~= self@.buckets);
        }
        r
    }

    /// Returns the current bucket assignment, or the empty string if the card
    /// is unassigned (the two are equivalent under `set_bucket`'s
    /// normalization).
    pub fn get_bucket(&self) -> (r: String)
        ensures
            r@ == self@.bucket_or_empty(),
    {
        match &self.bucket {
            Some(b) => b.clone(),
            None => String::new(),
        }
    }

    /// Whether the given identity is among the card's children.
    fn contains_child(&self, id: u32) -> (b: bool)
        ensures
            b == self@.children.contains(id),
    {
        let mut i: usize = 0;
        while i < self.children.len()
            invariant
                i <= self.children@.len(),
                forall|j: int| 0 <= j < i ==> self.children@[j] != id,
            decreases self.children@.len() - i,
        {
            if self.children[i] == id {
                return true;
            }
            i += 1;
        }
        false
    }

    /// Whether the given name is among the card's bucket names.
    fn contains_bucket(&self, name: &String) -> (b: bool)
        ensures
            b == self@.buckets.contains(name@),
    {
        let mut i: usize = 0;
        while i < self.buckets.len()
            invariant
                i <= self.buckets@.len(),
                forall|j: int| 0 <= j < i ==> self@.buckets[j] != name@,
            decreases self.buckets@.len() - i,
        {
            if self.buckets[i].eq(name) {
                proof {
                    assert(self@.buckets[i as int] == name@);
                }
                return true;
            }
            i += 1;
        }
        false
    }
}

/// Converts a signed parent reference to the stored optional identity.
fn parent_from_ref(raw: i64) -> (p: Option<i64>)
    ensures
        p == normalize_parent(raw),
{
    if raw >= 0 {
        Some((raw as u32) as i64)
    } else {
        None
    }
}

} // verus!
