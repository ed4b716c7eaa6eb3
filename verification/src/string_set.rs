use vstd::prelude::*;

verus! {

/// Removal at position `i` in the manner of `Vec::swap_remove`: the last
/// element takes the place of the removed one.
pub open spec fn swap_remove_at<A>(s: Seq<A>, i: int) -> Seq<A> {
    s.update(i, s.last()).drop_last()
}

/// Adding `x` to an insertion-ordered set: appended when absent.
pub open spec fn seq_insert_new<A>(s: Seq<A>, x: A) -> Seq<A> {
    if s.contains(x) {
        s
    } else {
        s.push(x)
    }
}

/// Removing `x` from an insertion-ordered set whose removal swaps the last
/// element into the freed place.
pub open spec fn seq_remove_swap<A>(s: Seq<A>, x: A) -> Seq<A> {
    if s.contains(x) {
        swap_remove_at(s, s.index_of(x))
    } else {
        s
    }
}

/// In a sequence without duplicates, `index_of` finds the one position
/// holding the element.
pub proof fn lemma_index_of_unique<A>(s: Seq<A>, i: int)
    requires
        s.no_duplicates(),
        0 <= i < s.len(),
    ensures
        s.index_of(s[i]) == i,
{
    let j = s.index_of(s[i]);
    assert(s.contains(s[i]));
    assert(0 <= j < s.len() && s[j] == s[i]);
}

/// A swap removal keeps a sequence free of duplicates, and the elements that
/// remain are exactly those other than the removed one.
pub proof fn lemma_swap_remove_at<A>(s: Seq<A>, i: int)
    requires
        s.no_duplicates(),
        0 <= i < s.len(),
    ensures
        swap_remove_at(s, i).no_duplicates(),
        swap_remove_at(s, i).len() == s.len() - 1,
        forall|y: A| #[trigger]
            swap_remove_at(s, i).contains(y) <==> (s.contains(y) && y != s[i]),
{
    let r = swap_remove_at(s, i);
    let n = s.len();
    assert forall|a: int, b: int| 0 <= a < r.len() && 0 <= b < r.len() && a != b implies r[a]
        != r[b] by {
        let sa = if a == i {
            n - 1
        } else {
            a
        };
        let sb = if b == i {
            n - 1
        } else {
            b
        };
        assert(r[a] == s[sa]);
        assert(r[b] == s[sb]);
    }
    assert forall|y: A| #[trigger] r.contains(y) <==> (s.contains(y) && y != s[i]) by {
        if r.contains(y) {
            let a = choose|a: int| 0 <= a < r.len() && r[a] == y;
            let sa = if a == i {
                n - 1
            } else {
                a
            };
            assert(r[a] == s[sa]);
            assert(sa != i);
        }
        if s.contains(y) && y != s[i] {
            let k = choose|k: int| 0 <= k < s.len() && s[k] == y;
            if k == n - 1 {
                assert(r[i] == y);
            } else {
                assert(r[k] == y);
            }
        }
    }
}

/// The set operations keep a sequence free of duplicates and give the
/// expected membership.
pub proof fn lemma_set_ops<A>(s: Seq<A>, x: A)
    requires
        s.no_duplicates(),
    ensures
        seq_insert_new(s, x).no_duplicates(),
        seq_remove_swap(s, x).no_duplicates(),
        forall|y: A| #[trigger]
            seq_insert_new(s, x).contains(y) <==> (s.contains(y) || y == x),
        forall|y: A| #[trigger]
            seq_remove_swap(s, x).contains(y) <==> (s.contains(y) && y != x),
        seq_insert_new(s, x).len() == if s.contains(x) {
            s.len()
        } else {
            s.len() + 1
        },
        seq_remove_swap(s, x).len() == if s.contains(x) {
            s.len() - 1
        } else {
            s.len() as int
        },
{
    if s.contains(x) {
        let i = s.index_of(x);
        lemma_swap_remove_at(s, i);
    } else {
        let t = s.push(x);
        assert forall|y: A| #[trigger] t.contains(y) <==> (s.contains(y) || y == x) by {
            if t.contains(y) {
                let a = choose|a: int| 0 <= a < t.len() && t[a] == y;
                if a < s.len() {
                    assert(s[a] == y);
                }
            }
            if s.contains(y) {
                let a = choose|a: int| 0 <= a < s.len() && s[a] == y;
                assert(t[a] == y);
            }
            if y == x {
                assert(t[s.len() as int] == y);
            }
        }
    }
}

/// A set of strings that remembers insertion order; a removal moves the last
/// element into the freed place.
pub struct StringSet {
    elems: Vec<String>,
}

impl View for StringSet {
    type V = Seq<Seq<char>>;

    closed spec fn view(&self) -> Seq<Seq<char>> {
        self.elems@.map_values(|s: String| s@)
    }
}

impl StringSet {
    /// No element occurs twice.
    pub open spec fn wf(&self) -> bool {
        self@.no_duplicates()
    }

    pub fn new() -> (r: StringSet)
        ensures
            r@ == Seq::<Seq<char>>::empty(),
            r.wf(),
    {
        let r = StringSet { elems: Vec::new() };
        assert(r@ =~= Seq::<Seq<char>>::empty());
        r
    }

    pub fn len(&self) -> (r: usize)
        ensures
            r == self@.len(),
    {
        self.elems.len()
    }

    pub fn is_empty(&self) -> (r: bool)
        ensures
            r == (self@.len() == 0),
    {
        self.elems.len() == 0
    }

    /// The element at position `i`.
    pub fn get(&self, i: usize) -> (r: &String)
        requires
            i < self@.len(),
        ensures
            r@ == self@[i as int],
    {
        &self.elems[i]
    }

    /// Position of `x`, if present.
    fn position(&self, x: &String) -> (r: Option<usize>)
        ensures
            match r {
                Some(i) => i < self@.len() && self@[i as int] == x@ && (forall|j: int|
                    0 <= j < i ==> self@[j] != x@),
                None => !self@.contains(x@),
            },
    {
        let n = self.elems.len();
        let mut i: usize = 0;
        while i < n
            invariant
                n == self.elems@.len(),
                i <= n,
                forall|j: int| 0 <= j < i ==> self@[j] != x@,
            decreases n - i,
        {
            if self.elems[i] == *x {
                return Some(i);
            }
            i = i + 1;
        }
        assert forall|j: int| 0 <= j < self@.len() implies self@[j] != x@ by {}
        None
    }

    pub fn contains(&self, x: &String) -> (r: bool)
        ensures
            r == self@.contains(x@),
    {
        match self.position(x) {
            Some(i) => {
                assert(self@[i as int] == x@);
                true
            },
            None => false,
        }
    }

    /// Adds `x` at the end when it is absent; tells whether it was added.
    pub fn insert(&mut self, x: String) -> (r: bool)
        requires
            old(self).wf(),
        ensures
            final(self).wf(),
            final(self)@ == seq_insert_new(old(self)@, x@),
            r == !old(self)@.contains(x@),
            forall|y: Seq<char>| #[trigger] final(self)@.contains(y) <==> (old(self)@.contains(y) || y == x@),
    {
        proof {
            lemma_set_ops(self@, x@);
        }
        if self.contains(&x) {
            false
        } else {
            let ghost before = self@;
            self.elems.push(x);
            assert(self@ =~= before.push(x@));
            true
        }
    }

    /// Removes `x` by swapping the last element into its place; tells whether
    /// it was present.
    pub fn remove(&mut self, x: &String) -> (r: bool)
        requires
            old(self).wf(),
        ensures
            final(self).wf(),
            final(self)@ == seq_remove_swap(old(self)@, x@),
            r == old(self)@.contains(x@),
            forall|y: Seq<char>| #[trigger] final(self)@.contains(y) <==> (old(self)@.contains(y) && y != x@),
    {
        proof {
            lemma_set_ops(self@, x@);
        }
        match self.position(x) {
            Some(i) => {
                let ghost before = self@;
                proof {
                    lemma_index_of_unique(before, i as int);
                }
                self.elems.swap_remove(i);
                assert(self@ =~= swap_remove_at(before, i as int));
                true
            },
            None => false,
        }
    }

    /// The elements, in order.
    pub fn to_vec(&self) -> (r: Vec<String>)
        ensures
            r@.map_values(|s: String| s@) == self@,
    {
        let mut out: Vec<String> = Vec::new();
        let n = self.elems.len();
        let mut i: usize = 0;
        while i < n
            invariant
                n == self.elems@.len(),
                i <= n,
                out@.len() == i,
                forall|j: int| 0 <= j < i ==> out@[j]@ == self@[j],
            decreases n - i,
        {
            out.push(self.elems[i].clone());
            i = i + 1;
        }
        assert(out@.map_values(|s: String| s@) =~= self@);
        out
    }

    /// The set holding `v` in its order, or `None` when an element occurs
    /// twice.
    pub fn from_vec(v: Vec<String>) -> (r: Option<StringSet>)
        ensures
            match r {
                Some(set) => set.wf() && set@ == v@.map_values(|x: String| x@),
                None => !v@.map_values(|x: String| x@).no_duplicates(),
            },
    {
        let ghost vs = v@.map_values(|x: String| x@);
        let mut set = StringSet::new();
        let n = v.len();
        let mut i: usize = 0;
        while i < n
            invariant
                n == v@.len(),
                vs == v@.map_values(|x: String| x@),
                i <= n,
                set.wf(),
                set@ == vs.take(i as int),
            decreases n - i,
        {
            if set.contains(&v[i]) {
                proof {
                    let j = choose|j: int| 0 <= j < set@.len() && set@[j] == v@[i as int]@;
                    assert(vs[j] == vs[i as int]);
                }
                return None;
            }
            let ghost before = set@;
            set.insert(v[i].clone());
            assert(set@ =~= vs.take(i as int + 1));
            i = i + 1;
        }
        assert(vs.take(n as int) =~= vs);
        Some(set)
    }

    /// A copy with the same elements in the same order.
    pub fn duplicate(&self) -> (r: StringSet)
        ensures
            r@ == self@,
    {
        StringSet { elems: self.to_vec() }
    }
}

} // verus!
