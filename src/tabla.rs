use vstd::prelude::*;

use crate::error::{AppError, Result};

verus! {

/// A row of a table: it carries its identifier and can be copied exactly.
pub trait Fila: Sized {
    /// The row's identifier.
    spec fn key(&self) -> u128;

    fn row_id(&self) -> (r: u128)
        ensures
            r == self.key(),
    ;

    fn duplicate(&self) -> (r: Self)
        ensures
            r == *self,
    ;
}

/// Some row of `s` has identifier `id`.
pub open spec fn has_key<T: Fila>(s: Seq<T>, id: u128) -> bool {
    exists|i: int| 0 <= i < s.len() && #[trigger] s[i].key() == id
}

/// The first row of `s` with identifier `id`, if there is one.
pub open spec fn lookup<T: Fila>(s: Seq<T>, id: u128) -> Option<T>
    decreases s.len(),
{
    if s.len() == 0 {
        None
    } else if s[0].key() == id {
        Some(s[0])
    } else {
        lookup(s.subrange(1, s.len() as int), id)
    }
}

/// The rows of `s` whose identifier is not `id`, in their order.
pub open spec fn without<T: Fila>(s: Seq<T>, id: u128) -> Seq<T> {
    s.filter(|x: T| x.key() != id)
}

/// `lookup` finds a row exactly when one has the identifier, and what it finds
/// is a row of `s` with that identifier.
pub proof fn lemma_lookup<T: Fila>(s: Seq<T>, id: u128)
    ensures
        lookup(s, id) is None <==> !has_key(s, id),
        lookup(s, id) matches Some(x) ==> x.key() == id && s.contains(x),
    decreases s.len(),
{
    if s.len() > 0 {
        let t = s.subrange(1, s.len() as int);
        lemma_lookup(t, id);
        if s[0].key() != id {
            if has_key(s, id) {
                let i = choose|i: int| 0 <= i < s.len() && #[trigger] s[i].key() == id;
                assert(t[i - 1].key() == id);
            }
            if has_key(t, id) {
                let i = choose|i: int| 0 <= i < t.len() && #[trigger] t[i].key() == id;
                assert(s[i + 1].key() == id);
            }
            if let Some(x) = lookup(t, id) {
                let k = choose|k: int| 0 <= k < t.len() && t[k] == x;
                assert(s[k + 1] == x);
            }
        } else {
            assert(s[0].key() == id);
            assert(s.contains(s[0]));
        }
    }
}

/// The first row of `s` with identifier `id` is the one at `i`.
pub proof fn lemma_lookup_first<T: Fila>(s: Seq<T>, id: u128, i: int)
    requires
        0 <= i < s.len(),
        s[i].key() == id,
        forall|j: int| 0 <= j < i ==> s[j].key() != id,
    ensures
        lookup(s, id) == Some(s[i]),
    decreases i,
{
    if i > 0 {
        let t = s.subrange(1, s.len() as int);
        lemma_lookup_first(t, id, i - 1);
    }
}

/// Filtering a prefix one element longer keeps that element or not.
pub proof fn lemma_filter_step<A>(s: Seq<A>, i: int, p: spec_fn(A) -> bool)
    requires
        0 <= i < s.len(),
    ensures
        s.take(i + 1).filter(p) == (if p(s[i]) {
            s.take(i).filter(p).push(s[i])
        } else {
            s.take(i).filter(p)
        }),
{
    reveal(Seq::filter);
    assert(s.take(i + 1).drop_last() =~= s.take(i));
    assert(s.take(i + 1).last() == s[i]);
}

/// Filtering an empty prefix gives nothing.
pub proof fn lemma_filter_none<A>(s: Seq<A>, p: spec_fn(A) -> bool)
    ensures
        s.take(0).filter(p) == Seq::<A>::empty(),
{
    reveal(Seq::filter);
    assert(s.take(0) =~= Seq::<A>::empty());
}

/// The rows left by `without` carry another identifier.
pub proof fn lemma_without<T: Fila>(s: Seq<T>, id: u128)
    ensures
        !has_key(without(s, id), id),
        forall|x: T| s.contains(x) && x.key() != id ==> without(s, id).contains(x),
{
    broadcast use vstd::seq_lib::group_filter_ensures;

    let p = |x: T| x.key() != id;
    assert forall|x: T| s.contains(x) && x.key() != id implies without(s, id).contains(x) by {
        let i = choose|i: int| 0 <= i < s.len() && s[i] == x;
        s.lemma_filter_contains(p, i);
    }
}

/// No two rows of `s` share an identifier.
pub open spec fn ids_unique<T: Fila>(s: Seq<T>) -> bool {
    forall|i: int, j: int| 0 <= i < j < s.len() ==> #[trigger] s[i].key() != #[trigger] s[j].key()
}

/// A table of rows in insertion order. `new` starts it with unique
/// identifiers and every change keeps them unique (`ids_unique`).
pub struct Tabla<T> {
    rows: Vec<T>,
}

impl<T> View for Tabla<T> {
    type V = Seq<T>;

    closed spec fn view(&self) -> Seq<T> {
        self.rows@
    }
}

impl<T: Fila> Tabla<T> {
    /// An empty table.
    pub fn new() -> (r: Tabla<T>)
        ensures
            r@ == Seq::<T>::empty(),
            ids_unique(r@),
    {
        Tabla { rows: Vec::new() }
    }

    /// The rows, in order.
    pub fn rows(&self) -> (r: &Vec<T>)
        ensures
            r@ == self@,
    {
        &self.rows
    }

    /// The position of the first row with identifier `id`.
    pub fn position(&self, id: u128) -> (r: Option<usize>)
        ensures
            r is None <==> !has_key(self@, id),
            r matches Some(i) ==> i < self@.len() && lookup(self@, id) == Some(self@[i as int]),
    {
        let mut i: usize = 0;
        while i < self.rows.len()
            invariant
                i <= self.rows@.len(),
                forall|j: int| 0 <= j < i ==> self.rows@[j].key() != id,
            decreases self.rows@.len() - i,
        {
            if self.rows[i].row_id() == id {
                proof {
                    lemma_lookup_first(self@, id, i as int);
                }
                return Some(i);
            }
            i = i + 1;
        }
        None
    }

    /// A copy of the first row with identifier `id`.
    pub fn get(&self, id: u128) -> (r: Option<T>)
        ensures
            r == lookup(self@, id),
    {
        proof {
            lemma_lookup(self@, id);
        }
        match self.position(id) {
            Some(i) => Some(self.rows[i].duplicate()),
            None => None,
        }
    }

    /// Appends `row`, unless its identifier is already in use.
    pub fn insert(&mut self, row: T) -> (r: Result<()>)
        requires
            ids_unique(old(self)@),
        ensures
            has_key(old(self)@, row.key()) ==> (r matches Err(e) && e is Storage) && final(self)@
                == old(self)@,
            !has_key(old(self)@, row.key()) ==> r is Ok && final(self)@ == old(self)@.push(row),
            ids_unique(final(self)@),
    {
        let id = row.row_id();
        if self.position(id).is_some() {
            return Err(AppError::Storage(String::from_str("identifier already in use")));
        }
        let ghost s = self.rows@;
        assert forall|j: int| 0 <= j < s.len() implies #[trigger] s[j].key() != row.key() by {
            if s[j].key() == row.key() {
                assert(has_key(s, row.key()));
            }
        }
        self.rows.push(row);
        assert(ids_unique(self.rows@)) by {
            assert forall|i: int, j: int| 0 <= i < j < self.rows@.len() implies #[trigger] self.rows@[i].key()
                != #[trigger] self.rows@[j].key() by {
                if j == s.len() {
                    assert(self.rows@[i] == s[i]);
                } else {
                    assert(self.rows@[i] == s[i] && self.rows@[j] == s[j]);
                }
            }
        }
        Ok(())
    }

    /// Puts `row` in the place of the row at `i`.
    pub fn replace(&mut self, i: usize, row: T)
        requires
            ids_unique(old(self)@),
            i < old(self)@.len(),
            row.key() == old(self)@[i as int].key(),
        ensures
            final(self)@ == old(self)@.update(i as int, row),
            ids_unique(final(self)@),
    {
        let ghost s = self.rows@;
        self.rows.set(i, row);
        assert(ids_unique(self.rows@)) by {
            assert forall|a: int, b: int| 0 <= a < b < self.rows@.len() implies #[trigger] self.rows@[a].key()
                != #[trigger] self.rows@[b].key() by {
                assert(self.rows@[a].key() == s[a].key());
                assert(self.rows@[b].key() == s[b].key());
            }
        }
    }

    /// Removes every row with identifier `id`; tells whether there was one.
    pub fn delete(&mut self, id: u128) -> (r: bool)
        requires
            ids_unique(old(self)@),
        ensures
            r == has_key(old(self)@, id),
            final(self)@ == without(old(self)@, id),
            ids_unique(final(self)@),
    {
        let ghost mut src: Seq<int> = Seq::empty();
        let mut kept: Vec<T> = Vec::new();
        let mut found = false;
        let mut i: usize = 0;
        while i < self.rows.len()
            invariant
                i <= self.rows@.len(),
                kept@ == without(self.rows@.take(i as int), id),
                found == has_key(self.rows@.take(i as int), id),
                ids_unique(self.rows@),
                src.len() == kept@.len(),
                forall|p: int| 0 <= p < src.len() ==> 0 <= #[trigger] src[p] < i && kept@[p] == self.rows@[src[p]],
                forall|p: int, q: int| 0 <= p < q < src.len() ==> #[trigger] src[p] < #[trigger] src[q],
            decreases self.rows@.len() - i,
        {
            let ghost s = self.rows@;
            proof {
                assert(s.take(i + 1).drop_last() =~= s.take(i as int));
                assert(s.take(i + 1).last() == s[i as int]);
                reveal(Seq::filter);
            }
            if self.rows[i].row_id() == id {
                found = true;
                assert(s.take(i + 1)[i as int].key() == id);
            } else {
                kept.push(self.rows[i].duplicate());
                proof {
                    src = src.push(i as int);
                }
            }
            proof {
                if !found {
                    assert forall|j: int| 0 <= j < i + 1 implies #[trigger] s.take(i + 1)[j].key()
                        != id by {
                        if j < i {
                            assert(s.take(i + 1)[j] == s.take(i as int)[j]);
                        }
                    }
                } else if has_key(s.take(i as int), id) {
                    let j = choose|j: int| 0 <= j < i && #[trigger] s.take(i as int)[j].key() == id;
                    assert(s.take(i + 1)[j] == s.take(i as int)[j]);
                }
            }
            i = i + 1;
        }
        assert(self.rows@.take(i as int) =~= self.rows@);
        let ghost s = self.rows@;
        assert(ids_unique(kept@)) by {
            assert forall|a: int, b: int| 0 <= a < b < kept@.len() implies #[trigger] kept@[a].key()
                != #[trigger] kept@[b].key() by {
                assert(src[a] < src[b]);
                assert(s[src[a]].key() != s[src[b]].key());
            }
        }
        self.rows = kept;
        found
    }
}

/// A row appended under an identifier not yet in use is what a lookup of
/// that identifier finds.
pub proof fn lemma_insert_then_lookup<T: Fila>(s: Seq<T>, x: T)
    requires
        !has_key(s, x.key()),
    ensures
        lookup(s.push(x), x.key()) == Some(x),
{
    let t = s.push(x);
    assert forall|j: int| 0 <= j < s.len() implies t[j].key() != x.key() by {
        assert(t[j] == s[j]);
    }
    lemma_lookup_first(t, x.key(), s.len() as int);
}

/// After the rows with an identifier are deleted, a lookup of it finds
/// nothing; deleting an identifier that no row has leaves the table as it was.
pub proof fn lemma_delete_then_lookup<T: Fila>(s: Seq<T>, id: u128)
    ensures
        lookup(without(s, id), id) is None,
        !has_key(s, id) ==> without(s, id) == s,
{
    lemma_without(s, id);
    lemma_lookup(without(s, id), id);
    if !has_key(s, id) {
        lemma_without_nothing(s, id);
    }
}

proof fn lemma_without_nothing<T: Fila>(s: Seq<T>, id: u128)
    requires
        !has_key(s, id),
    ensures
        without(s, id) == s,
    decreases s.len(),
{
    reveal(Seq::filter);
    if s.len() > 0 {
        let d = s.drop_last();
        assert(!has_key(d, id)) by {
            if has_key(d, id) {
                let i = choose|i: int| 0 <= i < d.len() && #[trigger] d[i].key() == id;
                assert(s[i].key() == id);
            }
        }
        lemma_without_nothing(d, id);
        assert(s.last().key() != id) by {
            assert(s[s.len() - 1].key() != id);
        }
        assert(d.push(s.last()) =~= s);
    }
}

} // verus!
