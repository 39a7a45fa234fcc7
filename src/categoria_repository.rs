use vstd::prelude::*;

use crate::categoria::{valid_create_categoria, Categoria, CreateCategoria, TipoCategoria};
use crate::error::{AppError, Result};
use crate::ident::new_id;
use crate::orden::{insert_ordered, ordered, strict_order};
use crate::tabla::{ids_unique, has_key, lemma_filter_none, lemma_filter_step, lookup, without, Tabla};
use crate::text::{lemma_text_lt_irreflexive, lemma_text_lt_transitive, text_before, text_lt};

verus! {

/// The category that `d` describes under identifier `id`.
pub open spec fn categoria_from(id: u128, d: CreateCategoria) -> Categoria {
    Categoria { id, nombre: d.nombre, tipo: d.tipo, color: d.color }
}

/// `a`'s name comes strictly before `b`'s.
pub open spec fn name_lt(a: Categoria, b: Categoria) -> bool {
    text_lt(a.nombre@, b.nombre@)
}

/// The categories of `s` of kind `t`, or all of them for `None`, in order.
pub open spec fn of_tipo(s: Seq<Categoria>, t: Option<TipoCategoria>) -> Seq<Categoria> {
    s.filter(|c: Categoria| t is None || t == Some(c.tipo))
}

/// The table after every category with identifier `id` took the fields of `d`.
pub open spec fn updated_categorias(s: Seq<Categoria>, id: u128, d: CreateCategoria) -> Seq<
    Categoria,
> {
    s.map_values(|c: Categoria| if c.id == id { categoria_from(id, d) } else { c })
}

fn name_before(a: &Categoria, b: &Categoria) -> (r: bool)
    ensures
        r == name_lt(*a, *b),
{
    text_before(a.nombre.as_str(), b.nombre.as_str())
}

proof fn lemma_name_order()
    ensures
        strict_order(|a: Categoria, b: Categoria| name_lt(a, b)),
{
    assert forall|a: Categoria| !name_lt(a, a) by {
        lemma_text_lt_irreflexive(a.nombre@);
    }
    assert forall|a: Categoria, b: Categoria, c: Categoria|
        name_lt(a, b) && name_lt(b, c) implies name_lt(a, c) by {
        lemma_text_lt_transitive(a.nombre@, b.nombre@, c.nombre@);
    }
}

/// The categories table.
pub struct CategoriaRepository {
    tabla: Tabla<Categoria>,
}

impl View for CategoriaRepository {
    type V = Seq<Categoria>;

    closed spec fn view(&self) -> Seq<Categoria> {
        self.tabla@
    }
}

impl CategoriaRepository {
    /// An empty table.
    pub fn new() -> (r: CategoriaRepository)
        ensures
            r@ == Seq::<Categoria>::empty(),
            ids_unique(r@),
    {
        CategoriaRepository { tabla: Tabla::new() }
    }

    /// Stores a category as it is, unless its identifier is in use.
    pub fn insert(&mut self, c: Categoria) -> (r: Result<()>)
        requires
            ids_unique(old(self)@),
        ensures
            ids_unique(final(self)@),
            has_key(old(self)@, c.id) ==> (r matches Err(e) && e is Storage) && final(self)@
                == old(self)@,
            !has_key(old(self)@, c.id) ==> r is Ok && final(self)@ == old(self)@.push(c),
    {
        self.tabla.insert(c)
    }

    /// Creates the category that `data` describes under identifier `id`.
    pub fn create_with_id(&mut self, id: u128, data: CreateCategoria) -> (r: Result<Categoria>)
        requires
            ids_unique(old(self)@),
        ensures
            ids_unique(final(self)@),
            !valid_create_categoria(data) ==> (r matches Err(e) && e is Validation) && final(self)@ == old(self)@,
            valid_create_categoria(data) && has_key(old(self)@, id) ==> (r matches Err(e)
                && e is Storage) && final(self)@ == old(self)@,
            valid_create_categoria(data) && !has_key(old(self)@, id) ==> r == Ok::<Categoria, AppError>(categoria_from(id, data)) && final(self)@ == old(self)@.push(categoria_from(id, data)),
    {
        data.validate()?;
        let c = Categoria::new(id, data);
        let stored = c.clone();
        self.tabla.insert(stored)?;
        Ok(c)
    }

    /// Creates the category that `data` describes under a fresh random
    /// identifier.
    pub fn create(&mut self, data: CreateCategoria) -> (r: Result<Categoria>)
        requires
            ids_unique(old(self)@),
        ensures
            ids_unique(final(self)@),
            valid_create_categoria(data) && old(self)@.len() == 0 ==> r is Ok,
            !valid_create_categoria(data) ==> (r matches Err(e) && e is Validation) && final(self)@ == old(self)@,
            r matches Ok(c) ==> c == categoria_from(c.id, data) && !has_key(old(self)@, c.id)
                && final(self)@ == old(self)@.push(c),
            valid_create_categoria(data) && r is Err ==> (r matches Err(e) && e is Storage)
                && final(self)@ == old(self)@,
    {
        let id = new_id();
        self.create_with_id(id, data)
    }

    /// The categories, in the order they were stored.
    pub fn rows(&self) -> (r: &Vec<Categoria>)
        ensures
            r@ == self@,
    {
        self.tabla.rows()
    }

    /// The category with identifier `id`.
    pub fn get_by_id(&self, id: u128) -> (r: Option<Categoria>)
        ensures
            r == lookup(self@, id),
    {
        self.tabla.get(id)
    }

    fn sorted_by_name(&self, tipo: Option<TipoCategoria>) -> (r: Vec<Categoria>)
        ensures
            r@.to_multiset() == of_tipo(self@, tipo).to_multiset(),
            ordered(r@, |a: Categoria, b: Categoria| name_lt(a, b)),
    {
        let rows = self.tabla.rows();
        let ghost lt = |a: Categoria, b: Categoria| name_lt(a, b);
        let ghost p = |c: Categoria| tipo is None || tipo == Some(c.tipo);
        proof {
            lemma_name_order();
            lemma_filter_none(rows@, p);
            assert forall|a: &Categoria, b: &Categoria, r: bool|
                name_before.ensures((a, b), r) implies r == lt(*a, *b) by {}
        }
        let mut out: Vec<Categoria> = Vec::new();
        let mut i: usize = 0;
        while i < rows.len()
            invariant
                rows@ == self@,
                i <= rows@.len(),
                out@.to_multiset() == rows@.take(i as int).filter(p).to_multiset(),
                ordered(out@, lt),
                strict_order(lt),
                lt == (|a: Categoria, b: Categoria| name_lt(a, b)),
                p == (|c: Categoria| tipo is None || tipo == Some(c.tipo)),
                forall|a: &Categoria, b: &Categoria, r: bool|
                    name_before.ensures((a, b), r) ==> r == lt(*a, *b),
            decreases rows@.len() - i,
        {
            let ghost s = rows@;
            proof {
                lemma_filter_step(s, i as int, p);
            }
            let keep = match tipo {
                None => true,
                Some(t) => t == rows[i].tipo,
            };
            if keep {
                let c = rows[i].clone();
                proof {
                    vstd::seq_lib::to_multiset_build(s.take(i as int).filter(p), c);
                }
                insert_ordered(&mut out, c, &name_before, Ghost(lt));
            }
            i = i + 1;
        }
        assert(rows@.take(i as int) =~= rows@);
        out
    }

    /// Every category, by name ascending.
    pub fn get_all(&self) -> (r: Vec<Categoria>)
        ensures
            r@.to_multiset() == self@.to_multiset(),
            ordered(r@, |a: Categoria, b: Categoria| name_lt(a, b)),
    {
        let r = self.sorted_by_name(None);
        proof {
            let p = |c: Categoria| None::<TipoCategoria> is None || None::<TipoCategoria> == Some(
                c.tipo,
            );
            assert(self@.filter(p) =~= self@) by {
                lemma_filter_all(self@, p);
            }
        }
        r
    }

    /// The categories of kind `tipo`, by name ascending.
    pub fn get_by_tipo(&self, tipo: TipoCategoria) -> (r: Vec<Categoria>)
        ensures
            r@.to_multiset() == of_tipo(self@, Some(tipo)).to_multiset(),
            ordered(r@, |a: Categoria, b: Categoria| name_lt(a, b)),
    {
        self.sorted_by_name(Some(tipo))
    }

    /// Gives every category with identifier `id` the fields of `data`, after
    /// checking them; `None` where no category has that identifier.
    pub fn update(&mut self, id: u128, data: CreateCategoria) -> (r: Result<Option<Categoria>>)
        requires
            ids_unique(old(self)@),
        ensures
            ids_unique(final(self)@),
            !valid_create_categoria(data) ==> (r matches Err(e) && e is Validation) && final(self)@ == old(self)@,
            valid_create_categoria(data) && !has_key(old(self)@, id) ==> r == Ok::<Option<Categoria>, AppError>(None) && final(self)@ == old(self)@,
            valid_create_categoria(data) && has_key(old(self)@, id) ==> r == Ok::<Option<Categoria>, AppError>(Some(categoria_from(id, data))) && final(self)@ == updated_categorias(
                old(self)@,
                id,
                data,
            ),
    {
        data.validate()?;
        if self.tabla.position(id).is_none() {
            return Ok(None);
        }
        let c = Categoria::new(id, data);
        let ghost s0 = self.tabla@;
        let n = self.tabla.rows().len();
        let mut i: usize = 0;
        while i < n
            invariant
                n == s0.len(),
                i <= n,
                self.tabla@.len() == n,
                ids_unique(self.tabla@),
                c.id == id,
                forall|j: int| 0 <= j < i ==> self.tabla@[j] == (if s0[j].id == id { c } else { s0[j] }),
                forall|j: int| i <= j < n ==> self.tabla@[j] == s0[j],
            decreases n - i,
        {
            if self.tabla.rows()[i].id == id {
                let copy = c.clone();
                self.tabla.replace(i, copy);
            }
            i = i + 1;
        }
        assert(self.tabla@ =~= updated_categorias(s0, id, data));
        Ok(Some(c))
    }

    /// Removes every category with identifier `id`; tells whether there was
    /// one.
    pub fn delete(&mut self, id: u128) -> (r: bool)
        requires
            ids_unique(old(self)@),
        ensures
            ids_unique(final(self)@),
            r == has_key(old(self)@, id),
            final(self)@ == without(old(self)@, id),
    {
        self.tabla.delete(id)
    }

    /// How many categories are of kind `tipo`.
    pub fn count_by_tipo(&self, tipo: TipoCategoria) -> (r: usize)
        ensures
            r == of_tipo(self@, Some(tipo)).len(),
    {
        let rows = self.tabla.rows();
        let ghost p = |c: Categoria| Some(tipo) is None || Some(tipo) == Some(c.tipo);
        let mut n: usize = 0;
        let mut i: usize = 0;
        proof {
            lemma_filter_none(rows@, p);
        }
        while i < rows.len()
            invariant
                rows@ == self@,
                i <= rows@.len(),
                n == rows@.take(i as int).filter(p).len(),
                p == (|c: Categoria| Some(tipo) is None || Some(tipo) == Some(c.tipo)),
                n <= i,
            decreases rows@.len() - i,
        {
            proof {
                lemma_filter_step(rows@, i as int, p);
            }
            if rows[i].tipo == tipo {
                n = n + 1;
            }
            i = i + 1;
        }
        assert(rows@.take(i as int) =~= rows@);
        n
    }
}

/// A filter that keeps every element leaves the sequence as it is.
proof fn lemma_filter_all<A>(s: Seq<A>, p: spec_fn(A) -> bool)
    requires
        forall|x: A| #[trigger] p(x),
    ensures
        s.filter(p) == s,
    decreases s.len(),
{
    reveal(Seq::filter);
    if s.len() > 0 {
        lemma_filter_all(s.drop_last(), p);
        assert(s.drop_last().push(s.last()) =~= s);
    }
}

/// A category created from valid input under an identifier not yet in use is
/// what a lookup of that identifier then finds: the input's fields under that
/// identifier.
pub proof fn lemma_create_then_get(s: Seq<Categoria>, id: u128, d: CreateCategoria)
    requires
        valid_create_categoria(d),
        !has_key(s, id),
    ensures
        lookup(s.push(categoria_from(id, d)), id) == Some(categoria_from(id, d)),
        categoria_from(id, d).id == id,
        categoria_from(id, d).nombre == d.nombre,
        categoria_from(id, d).tipo == d.tipo,
        categoria_from(id, d).color == d.color,
{
    crate::tabla::lemma_insert_then_lookup(s, categoria_from(id, d));
}

} // verus!
