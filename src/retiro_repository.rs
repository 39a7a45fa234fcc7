use vstd::prelude::*;

use crate::error::{AppError, Result};
use crate::fecha::{now, Timestamp};
use crate::ident::new_id;
use crate::orden::{insert_ordered, ordered, strict_order};
use crate::retiro::{valid_create_retiro, CreateRetiro, EstadoRetiro, Retiro};
use crate::tabla::{ids_unique, 
    has_key, lemma_filter_none, lemma_filter_step, lemma_lookup, lookup, without, Fila, Tabla,
};
use crate::text::{contains_ci, contains_text_ci};

verus! {

/// The retreat that `d` describes under identifier `id`, created at `now`.
pub open spec fn retiro_from(id: u128, now: Timestamp, d: CreateRetiro) -> Retiro {
    Retiro {
        id,
        nombre: d.nombre,
        descripcion: d.descripcion,
        fecha_inicio: d.fecha_inicio,
        fecha_fin: d.fecha_fin,
        ubicacion: d.ubicacion,
        numero_participantes: d.numero_participantes,
        estado: EstadoRetiro::Planificacion,
        created_at: now,
        updated_at: now,
    }
}

/// `x` with the fields of `d`, updated at `now`; its state and creation time
/// are kept.
pub open spec fn retiro_updated(x: Retiro, now: Timestamp, d: CreateRetiro) -> Retiro {
    Retiro {
        id: x.id,
        nombre: d.nombre,
        descripcion: d.descripcion,
        fecha_inicio: d.fecha_inicio,
        fecha_fin: d.fecha_fin,
        ubicacion: d.ubicacion,
        numero_participantes: d.numero_participantes,
        estado: x.estado,
        created_at: x.created_at,
        updated_at: now,
    }
}

/// `x` in state `e`, updated at `now`; nothing else changes.
pub open spec fn retiro_en_estado(x: Retiro, now: Timestamp, e: EstadoRetiro) -> Retiro {
    Retiro { estado: e, updated_at: now, ..x }
}

/// The table after every retreat with identifier `id` took the fields of `d`.
pub open spec fn updated_retiros(s: Seq<Retiro>, id: u128, now: Timestamp, d: CreateRetiro) -> Seq<Retiro> {
    s.map_values(|x: Retiro| if x.id == id { retiro_updated(x, now, d) } else { x })
}

/// The table after every retreat with identifier `id` went to state `e`.
pub open spec fn retiros_en_estado(s: Seq<Retiro>, id: u128, now: Timestamp, e: EstadoRetiro) -> Seq<Retiro> {
    s.map_values(|x: Retiro| if x.id == id { retiro_en_estado(x, now, e) } else { x })
}

/// `a` starts strictly later than `b`.
pub open spec fn starts_later(a: Retiro, b: Retiro) -> bool {
    b.fecha_inicio.secs < a.fecha_inicio.secs || (b.fecha_inicio.secs == a.fecha_inicio.secs
        && b.fecha_inicio.nanos < a.fecha_inicio.nanos)
}

/// `a` ends strictly later than `b`.
pub open spec fn ends_later(a: Retiro, b: Retiro) -> bool {
    b.fecha_fin.secs < a.fecha_fin.secs || (b.fecha_fin.secs == a.fecha_fin.secs
        && b.fecha_fin.nanos < a.fecha_fin.nanos)
}

/// `x` is in state `estado` (any state for `None`) and its name holds `query`
/// (any name for `None`), ASCII letters compared without case.
pub open spec fn selects(x: Retiro, estado: Option<EstadoRetiro>, query: Option<Seq<char>>) -> bool {
    &&& (estado is None || estado == Some(x.estado))
    &&& match query {
        None => true,
        Some(q) => contains_ci(x.nombre@, q),
    }
}

/// The retreats of `s` that `selects` keeps, in order.
pub open spec fn selected(s: Seq<Retiro>, estado: Option<EstadoRetiro>, query: Option<Seq<char>>) -> Seq<Retiro> {
    s.filter(|x: Retiro| selects(x, estado, query))
}

/// The sum of the participant counts of the retreats of `s`.
pub open spec fn participant_sum(s: Seq<Retiro>) -> int
    decreases s.len(),
{
    if s.len() == 0 {
        0
    } else {
        participant_sum(s.drop_last()) + s.last().numero_participantes as int
    }
}

fn starts_later_than(a: &Retiro, b: &Retiro) -> (r: bool)
    ensures
        r == starts_later(*a, *b),
{
    b.fecha_inicio.secs < a.fecha_inicio.secs || (b.fecha_inicio.secs == a.fecha_inicio.secs
        && b.fecha_inicio.nanos < a.fecha_inicio.nanos)
}

fn ends_later_than(a: &Retiro, b: &Retiro) -> (r: bool)
    ensures
        r == ends_later(*a, *b),
{
    b.fecha_fin.secs < a.fecha_fin.secs || (b.fecha_fin.secs == a.fecha_fin.secs
        && b.fecha_fin.nanos < a.fecha_fin.nanos)
}

/// The retreats table.
pub struct RetiroRepository {
    tabla: Tabla<Retiro>,
}

impl View for RetiroRepository {
    type V = Seq<Retiro>;

    closed spec fn view(&self) -> Seq<Retiro> {
        self.tabla@
    }
}

impl RetiroRepository {
    /// An empty table.
    pub fn new() -> (r: RetiroRepository)
        ensures
            r@ == Seq::<Retiro>::empty(),
            ids_unique(r@),
    {
        RetiroRepository { tabla: Tabla::new() }
    }

    /// The retreats, in the order they were stored.
    pub fn rows(&self) -> (r: &Vec<Retiro>)
        ensures
            r@ == self@,
    {
        self.tabla.rows()
    }

    /// Stores a retreat as it is, unless its identifier is in use.
    pub fn insert(&mut self, x: Retiro) -> (r: Result<()>)
        requires
            ids_unique(old(self)@),
        ensures
            ids_unique(final(self)@),
            has_key(old(self)@, x.id) ==> (r matches Err(e) && e is Storage) && final(self)@
                == old(self)@,
            !has_key(old(self)@, x.id) ==> r is Ok && final(self)@ == old(self)@.push(x),
    {
        self.tabla.insert(x)
    }

    /// Creates the retreat that `data` describes under identifier `id`, at time
    /// `now`; it starts in planning.
    pub fn create_with_id(&mut self, id: u128, now: Timestamp, data: CreateRetiro) -> (r: Result<Retiro>)
        requires
            ids_unique(old(self)@),
        ensures
            ids_unique(final(self)@),
            !valid_create_retiro(data) ==> (r matches Err(e) && e is Validation) && final(self)@ == old(self)@,
            valid_create_retiro(data) && has_key(old(self)@, id) ==> (r matches Err(e)
                && e is Storage) && final(self)@ == old(self)@,
            valid_create_retiro(data) && !has_key(old(self)@, id) ==> r == Ok::<Retiro, AppError>(
                retiro_from(id, now, data),
            ) && final(self)@ == old(self)@.push(retiro_from(id, now, data)),
    {
        data.validate()?;
        let x = Retiro::new(id, now, data);
        let stored = x.clone();
        self.tabla.insert(stored)?;
        Ok(x)
    }

    /// Creates the retreat that `data` describes under a fresh random
    /// identifier, at the current time; it starts in planning.
    pub fn create(&mut self, data: CreateRetiro) -> (r: Result<Retiro>)
        requires
            ids_unique(old(self)@),
        ensures
            ids_unique(final(self)@),
            valid_create_retiro(data) && old(self)@.len() == 0 ==> r is Ok,
            !valid_create_retiro(data) ==> (r matches Err(e) && e is Validation) && final(self)@ == old(self)@,
            r matches Ok(x) ==> x == retiro_from(x.id, x.created_at, data) && !has_key(old(self)@, x.id)
                && final(self)@ == old(self)@.push(x),
            valid_create_retiro(data) && r is Err ==> (r matches Err(e) && e is Storage)
                && final(self)@ == old(self)@,
    {
        let id = new_id();
        let at = now();
        self.create_with_id(id, at, data)
    }

    /// The retreat with identifier `id`.
    pub fn get_by_id(&self, id: u128) -> (r: Option<Retiro>)
        ensures
            r == lookup(self@, id),
    {
        self.tabla.get(id)
    }

    fn select(&self, estado: Option<EstadoRetiro>, query: Option<&str>, by_end: bool) -> (r: Vec<Retiro>)
        ensures
            r@.to_multiset() == selected(
                self@,
                estado,
                match query {
                    Some(q) => Some(q@),
                    None => None,
                },
            ).to_multiset(),
            !by_end ==> ordered(r@, |a: Retiro, b: Retiro| starts_later(a, b)),
            by_end ==> ordered(r@, |a: Retiro, b: Retiro| ends_later(a, b)),
    {
        let rows = self.tabla.rows();
        let ghost q = match query {
            Some(q) => Some(q@),
            None => None,
        };
        let ghost lt = if by_end {
            |a: Retiro, b: Retiro| ends_later(a, b)
        } else {
            |a: Retiro, b: Retiro| starts_later(a, b)
        };
        let ghost p = |x: Retiro| selects(x, estado, q);
        proof {
            lemma_filter_none(rows@, p);
        }
        let mut out: Vec<Retiro> = Vec::new();
        let mut i: usize = 0;
        while i < rows.len()
            invariant
                rows@ == self@,
                i <= rows@.len(),
                q == match query {
                    Some(q) => Some(q@),
                    None => None::<Seq<char>>,
                },
                p == (|x: Retiro| selects(x, estado, q)),
                lt == (if by_end {
                    |a: Retiro, b: Retiro| ends_later(a, b)
                } else {
                    |a: Retiro, b: Retiro| starts_later(a, b)
                }),
                out@.to_multiset() == rows@.take(i as int).filter(p).to_multiset(),
                ordered(out@, lt),
                strict_order(lt),
                forall|a: &Retiro, b: &Retiro, r: bool|
                    starts_later_than.ensures((a, b), r) ==> r == starts_later(*a, *b),
                forall|a: &Retiro, b: &Retiro, r: bool|
                    ends_later_than.ensures((a, b), r) ==> r == ends_later(*a, *b),
            decreases rows@.len() - i,
        {
            proof {
                lemma_filter_step(rows@, i as int, p);
            }
            let x = &rows[i];
            let state_ok = match estado {
                None => true,
                Some(e) => e == x.estado,
            };
            let name_ok = match query {
                None => true,
                Some(qs) => contains_text_ci(x.nombre.as_str(), qs),
            };
            if state_ok && name_ok {
                let c = x.clone();
                proof {
                    vstd::seq_lib::to_multiset_build(rows@.take(i as int).filter(p), c);
                }
                if by_end {
                    insert_ordered(&mut out, c, &ends_later_than, Ghost(lt));
                } else {
                    insert_ordered(&mut out, c, &starts_later_than, Ghost(lt));
                }
            }
            i = i + 1;
        }
        assert(rows@.take(i as int) =~= rows@);
        out
    }

    /// Every retreat, latest start first.
    pub fn get_all(&self) -> (r: Vec<Retiro>)
        ensures
            r@.to_multiset() == selected(self@, None, None).to_multiset(),
            ordered(r@, |a: Retiro, b: Retiro| starts_later(a, b)),
    {
        self.select(None, None, false)
    }

    /// The retreats in state `estado`, latest start first.
    pub fn get_by_estado(&self, estado: EstadoRetiro) -> (r: Vec<Retiro>)
        ensures
            r@.to_multiset() == selected(self@, Some(estado), None).to_multiset(),
            ordered(r@, |a: Retiro, b: Retiro| starts_later(a, b)),
    {
        self.select(Some(estado), None, false)
    }

    /// The active retreats, latest start first.
    pub fn get_activos(&self) -> (r: Vec<Retiro>)
        ensures
            r@.to_multiset() == selected(self@, Some(EstadoRetiro::Activo), None).to_multiset(),
            ordered(r@, |a: Retiro, b: Retiro| starts_later(a, b)),
    {
        self.get_by_estado(EstadoRetiro::Activo)
    }

    /// The retreats whose name holds `query`, ASCII letters compared without
    /// case, latest start first.
    pub fn search_by_name(&self, query: &str) -> (r: Vec<Retiro>)
        ensures
            r@.to_multiset() == selected(self@, None, Some(query@)).to_multiset(),
            ordered(r@, |a: Retiro, b: Retiro| starts_later(a, b)),
    {
        self.select(None, Some(query), false)
    }

    /// The `limit` finished retreats that ended last, latest end first.
    pub fn get_finalizados_recientes(&self, limit: usize) -> (r: Vec<Retiro>)
        ensures
            exists|all: Seq<Retiro>|
                {
                    &&& all.to_multiset() == selected(
                        self@,
                        Some(EstadoRetiro::Finalizado),
                        None,
                    ).to_multiset()
                    &&& ordered(all, |a: Retiro, b: Retiro| ends_later(a, b))
                    &&& r@ == all.take(if limit <= all.len() { limit as int } else { all.len() as int })
                },
    {
        let mut all = self.select(Some(EstadoRetiro::Finalizado), None, true);
        let ghost full = all@;
        all.truncate(limit);
        assert(all@ == full.take(if limit <= full.len() { limit as int } else { full.len() as int }));
        all
    }

    /// The participants of all retreats together.
    pub fn get_total_participantes(&self) -> (r: i128)
        ensures
            r == participant_sum(self@),
    {
        let rows = self.tabla.rows();
        let mut acc: i128 = 0;
        let mut i: usize = 0;
        while i < rows.len()
            invariant
                rows@ == self@,
                i <= rows@.len(),
                acc == participant_sum(rows@.take(i as int)),
                -(i as int) * 0x8000_0000 <= acc <= (i as int) * 0x8000_0000,
            decreases rows@.len() - i,
        {
            let ghost s = rows@;
            assert(s.take(i + 1).drop_last() =~= s.take(i as int));
            assert(s.take(i + 1).last() == s[i as int]);
            acc = acc + rows[i].numero_participantes as i128;
            i = i + 1;
        }
        assert(rows@.take(i as int) =~= rows@);
        acc
    }

    /// Gives every retreat with identifier `id` the fields of `data`, after
    /// checking them, and `now` as its update time; its state and creation time
    /// are kept. `None` where no retreat has that identifier.
    pub fn update_at(&mut self, id: u128, now: Timestamp, data: CreateRetiro) -> (r: Result<Option<Retiro>>)
        requires
            ids_unique(old(self)@),
        ensures
            ids_unique(final(self)@),
            !valid_create_retiro(data) ==> (r matches Err(e) && e is Validation) && final(self)@ == old(self)@,
            valid_create_retiro(data) && !has_key(old(self)@, id) ==> r == Ok::<Option<Retiro>, AppError>(None)
                && final(self)@ == old(self)@,
            valid_create_retiro(data) && has_key(old(self)@, id) ==> r == Ok::<Option<Retiro>, AppError>(
                lookup(final(self)@, id),
            ) && lookup(final(self)@, id) is Some && final(self)@ == updated_retiros(old(self)@, id, now, data),
    {
        data.validate()?;
        if self.tabla.position(id).is_none() {
            return Ok(None);
        }
        let ghost s0 = self.tabla@;
        let n = self.tabla.rows().len();
        let mut i: usize = 0;
        while i < n
            invariant
                n == s0.len(),
                i <= n,
                self.tabla@.len() == n,
                ids_unique(self.tabla@),
                forall|j: int|
                    0 <= j < i ==> self.tabla@[j] == (if s0[j].id == id {
                        retiro_updated(s0[j], now, data)
                    } else {
                        s0[j]
                    }),
                forall|j: int| i <= j < n ==> self.tabla@[j] == s0[j],
            decreases n - i,
        {
            let x = &self.tabla.rows()[i];
            if x.id == id {
                let y = Retiro {
                    id: x.id,
                    nombre: data.nombre.clone(),
                    descripcion: crate::retiro::clone_opt(&data.descripcion),
                    fecha_inicio: data.fecha_inicio,
                    fecha_fin: data.fecha_fin,
                    ubicacion: crate::retiro::clone_opt(&data.ubicacion),
                    numero_participantes: data.numero_participantes,
                    estado: x.estado,
                    created_at: x.created_at,
                    updated_at: now,
                };
                self.tabla.replace(i, y);
            }
            i = i + 1;
        }
        assert(self.tabla@ =~= updated_retiros(s0, id, now, data));
        proof {
            let k = choose|k: int| 0 <= k < s0.len() && #[trigger] s0[k].id == id;
            assert(self.tabla@[k].key() == id);
            assert(has_key(self.tabla@, id));
            lemma_lookup(self.tabla@, id);
        }
        Ok(self.tabla.get(id))
    }

    /// `update_at` at the current time.
    pub fn update(&mut self, id: u128, data: CreateRetiro) -> (r: Result<Option<Retiro>>)
        requires
            ids_unique(old(self)@),
        ensures
            ids_unique(final(self)@),
            !valid_create_retiro(data) ==> (r matches Err(e) && e is Validation) && final(self)@ == old(self)@,
            valid_create_retiro(data) && !has_key(old(self)@, id) ==> r == Ok::<Option<Retiro>, AppError>(None)
                && final(self)@ == old(self)@,
            valid_create_retiro(data) && has_key(old(self)@, id) ==> r == Ok::<Option<Retiro>, AppError>(
                lookup(final(self)@, id),
            ) && lookup(final(self)@, id) is Some && exists|t: Timestamp| final(self)@ == updated_retiros(old(self)@, id, t, data),
    {
        let at = now();
        self.update_at(id, at, data)
    }

    /// Puts every retreat with identifier `id` in state `estado`, with `now` as
    /// its update time; any state may follow any other. `None` where no retreat
    /// has that identifier.
    pub fn update_estado_at(&mut self, id: u128, now: Timestamp, estado: EstadoRetiro) -> (r: Option<Retiro>)
        requires
            ids_unique(old(self)@),
        ensures
            ids_unique(final(self)@),
            !has_key(old(self)@, id) ==> r is None && final(self)@ == old(self)@,
            has_key(old(self)@, id) ==> r == lookup(final(self)@, id) && r is Some && final(self)@
                == retiros_en_estado(old(self)@, id, now, estado),
    {
        if self.tabla.position(id).is_none() {
            return None;
        }
        let ghost s0 = self.tabla@;
        let n = self.tabla.rows().len();
        let mut i: usize = 0;
        while i < n
            invariant
                n == s0.len(),
                i <= n,
                self.tabla@.len() == n,
                ids_unique(self.tabla@),
                forall|j: int|
                    0 <= j < i ==> self.tabla@[j] == (if s0[j].id == id {
                        retiro_en_estado(s0[j], now, estado)
                    } else {
                        s0[j]
                    }),
                forall|j: int| i <= j < n ==> self.tabla@[j] == s0[j],
            decreases n - i,
        {
            if self.tabla.rows()[i].id == id {
                let mut y = self.tabla.rows()[i].clone();
                y.estado = estado;
                y.updated_at = now;
                self.tabla.replace(i, y);
            }
            i = i + 1;
        }
        assert(self.tabla@ =~= retiros_en_estado(s0, id, now, estado));
        proof {
            let k = choose|k: int| 0 <= k < s0.len() && #[trigger] s0[k].id == id;
            assert(self.tabla@[k].key() == id);
            assert(has_key(self.tabla@, id));
            lemma_lookup(self.tabla@, id);
        }
        self.tabla.get(id)
    }

    /// `update_estado_at` at the current time.
    pub fn update_estado(&mut self, id: u128, estado: EstadoRetiro) -> (r: Option<Retiro>)
        requires
            ids_unique(old(self)@),
        ensures
            ids_unique(final(self)@),
            !has_key(old(self)@, id) ==> r is None && final(self)@ == old(self)@,
            has_key(old(self)@, id) ==> r == lookup(final(self)@, id) && r is Some && exists|t: Timestamp|
                final(self)@ == retiros_en_estado(old(self)@, id, t, estado),
    {
        let at = now();
        self.update_estado_at(id, at, estado)
    }

    /// Removes every retreat with identifier `id`; tells whether there was one.
    pub fn delete(&mut self, id: u128) -> (r: bool)
        requires
            ids_unique(old(self)@),
        ensures
            ids_unique(final(self)@),
            r == has_key(old(self)@, id),
            final(self)@ == without(old(self)@, id),
    {
        self.tabla.delete(id)
    }

    /// How many retreats are in state `estado`.
    pub fn count_by_estado(&self, estado: EstadoRetiro) -> (r: usize)
        ensures
            r == selected(self@, Some(estado), None).len(),
    {
        let rows = self.tabla.rows();
        let ghost p = |x: Retiro| selects(x, Some(estado), None);
        proof {
            lemma_filter_none(rows@, p);
        }
        let mut n: usize = 0;
        let mut i: usize = 0;
        while i < rows.len()
            invariant
                rows@ == self@,
                i <= rows@.len(),
                p == (|x: Retiro| selects(x, Some(estado), None)),
                n == rows@.take(i as int).filter(p).len(),
                n <= i,
            decreases rows@.len() - i,
        {
            proof {
                lemma_filter_step(rows@, i as int, p);
            }
            if rows[i].estado == estado {
                n = n + 1;
            }
            i = i + 1;
        }
        assert(rows@.take(i as int) =~= rows@);
        n
    }
}

/// A retreat created from valid input under an identifier not yet in use is
/// what a lookup of that identifier then finds: the input's fields under that
/// identifier, in planning.
pub proof fn lemma_create_then_get(s: Seq<Retiro>, id: u128, now: Timestamp, d: CreateRetiro)
    requires
        valid_create_retiro(d),
        !has_key(s, id),
    ensures
        lookup(s.push(retiro_from(id, now, d)), id) == Some(retiro_from(id, now, d)),
        retiro_from(id, now, d).id == id,
        retiro_from(id, now, d).nombre == d.nombre,
        retiro_from(id, now, d).descripcion == d.descripcion,
        retiro_from(id, now, d).fecha_inicio == d.fecha_inicio,
        retiro_from(id, now, d).fecha_fin == d.fecha_fin,
        retiro_from(id, now, d).ubicacion == d.ubicacion,
        retiro_from(id, now, d).numero_participantes == d.numero_participantes,
        retiro_from(id, now, d).estado == EstadoRetiro::Planificacion,
{
    crate::tabla::lemma_insert_then_lookup(s, retiro_from(id, now, d));
}

} // verus!
