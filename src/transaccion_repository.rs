use vstd::prelude::*;

use crate::categoria::Categoria;
use crate::categoria_repository::CategoriaRepository;
use crate::error::{AppError, Result};
use crate::fecha::{now, Timestamp};
use crate::ident::new_id;
use crate::orden::{insert_ordered, ordered, strict_order};
use crate::tabla::{ids_unique, has_key, lemma_filter_none, lemma_filter_step, lookup, without, Tabla};
use crate::transaccion::{valid_create_transaccion, CreateTransaccion, TipoTransaccion, Transaccion};

verus! {

/// The transaction that `d` describes under identifier `id`, created at `now`.
pub open spec fn transaccion_from(id: u128, now: Timestamp, d: CreateTransaccion) -> Transaccion {
    Transaccion {
        id,
        retiro_id: d.retiro_id,
        categoria_id: d.categoria_id,
        tipo: d.tipo,
        monto: d.monto,
        descripcion: d.descripcion,
        fecha: d.fecha,
        created_at: now,
        updated_at: now,
    }
}

/// What `t` adds to a sum over retreat `scope` (every retreat for `None`): for
/// `Some(k)`, its amount where it is of kind `k` and nothing otherwise; for
/// `None`, its amount as income and its negated amount as expense.
pub open spec fn contribution(t: Transaccion, scope: Option<u128>, kind: Option<TipoTransaccion>) -> int {
    if scope is None || scope == Some(t.retiro_id) {
        match kind {
            Some(k) => if t.tipo == k {
                t.monto as int
            } else {
                0
            },
            None => if t.tipo == TipoTransaccion::Ingreso {
                t.monto as int
            } else {
                -(t.monto as int)
            },
        }
    } else {
        0
    }
}

/// The sum of the contributions of the transactions of `s`.
pub open spec fn amount_sum(s: Seq<Transaccion>, scope: Option<u128>, kind: Option<TipoTransaccion>) -> int
    decreases s.len(),
{
    if s.len() == 0 {
        0
    } else {
        amount_sum(s.drop_last(), scope, kind) + contribution(s.last(), scope, kind)
    }
}

/// The balance of retreat `r`: the total of kind `k` for `Some(k)`, income less
/// expense for `None`.
pub open spec fn balance(s: Seq<Transaccion>, r: u128, tipo: Option<TipoTransaccion>) -> int {
    amount_sum(s, Some(r), tipo)
}

/// The transactions of `s` booked against retreat `r`, in order.
pub open spec fn of_retiro(s: Seq<Transaccion>, r: u128) -> Seq<Transaccion> {
    s.filter(|t: Transaccion| t.retiro_id == r)
}

/// `a` happened strictly later than `b`.
pub open spec fn later(a: Transaccion, b: Transaccion) -> bool {
    b.fecha.secs < a.fecha.secs || (b.fecha.secs == a.fecha.secs && b.fecha.nanos < a.fecha.nanos)
}

/// The retreats that have a transaction in `s` of kind `k`, or of any kind for
/// `None`.
pub open spec fn retiros_con(s: Seq<Transaccion>, kind: Option<TipoTransaccion>) -> Set<u128> {
    Set::new(
        |r: u128|
            exists|i: int|
                0 <= i < s.len() && #[trigger] s[i].retiro_id == r && (kind is None || kind == Some(
                    s[i].tipo,
                )),
    )
}

/// The total of the expense transactions of `s` booked under category `c`.
pub open spec fn category_expense(s: Seq<Transaccion>, c: u128) -> int
    decreases s.len(),
{
    if s.len() == 0 {
        0
    } else {
        category_expense(s.drop_last(), c) + (if s.last().categoria_id == c && s.last().tipo
            == TipoTransaccion::Gasto {
            s.last().monto as int
        } else {
            0
        })
    }
}

/// Some expense transaction of `s` is booked under category `c`.
pub open spec fn has_expense(s: Seq<Transaccion>, c: u128) -> bool {
    exists|i: int|
        0 <= i < s.len() && #[trigger] s[i].categoria_id == c && s[i].tipo == TipoTransaccion::Gasto
}

/// `r` ranks the categories of `cats` that have expenses in `s` by their
/// expense total, largest first, cut at `limit` (no cut where it is negative);
/// `idx` gives the position in `cats` of each entry.
pub open spec fn is_expense_ranking(
    cats: Seq<Categoria>,
    s: Seq<Transaccion>,
    limit: i32,
    r: Seq<(String, String, i128)>,
    idx: Seq<int>,
) -> bool {
    &&& idx.len() == r.len()
    &&& idx.no_duplicates()
    &&& limit >= 0 ==> r.len() <= limit
    &&& forall|i: int|
        0 <= i < idx.len() ==> {
            &&& 0 <= #[trigger] idx[i] < cats.len()
            &&& has_expense(s, cats[idx[i]].id)
            &&& r[i].0 == cats[idx[i]].nombre
            &&& r[i].1 == cats[idx[i]].color
            &&& r[i].2 == category_expense(s, cats[idx[i]].id)
        }
    &&& forall|i: int, j: int| 0 <= i < j < r.len() ==> #[trigger] r[j].2 <= #[trigger] r[i].2
    &&& forall|j: int|
        0 <= j < cats.len() && has_expense(s, cats[j].id) && !idx.contains(j) ==> {
            &&& limit >= 0
            &&& r.len() == limit
            &&& r.len() > 0 ==> category_expense(s, #[trigger] cats[j].id) <= r.last().2
        }
}

/// Sums and counts behind the per-retreat averages. Each average is a sum
/// divided by a count of retreats (zero where the count is zero), and each count
/// covers only the retreats with a transaction of the kind it concerns.
#[derive(Debug, Clone, Copy, PartialEq, Eq)]
pub struct EstadisticasRetiros {
    /// Income less expense over every transaction: the sum of the balances of
    /// the retreats that have transactions.
    pub suma_balances: i128,
    /// How many retreats have a transaction.
    pub retiros_con_transacciones: usize,
    /// The income of every transaction.
    pub suma_ingresos: i128,
    /// How many retreats have an income transaction.
    pub retiros_con_ingresos: usize,
    /// The expense of every transaction.
    pub suma_gastos: i128,
    /// How many retreats have an expense transaction.
    pub retiros_con_gastos: usize,
}

fn later_than(a: &Transaccion, b: &Transaccion) -> (r: bool)
    ensures
        r == later(*a, *b),
{
    b.fecha.secs < a.fecha.secs || (b.fecha.secs == a.fecha.secs && b.fecha.nanos < a.fecha.nanos)
}

/// The sum of the contributions of the rows, which fits in an `i128` however
/// many rows there are.
fn sum_amounts(rows: &Vec<Transaccion>, scope: Option<u128>, kind: Option<TipoTransaccion>) -> (r: i128)
    ensures
        r == amount_sum(rows@, scope, kind),
{
    let mut acc: i128 = 0;
    let mut i: usize = 0;
    while i < rows.len()
        invariant
            i <= rows@.len(),
            acc == amount_sum(rows@.take(i as int), scope, kind),
            -(i as int) * 0x8000_0000_0000_0000 <= acc <= (i as int) * 0x8000_0000_0000_0000,
        decreases rows@.len() - i,
    {
        let ghost s = rows@;
        assert(s.take(i + 1).drop_last() =~= s.take(i as int));
        assert(s.take(i + 1).last() == s[i as int]);
        let t = &rows[i];
        let in_scope = match scope {
            None => true,
            Some(r) => r == t.retiro_id,
        };
        if in_scope {
            match kind {
                Some(k) => {
                    if t.tipo == k {
                        acc = acc + t.monto as i128;
                    }
                },
                None => {
                    if t.tipo == TipoTransaccion::Ingreso {
                        acc = acc + t.monto as i128;
                    } else {
                        acc = acc - t.monto as i128;
                    }
                },
            }
        }
        i = i + 1;
    }
    assert(rows@.take(i as int) =~= rows@);
    acc
}

proof fn lemma_retiros_con_step(s: Seq<Transaccion>, i: int, kind: Option<TipoTransaccion>)
    requires
        0 <= i < s.len(),
    ensures
        forall|r: u128|
            #[trigger] retiros_con(s.take(i + 1), kind).contains(r) <==> (retiros_con(
                s.take(i),
                kind,
            ).contains(r) || (r == s[i].retiro_id && (kind is None || kind == Some(s[i].tipo)))),
{
    assert forall|r: u128|
        #[trigger] retiros_con(s.take(i + 1), kind).contains(r) <==> (retiros_con(
            s.take(i),
            kind,
        ).contains(r) || (r == s[i].retiro_id && (kind is None || kind == Some(s[i].tipo)))) by {
        let a = s.take(i);
        let b = s.take(i + 1);
        if retiros_con(b, kind).contains(r) {
            let k = choose|k: int|
                0 <= k < b.len() && #[trigger] b[k].retiro_id == r && (kind is None || kind == Some(
                    b[k].tipo,
                ));
            if k < i {
                assert(a[k] == b[k]);
                assert(a[k].retiro_id == r);
            } else {
                assert(b[k] == s[i]);
            }
        }
        if retiros_con(a, kind).contains(r) {
            let k = choose|k: int|
                0 <= k < a.len() && #[trigger] a[k].retiro_id == r && (kind is None || kind == Some(
                    a[k].tipo,
                ));
            assert(a[k] == b[k]);
            assert(b[k].retiro_id == r);
        }
        if r == s[i].retiro_id && (kind is None || kind == Some(s[i].tipo)) {
            assert(b[i] == s[i]);
            assert(b[i].retiro_id == r);
        }
    }
}

/// The number of distinct retreats among the rows of kind `kind` (of any kind
/// for `None`).
fn count_retiros(rows: &Vec<Transaccion>, kind: Option<TipoTransaccion>) -> (r: usize)
    ensures
        retiros_con(rows@, kind).finite(),
        r == retiros_con(rows@, kind).len(),
{
    let mut seen: Vec<u128> = Vec::new();
    let mut i: usize = 0;
    while i < rows.len()
        invariant
            i <= rows@.len(),
            seen@.no_duplicates(),
            forall|r: u128| seen@.contains(r) <==> retiros_con(rows@.take(i as int), kind).contains(r),
        decreases rows@.len() - i,
    {
        let ghost s = rows@;
        let t = &rows[i];
        let counts = match kind {
            None => true,
            Some(k) => k == t.tipo,
        };
        let mut j: usize = 0;
        let mut present = false;
        while j < seen.len()
            invariant
                j <= seen@.len(),
                present <==> exists|k: int| 0 <= k < j && seen@[k] == t.retiro_id,
            decreases seen@.len() - j,
        {
            if seen[j] == t.retiro_id {
                present = true;
            }
            j = j + 1;
        }
        let ghost before = seen@;
        assert(present <==> before.contains(t.retiro_id));
        assert(counts <==> (kind is None || kind == Some(s[i as int].tipo)));
        if counts && !present {
            seen.push(t.retiro_id);
        }
        proof {
            lemma_retiros_con_step(s, i as int, kind);
            assert forall|r: u128| seen@.contains(r) <==> retiros_con(s.take(i + 1), kind).contains(r) by {
                if counts && !present {
                    assert(seen@ == before.push(t.retiro_id));
                    if before.contains(r) {
                        let k = choose|k: int| 0 <= k < before.len() && before[k] == r;
                        assert(seen@[k] == r);
                    }
                    if r == t.retiro_id {
                        assert(seen@[before.len() as int] == r);
                    }
                    if seen@.contains(r) {
                        let k = choose|k: int| 0 <= k < seen@.len() && seen@[k] == r;
                        if k < before.len() {
                            assert(before[k] == r);
                        }
                    }
                }
            }
        }
        i = i + 1;
    }
    assert(rows@.take(i as int) =~= rows@);
    assert(seen@.to_set() =~= retiros_con(rows@, kind));
    proof {
        seen@.unique_seq_to_set();
    }
    seen.len()
}

/// Whether some expense of the rows is booked under category `c`, and the
/// total of those expenses.
fn expense_of(rows: &Vec<Transaccion>, c: u128) -> (r: (bool, i128))
    ensures
        r.0 == has_expense(rows@, c),
        r.1 == category_expense(rows@, c),
        -(rows@.len() as int) * 0x8000_0000_0000_0000 <= r.1 <= (rows@.len() as int) * 0x8000_0000_0000_0000,
{
    let mut acc: i128 = 0;
    let mut any = false;
    let mut i: usize = 0;
    while i < rows.len()
        invariant
            i <= rows@.len(),
            acc == category_expense(rows@.take(i as int), c),
            any == has_expense(rows@.take(i as int), c),
            -(i as int) * 0x8000_0000_0000_0000 <= acc <= (i as int) * 0x8000_0000_0000_0000,
        decreases rows@.len() - i,
    {
        let ghost s = rows@;
        assert(s.take(i + 1).drop_last() =~= s.take(i as int));
        assert(s.take(i + 1).last() == s[i as int]);
        let t = &rows[i];
        if t.categoria_id == c && t.tipo == TipoTransaccion::Gasto {
            acc = acc + t.monto as i128;
            any = true;
            assert(s.take(i + 1)[i as int].categoria_id == c);
        }
        proof {
            if has_expense(s.take(i + 1), c) {
                let k = choose|k: int|
                    0 <= k < i + 1 && #[trigger] s.take(i + 1)[k].categoria_id == c && s.take(i + 1)[k].tipo
                        == TipoTransaccion::Gasto;
                if k < i {
                    assert(s.take(i as int)[k] == s.take(i + 1)[k]);
                }
            }
            if has_expense(s.take(i as int), c) {
                let k = choose|k: int|
                    0 <= k < i && #[trigger] s.take(i as int)[k].categoria_id == c && s.take(i as int)[k].tipo
                        == TipoTransaccion::Gasto;
                assert(s.take(i as int)[k] == s.take(i + 1)[k]);
            }
        }
        i = i + 1;
    }
    assert(rows@.take(i as int) =~= rows@);
    (any, acc)
}

/// Distinct values below `m` are at most `m` in number.
proof fn lemma_distinct_below(idx: Seq<int>, m: int)
    requires
        idx.no_duplicates(),
        forall|i: int| 0 <= i < idx.len() ==> 0 <= #[trigger] idx[i] < m,
        0 <= m,
    ensures
        idx.len() <= m,
{
    idx.unique_seq_to_set();
    vstd::set_lib::lemma_int_range(0, m);
    assert(idx.to_set().subset_of(vstd::set_lib::set_int_range(0, m)));
    vstd::set_lib::lemma_len_subset(idx.to_set(), vstd::set_lib::set_int_range(0, m));
}

/// The state of the ranking loop, once it stops, is a ranking.
proof fn lemma_ranking_done(
    cats: Seq<Categoria>,
    txs: Seq<Transaccion>,
    limit: i32,
    out: Seq<(String, String, i128)>,
    idx: Seq<int>,
    totals: Seq<i128>,
    cand: Seq<bool>,
    taken: Seq<bool>,
)
    requires
        totals.len() == cats.len(),
        cand.len() == cats.len(),
        taken.len() == cats.len(),
        forall|k: int| 0 <= k < cats.len() ==> #[trigger] totals[k] == category_expense(txs, cats[k].id),
        forall|k: int| 0 <= k < cats.len() ==> #[trigger] cand[k] == has_expense(txs, cats[k].id),
        idx.len() == out.len(),
        idx.no_duplicates(),
        limit >= 0 ==> out.len() <= limit,
        forall|i: int|
            0 <= i < idx.len() ==> {
                &&& 0 <= #[trigger] idx[i] < cats.len()
                &&& cand[idx[i]]
                &&& out[i].0 == cats[idx[i]].nombre
                &&& out[i].1 == cats[idx[i]].color
                &&& out[i].2 == totals[idx[i]]
            },
        forall|k: int| 0 <= k < cats.len() ==> (#[trigger] taken[k] <==> idx.contains(k)),
        forall|a: int, b: int| 0 <= a < b < out.len() ==> #[trigger] out[b].2 <= #[trigger] out[a].2,
        forall|k: int|
            0 <= k < cats.len() && cand[k] && !taken[k] && out.len() > 0 ==> #[trigger] totals[k]
                <= out.last().2,
        (limit >= 0 && out.len() >= limit) || (forall|k: int|
            0 <= k < cats.len() ==> !(#[trigger] cand[k] && !taken[k])),
    ensures
        is_expense_ranking(cats, txs, limit, out, idx),
{
    assert forall|i: int| 0 <= i < idx.len() implies {
        &&& 0 <= #[trigger] idx[i] < cats.len()
        &&& has_expense(txs, cats[idx[i]].id)
        &&& out[i].0 == cats[idx[i]].nombre
        &&& out[i].1 == cats[idx[i]].color
        &&& out[i].2 == category_expense(txs, cats[idx[i]].id)
    } by {
        let k = idx[i];
        assert(cand[k]);
        assert(totals[k] == category_expense(txs, cats[k].id));
    }
    assert forall|j: int|
        0 <= j < cats.len() && has_expense(txs, cats[j].id) && !idx.contains(j) implies {
        &&& limit >= 0
        &&& out.len() == limit
        &&& out.len() > 0 ==> category_expense(txs, #[trigger] cats[j].id) <= out.last().2
    } by {
        assert(cand[j]);
        assert(!taken[j]);
        assert(totals[j] == category_expense(txs, cats[j].id));
    }
}

/// The transactions table.
pub struct TransaccionRepository {
    tabla: Tabla<Transaccion>,
}

impl View for TransaccionRepository {
    type V = Seq<Transaccion>;

    closed spec fn view(&self) -> Seq<Transaccion> {
        self.tabla@
    }
}

impl TransaccionRepository {
    /// An empty table.
    pub fn new() -> (r: TransaccionRepository)
        ensures
            r@ == Seq::<Transaccion>::empty(),
            ids_unique(r@),
    {
        TransaccionRepository { tabla: Tabla::new() }
    }

    /// Stores a transaction as it is, unless its identifier is in use.
    pub fn insert(&mut self, t: Transaccion) -> (r: Result<()>)
        requires
            ids_unique(old(self)@),
        ensures
            ids_unique(final(self)@),
            has_key(old(self)@, t.id) ==> (r matches Err(e) && e is Storage) && final(self)@
                == old(self)@,
            !has_key(old(self)@, t.id) ==> r is Ok && final(self)@ == old(self)@.push(t),
    {
        self.tabla.insert(t)
    }

    /// Creates the transaction that `data` describes under identifier `id`, at
    /// time `now`.
    pub fn create_with_id(&mut self, id: u128, now: Timestamp, data: CreateTransaccion) -> (r: Result<Transaccion>)
        requires
            ids_unique(old(self)@),
        ensures
            ids_unique(final(self)@),
            !valid_create_transaccion(data) ==> (r matches Err(e) && e is Validation) && final(self)@ == old(self)@,
            valid_create_transaccion(data) && has_key(old(self)@, id) ==> (r matches Err(e)
                && e is Storage) && final(self)@ == old(self)@,
            valid_create_transaccion(data) && !has_key(old(self)@, id) ==> r == Ok::<Transaccion, AppError>(
                transaccion_from(id, now, data),
            ) && final(self)@ == old(self)@.push(transaccion_from(id, now, data)),
    {
        data.validate()?;
        let t = Transaccion::new(id, now, data);
        let stored = t.clone();
        self.tabla.insert(stored)?;
        Ok(t)
    }

    /// Creates the transaction that `data` describes under a fresh random
    /// identifier, at the current time.
    pub fn create(&mut self, data: CreateTransaccion) -> (r: Result<Transaccion>)
        requires
            ids_unique(old(self)@),
        ensures
            ids_unique(final(self)@),
            valid_create_transaccion(data) && old(self)@.len() == 0 ==> r is Ok,
            !valid_create_transaccion(data) ==> (r matches Err(e) && e is Validation) && final(self)@ == old(self)@,
            r matches Ok(t) ==> t == transaccion_from(t.id, t.created_at, data) && !has_key(old(self)@, t.id)
                && final(self)@ == old(self)@.push(t),
            valid_create_transaccion(data) && r is Err ==> (r matches Err(e) && e is Storage)
                && final(self)@ == old(self)@,
    {
        let id = new_id();
        let at = now();
        self.create_with_id(id, at, data)
    }

    /// The transactions, in the order they were stored.
    pub fn rows(&self) -> (r: &Vec<Transaccion>)
        ensures
            r@ == self@,
    {
        self.tabla.rows()
    }

    /// The transaction with identifier `id`.
    pub fn get_by_id(&self, id: u128) -> (r: Option<Transaccion>)
        ensures
            r == lookup(self@, id),
    {
        self.tabla.get(id)
    }

    /// The transactions of retreat `retiro_id`, latest first.
    pub fn get_by_retiro(&self, retiro_id: u128) -> (r: Vec<Transaccion>)
        ensures
            r@.to_multiset() == of_retiro(self@, retiro_id).to_multiset(),
            ordered(r@, |a: Transaccion, b: Transaccion| later(a, b)),
    {
        let rows = self.tabla.rows();
        let ghost lt = |a: Transaccion, b: Transaccion| later(a, b);
        let ghost p = |t: Transaccion| t.retiro_id == retiro_id;
        proof {
            lemma_filter_none(rows@, p);
        }
        let mut out: Vec<Transaccion> = Vec::new();
        let mut i: usize = 0;
        while i < rows.len()
            invariant
                rows@ == self@,
                i <= rows@.len(),
                lt == (|a: Transaccion, b: Transaccion| later(a, b)),
                p == (|t: Transaccion| t.retiro_id == retiro_id),
                out@.to_multiset() == rows@.take(i as int).filter(p).to_multiset(),
                ordered(out@, lt),
                strict_order(lt),
                forall|a: &Transaccion, b: &Transaccion, r: bool|
                    later_than.ensures((a, b), r) ==> r == lt(*a, *b),
            decreases rows@.len() - i,
        {
            proof {
                lemma_filter_step(rows@, i as int, p);
            }
            if rows[i].retiro_id == retiro_id {
                let t = rows[i].clone();
                proof {
                    vstd::seq_lib::to_multiset_build(rows@.take(i as int).filter(p), t);
                }
                insert_ordered(&mut out, t, &later_than, Ghost(lt));
            }
            i = i + 1;
        }
        assert(rows@.take(i as int) =~= rows@);
        out
    }

    /// Removes every transaction with identifier `id`; tells whether there was
    /// one.
    pub fn delete(&mut self, id: u128) -> (r: bool)
        requires
            ids_unique(old(self)@),
        ensures
            ids_unique(final(self)@),
            r == has_key(old(self)@, id),
            final(self)@ == without(old(self)@, id),
    {
        self.tabla.delete(id)
    }

    /// The balance of retreat `retiro_id`: the total of kind `tipo`, or income
    /// less expense where no kind is given. Zero for a retreat without
    /// transactions.
    pub fn calculate_balance(&self, retiro_id: u128, tipo: Option<TipoTransaccion>) -> (r: i128)
        ensures
            r == balance(self@, retiro_id, tipo),
    {
        sum_amounts(self.tabla.rows(), Some(retiro_id), tipo)
    }

    /// How many transactions retreat `retiro_id` has.
    pub fn count_by_retiro(&self, retiro_id: u128) -> (r: usize)
        ensures
            r == of_retiro(self@, retiro_id).len(),
    {
        let rows = self.tabla.rows();
        let ghost p = |t: Transaccion| t.retiro_id == retiro_id;
        proof {
            lemma_filter_none(rows@, p);
        }
        let mut n: usize = 0;
        let mut i: usize = 0;
        while i < rows.len()
            invariant
                rows@ == self@,
                i <= rows@.len(),
                p == (|t: Transaccion| t.retiro_id == retiro_id),
                n == rows@.take(i as int).filter(p).len(),
                n <= i,
            decreases rows@.len() - i,
        {
            proof {
                lemma_filter_step(rows@, i as int, p);
            }
            if rows[i].retiro_id == retiro_id {
                n = n + 1;
            }
            i = i + 1;
        }
        assert(rows@.take(i as int) =~= rows@);
        n
    }

    /// Income and expense over all retreats, and the number of transactions.
    pub fn calculate_global_balance(&self) -> (r: (i128, i128, usize))
        ensures
            r.0 == amount_sum(self@, None, Some(TipoTransaccion::Ingreso)),
            r.1 == amount_sum(self@, None, Some(TipoTransaccion::Gasto)),
            r.2 == self@.len(),
    {
        let rows = self.tabla.rows();
        (
            sum_amounts(rows, None, Some(TipoTransaccion::Ingreso)),
            sum_amounts(rows, None, Some(TipoTransaccion::Gasto)),
            rows.len(),
        )
    }

    /// The categories of `categorias` with expenses, by expense total largest
    /// first, as name, color and total; at most `limit` of them, or all where
    /// `limit` is negative. Transactions under a category that is not in
    /// `categorias` do not count.
    pub fn get_top_categorias_gastos(&self, categorias: &CategoriaRepository, limit: i32) -> (r: Vec<
        (String, String, i128),
    >)
        ensures
            exists|idx: Seq<int>| is_expense_ranking(categorias@, self@, limit, r@, idx),
    {
        let txs = self.tabla.rows();
        let cats = categorias.rows();
        let m = cats.len();
        let mut totals: Vec<i128> = Vec::new();
        let mut cand: Vec<bool> = Vec::new();
        let mut taken: Vec<bool> = Vec::new();
        let mut j: usize = 0;
        while j < m
            invariant
                m == cats@.len(),
                j <= m,
                totals@.len() == j,
                cand@.len() == j,
                taken@.len() == j,
                forall|k: int| 0 <= k < j ==> #[trigger] totals@[k] == category_expense(txs@, cats@[k].id),
                forall|k: int| 0 <= k < j ==> #[trigger] cand@[k] == has_expense(txs@, cats@[k].id),
                forall|k: int| 0 <= k < j ==> !#[trigger] taken@[k],
            decreases m - j,
        {
            let (any, total) = expense_of(txs, cats[j].id);
            totals.push(total);
            cand.push(any);
            taken.push(false);
            j = j + 1;
        }
        let mut out: Vec<(String, String, i128)> = Vec::new();
        let ghost mut idx: Seq<int> = Seq::empty();
        loop
            invariant
                m == cats@.len(),
                totals@.len() == m,
                cand@.len() == m,
                taken@.len() == m,
                forall|k: int| 0 <= k < m ==> #[trigger] totals@[k] == category_expense(txs@, cats@[k].id),
                forall|k: int| 0 <= k < m ==> #[trigger] cand@[k] == has_expense(txs@, cats@[k].id),
                idx.len() == out@.len(),
                idx.no_duplicates(),
                limit >= 0 ==> out@.len() <= limit,
                forall|i: int|
                    0 <= i < idx.len() ==> {
                        &&& 0 <= #[trigger] idx[i] < m
                        &&& cand@[idx[i]]
                        &&& out@[i].0 == cats@[idx[i]].nombre
                        &&& out@[i].1 == cats@[idx[i]].color
                        &&& out@[i].2 == totals@[idx[i]]
                    },
                forall|k: int| 0 <= k < m ==> (#[trigger] taken@[k] <==> idx.contains(k)),
                forall|a: int, b: int| 0 <= a < b < out@.len() ==> #[trigger] out@[b].2 <= #[trigger] out@[a].2,
                forall|k: int|
                    0 <= k < m && cand@[k] && !taken@[k] && out@.len() > 0 ==> #[trigger] totals@[k]
                        <= out@.last().2,
            ensures
                exists|idx: Seq<int>| is_expense_ranking(cats@, txs@, limit, out@, idx),
            decreases m - out@.len(),
        {
            proof {
                lemma_distinct_below(idx, m as int);
            }
            if limit >= 0 && out.len() >= limit as usize {
                proof {
                    lemma_ranking_done(cats@, txs@, limit, out@, idx, totals@, cand@, taken@);
                }
                break;
            }
            let mut found = false;
            let mut b: usize = 0;
            let mut k: usize = 0;
            while k < m
                invariant
                    m == cats@.len(),
                    totals@.len() == m,
                    cand@.len() == m,
                    taken@.len() == m,
                    k <= m,
                    found ==> b < k && cand@[b as int] && !taken@[b as int],
                    forall|x: int| 0 <= x < k && #[trigger] cand@[x] && !taken@[x] ==> found,
                    forall|x: int|
                        0 <= x < k && cand@[x] && !taken@[x] ==> #[trigger] totals@[x] <= totals@[b as int],
                decreases m - k,
            {
                let ghost b0 = b;
                let ghost f0 = found;
                if cand[k] && !taken[k] {
                    if !found || totals[k] > totals[b] {
                        found = true;
                        b = k;
                    }
                }
                proof {
                    assert forall|x: int|
                        0 <= x < k + 1 && cand@[x] && !taken@[x] implies #[trigger] totals@[x]
                            <= totals@[b as int] by {
                        if x < k {
                            assert(totals@[x] <= totals@[b0 as int]);
                        }
                    }
                }
                k = k + 1;
            }
            if !found {
                proof {
                    assert forall|x: int| 0 <= x < m implies !(#[trigger] cand@[x] && !taken@[x]) by {}
                    lemma_ranking_done(cats@, txs@, limit, out@, idx, totals@, cand@, taken@);
                }
                break;
            }
            proof {
                if idx.contains(b as int) {
                    assert(taken@[b as int]);
                }
            }
            taken.set(b, true);
            let entry = (cats[b].nombre.clone(), cats[b].color.clone(), totals[b]);
            out.push(entry);
            proof {
                let old_idx = idx;
                idx = idx.push(b as int);
                assert forall|x: int| 0 <= x < m implies (#[trigger] taken@[x] <==> idx.contains(x)) by {
                    if old_idx.contains(x) {
                        let q = choose|q: int| 0 <= q < old_idx.len() && old_idx[q] == x;
                        assert(idx[q] == x);
                    }
                    if idx.contains(x) && x != b {
                        let q = choose|q: int| 0 <= q < idx.len() && idx[q] == x;
                        assert(old_idx[q] == x);
                    }
                    if x == b {
                        assert(idx[old_idx.len() as int] == x);
                    }
                }
                assert forall|p: int, q: int| 0 <= p < q < idx.len() implies idx[p] != idx[q] by {
                    if q == idx.len() - 1 {
                        assert(old_idx.contains(idx[p]));
                    }
                }
                lemma_distinct_below(idx, m as int);
            }
        }
        proof {
            let w = choose|w: Seq<int>| is_expense_ranking(cats@, txs@, limit, out@, w);
            assert(is_expense_ranking(categorias@, self@, limit, out@, w));
        }
        out
    }

    /// The sums and counts behind the per-retreat averages of balance, income
    /// and expense.
    pub fn get_estadisticas_por_retiro(&self) -> (r: EstadisticasRetiros)
        ensures
            r.suma_balances == amount_sum(self@, None, None),
            r.retiros_con_transacciones == retiros_con(self@, None).len(),
            r.suma_ingresos == amount_sum(self@, None, Some(TipoTransaccion::Ingreso)),
            r.retiros_con_ingresos == retiros_con(self@, Some(TipoTransaccion::Ingreso)).len(),
            r.suma_gastos == amount_sum(self@, None, Some(TipoTransaccion::Gasto)),
            r.retiros_con_gastos == retiros_con(self@, Some(TipoTransaccion::Gasto)).len(),
    {
        let rows = self.tabla.rows();
        EstadisticasRetiros {
            suma_balances: sum_amounts(rows, None, None),
            retiros_con_transacciones: count_retiros(rows, None),
            suma_ingresos: sum_amounts(rows, None, Some(TipoTransaccion::Ingreso)),
            retiros_con_ingresos: count_retiros(rows, Some(TipoTransaccion::Ingreso)),
            suma_gastos: sum_amounts(rows, None, Some(TipoTransaccion::Gasto)),
            retiros_con_gastos: count_retiros(rows, Some(TipoTransaccion::Gasto)),
        }
    }
}

/// The balance of a retreat with no kind given is its income balance less its
/// expense balance.
pub proof fn lemma_balance_is_income_less_expense(s: Seq<Transaccion>, r: u128)
    ensures
        balance(s, r, None) == balance(s, r, Some(TipoTransaccion::Ingreso)) - balance(
            s,
            r,
            Some(TipoTransaccion::Gasto),
        ),
    decreases s.len(),
{
    if s.len() > 0 {
        lemma_balance_is_income_less_expense(s.drop_last(), r);
    }
}

/// A retreat with no transactions has a balance of zero, with or without a
/// kind.
pub proof fn lemma_balance_of_empty_retreat(s: Seq<Transaccion>, r: u128, tipo: Option<TipoTransaccion>)
    requires
        of_retiro(s, r).len() == 0,
    ensures
        balance(s, r, tipo) == 0,
    decreases s.len(),
{
    if s.len() > 0 {
        let p = |t: Transaccion| t.retiro_id == r;
        reveal(Seq::filter);
        assert(s.drop_last().filter(p).len() <= s.filter(p).len());
        if s.last().retiro_id == r {
            assert(s.filter(p) == s.drop_last().filter(p).push(s.last()));
        }
        lemma_balance_of_empty_retreat(s.drop_last(), r, tipo);
    }
}

/// Where every transaction is an expense of one retreat, that retreat counts
/// toward the expense average and toward the balance average, and no retreat
/// counts toward the income average.
pub proof fn lemma_expense_only_retreat(s: Seq<Transaccion>, r: u128)
    requires
        s.len() > 0,
        forall|i: int|
            0 <= i < s.len() ==> #[trigger] s[i].retiro_id == r && s[i].tipo == TipoTransaccion::Gasto,
    ensures
        retiros_con(s, Some(TipoTransaccion::Ingreso)).len() == 0,
        retiros_con(s, Some(TipoTransaccion::Gasto)) == set![r],
        retiros_con(s, Some(TipoTransaccion::Gasto)).len() == 1,
        retiros_con(s, None).len() == 1,
{
    assert(s[0].retiro_id == r);
    assert(retiros_con(s, Some(TipoTransaccion::Ingreso)) =~= Set::<u128>::empty());
    assert(retiros_con(s, Some(TipoTransaccion::Gasto)) =~= set![r]);
    assert(retiros_con(s, None) =~= set![r]);
    assert(set![r].len() == 1) by {
        assert(set![r] == Set::<u128>::empty().insert(r));
    }
}

/// A transaction created from valid input under an identifier not yet in use
/// is what a lookup of that identifier then finds: the input's fields under
/// that identifier.
pub proof fn lemma_create_then_get(s: Seq<Transaccion>, id: u128, now: Timestamp, d: CreateTransaccion)
    requires
        valid_create_transaccion(d),
        !has_key(s, id),
    ensures
        lookup(s.push(transaccion_from(id, now, d)), id) == Some(transaccion_from(id, now, d)),
        transaccion_from(id, now, d).id == id,
        transaccion_from(id, now, d).retiro_id == d.retiro_id,
        transaccion_from(id, now, d).categoria_id == d.categoria_id,
        transaccion_from(id, now, d).tipo == d.tipo,
        transaccion_from(id, now, d).monto == d.monto,
        transaccion_from(id, now, d).descripcion == d.descripcion,
        transaccion_from(id, now, d).fecha == d.fecha,
{
    crate::tabla::lemma_insert_then_lookup(s, transaccion_from(id, now, d));
}

/// In a ranking with a limit other than zero, the first entry has the largest
/// expense total of all categories with expenses, and the ranking is empty only
/// where no category has expenses.
pub proof fn lemma_ranking_first_is_largest(
    cats: Seq<Categoria>,
    s: Seq<Transaccion>,
    limit: i32,
    r: Seq<(String, String, i128)>,
    idx: Seq<int>,
)
    requires
        is_expense_ranking(cats, s, limit, r, idx),
        limit != 0,
    ensures
        r.len() == 0 <==> (forall|j: int| 0 <= j < cats.len() ==> !has_expense(s, #[trigger] cats[j].id)),
        r.len() > 0 ==> forall|j: int|
            0 <= j < cats.len() && has_expense(s, #[trigger] cats[j].id) ==> category_expense(s, cats[j].id)
                <= r[0].2,
{
    if r.len() == 0 {
        assert forall|j: int| 0 <= j < cats.len() implies !has_expense(s, #[trigger] cats[j].id) by {
            if has_expense(s, cats[j].id) {
                assert(!idx.contains(j));
            }
        }
    } else {
        assert(has_expense(s, cats[idx[0]].id));
        assert forall|j: int| 0 <= j < cats.len() && has_expense(s, #[trigger] cats[j].id) implies category_expense(
            s,
            cats[j].id,
        ) <= r[0].2 by {
            if idx.contains(j) {
                let p = choose|p: int| 0 <= p < idx.len() && idx[p] == j;
                if p > 0 {
                    assert(r[p].2 <= r[0].2);
                }
            } else {
                if r.len() > 1 {
                    assert(r[r.len() - 1].2 <= r[0].2);
                }
            }
        }
    }
}

} // verus!
