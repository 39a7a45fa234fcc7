use vstd::prelude::*;

use crate::error::{AppError, Result};
use crate::fecha::Timestamp;
use crate::tabla::Fila;
use crate::text::same_text;

verus! {

/// Whether a transaction brings money in or takes it out. It need not agree
/// with the kind of the category it is booked under.
#[derive(Debug, Clone, Copy, PartialEq, Eq, Structural)]
pub enum TipoTransaccion {
    Ingreso,
    Gasto,
}

/// The label under which a transaction kind is stored.
pub open spec fn tipo_transaccion_label(t: TipoTransaccion) -> Seq<char> {
    match t {
        TipoTransaccion::Ingreso => seq!['I', 'n', 'g', 'r', 'e', 's', 'o'],
        TipoTransaccion::Gasto => seq!['G', 'a', 's', 't', 'o'],
    }
}

impl TipoTransaccion {
    /// The stored label: `Ingreso` or `Gasto`.
    pub fn label(&self) -> (r: String)
        ensures
            r@ == tipo_transaccion_label(*self),
    {
        proof {
            reveal_strlit("Ingreso");
            reveal_strlit("Gasto");
            assert("Ingreso"@ =~= tipo_transaccion_label(TipoTransaccion::Ingreso));
            assert("Gasto"@ =~= tipo_transaccion_label(TipoTransaccion::Gasto));
        }
        match self {
            TipoTransaccion::Ingreso => String::from_str("Ingreso"),
            TipoTransaccion::Gasto => String::from_str("Gasto"),
        }
    }

    /// The kind stored under `s`, or `None` for a label of no kind.
    pub fn from_label(s: &str) -> (r: Option<TipoTransaccion>)
        ensures
            r matches Some(t) ==> tipo_transaccion_label(t) == s@,
            r is None <==> (forall|t: TipoTransaccion| tipo_transaccion_label(t) != s@),
    {
        proof {
            reveal_strlit("Ingreso");
            reveal_strlit("Gasto");
            assert("Ingreso"@ =~= tipo_transaccion_label(TipoTransaccion::Ingreso));
            assert("Gasto"@ =~= tipo_transaccion_label(TipoTransaccion::Gasto));
        }
        if same_text(s, "Ingreso") {
            Some(TipoTransaccion::Ingreso)
        } else if same_text(s, "Gasto") {
            Some(TipoTransaccion::Gasto)
        } else {
            assert forall|t: TipoTransaccion| tipo_transaccion_label(t) != s@ by {
                match t {
                    TipoTransaccion::Ingreso => {},
                    TipoTransaccion::Gasto => {},
                }
            }
            None
        }
    }
}

/// A movement of money booked against a retreat under a category. The amount
/// is in hundredths of the currency unit.
#[derive(Debug, PartialEq, Eq)]
pub struct Transaccion {
    pub id: u128,
    pub retiro_id: u128,
    pub categoria_id: u128,
    pub tipo: TipoTransaccion,
    pub monto: i64,
    pub descripcion: String,
    pub fecha: Timestamp,
    pub created_at: Timestamp,
    pub updated_at: Timestamp,
}

impl Clone for Transaccion {
    fn clone(&self) -> (r: Self)
        ensures
            r == *self,
    {
        Transaccion {
            id: self.id,
            retiro_id: self.retiro_id,
            categoria_id: self.categoria_id,
            tipo: self.tipo,
            monto: self.monto,
            descripcion: self.descripcion.clone(),
            fecha: self.fecha,
            created_at: self.created_at,
            updated_at: self.updated_at,
        }
    }
}

impl Fila for Transaccion {
    open spec fn key(&self) -> u128 {
        self.id
    }

    fn row_id(&self) -> (r: u128) {
        self.id
    }

    fn duplicate(&self) -> (r: Self) {
        self.clone()
    }
}

/// The fields of a transaction to be created. The amount is in hundredths of
/// the currency unit.
#[derive(Debug, PartialEq, Eq)]
pub struct CreateTransaccion {
    pub retiro_id: u128,
    pub categoria_id: u128,
    pub tipo: TipoTransaccion,
    pub monto: i64,
    pub descripcion: String,
    pub fecha: Timestamp,
}

impl Clone for CreateTransaccion {
    fn clone(&self) -> (r: Self)
        ensures
            r == *self,
    {
        CreateTransaccion {
            retiro_id: self.retiro_id,
            categoria_id: self.categoria_id,
            tipo: self.tipo,
            monto: self.monto,
            descripcion: self.descripcion.clone(),
            fecha: self.fecha,
        }
    }
}

/// An amount of at least one hundredth and a description of 1 to 300
/// characters.
pub open spec fn valid_create_transaccion(d: CreateTransaccion) -> bool {
    &&& d.monto >= 1
    &&& 1 <= d.descripcion@.len() <= 300
}

impl CreateTransaccion {
    /// Checks the field constraints.
    pub fn validate(&self) -> (r: Result<()>)
        ensures
            r is Ok <==> valid_create_transaccion(*self),
            r matches Err(e) ==> e is Validation,
    {
        if self.monto < 1 {
            return Err(AppError::Validation(String::from_str("monto: must be at least 0.01")));
        }
        let n = self.descripcion.as_str().unicode_len();
        if n < 1 || n > 300 {
            return Err(AppError::Validation(String::from_str("descripcion: length must be 1 to 300")));
        }
        Ok(())
    }
}

impl Transaccion {
    /// The transaction that `data` describes, under identifier `id`, created and
    /// last updated at `now`.
    pub fn new(id: u128, now: Timestamp, data: CreateTransaccion) -> (r: Transaccion)
        ensures
            r.id == id,
            r.retiro_id == data.retiro_id,
            r.categoria_id == data.categoria_id,
            r.tipo == data.tipo,
            r.monto == data.monto,
            r.descripcion == data.descripcion,
            r.fecha == data.fecha,
            r.created_at == now,
            r.updated_at == now,
    {
        Transaccion {
            id,
            retiro_id: data.retiro_id,
            categoria_id: data.categoria_id,
            tipo: data.tipo,
            monto: data.monto,
            descripcion: data.descripcion,
            fecha: data.fecha,
            created_at: now,
            updated_at: now,
        }
    }
}

} // verus!
