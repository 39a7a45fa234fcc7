use vstd::prelude::*;

use crate::error::{AppError, Result};
use crate::tabla::Fila;
use crate::text::same_text;

verus! {

/// Whether a category collects income or expense.
#[derive(Debug, Clone, Copy, PartialEq, Eq, Structural)]
pub enum TipoCategoria {
    Ingreso,
    Gasto,
}

/// The label under which a category kind is stored.
pub open spec fn tipo_categoria_label(t: TipoCategoria) -> Seq<char> {
    match t {
        TipoCategoria::Ingreso => seq!['I', 'n', 'g', 'r', 'e', 's', 'o'],
        TipoCategoria::Gasto => seq!['G', 'a', 's', 't', 'o'],
    }
}

impl TipoCategoria {
    /// The stored label: `Ingreso` or `Gasto`.
    pub fn label(&self) -> (r: String)
        ensures
            r@ == tipo_categoria_label(*self),
    {
        proof {
            reveal_strlit("Ingreso");
            reveal_strlit("Gasto");
            assert("Ingreso"@ =~= tipo_categoria_label(TipoCategoria::Ingreso));
            assert("Gasto"@ =~= tipo_categoria_label(TipoCategoria::Gasto));
        }
        match self {
            TipoCategoria::Ingreso => String::from_str("Ingreso"),
            TipoCategoria::Gasto => String::from_str("Gasto"),
        }
    }
}

impl TipoCategoria {
    /// The kind stored under `s`, or `None` for a label of no kind.
    pub fn from_label(s: &str) -> (r: Option<TipoCategoria>)
        ensures
            r matches Some(t) ==> tipo_categoria_label(t) == s@,
            r is None <==> (forall|t: TipoCategoria| tipo_categoria_label(t) != s@),
    {
        proof {
            reveal_strlit("Ingreso");
            reveal_strlit("Gasto");
            assert("Ingreso"@ =~= tipo_categoria_label(TipoCategoria::Ingreso));
            assert("Gasto"@ =~= tipo_categoria_label(TipoCategoria::Gasto));
        }
        if same_text(s, "Ingreso") {
            Some(TipoCategoria::Ingreso)
        } else if same_text(s, "Gasto") {
            Some(TipoCategoria::Gasto)
        } else {
            assert forall|t: TipoCategoria| tipo_categoria_label(t) != s@ by {
                match t {
                    TipoCategoria::Ingreso => {},
                    TipoCategoria::Gasto => {},
                }
            }
            None
        }
    }
}

/// A category of income or expense.
#[derive(Debug, PartialEq, Eq)]
pub struct Categoria {
    pub id: u128,
    pub nombre: String,
    pub tipo: TipoCategoria,
    /// Expected as `#RRGGBB`; only its length is checked.
    pub color: String,
}

impl Clone for Categoria {
    fn clone(&self) -> (r: Self)
        ensures
            r == *self,
    {
        Categoria {
            id: self.id,
            nombre: self.nombre.clone(),
            tipo: self.tipo,
            color: self.color.clone(),
        }
    }
}

impl Fila for Categoria {
    open spec fn key(&self) -> u128 {
        self.id
    }

    fn row_id(&self) -> (r: u128) {
        self.id
    }

    fn duplicate(&self) -> (r: Self) {
        self.clone()
    }
}

/// The fields of a category to be created, or to replace those of one.
#[derive(Debug, PartialEq, Eq)]
pub struct CreateCategoria {
    pub nombre: String,
    pub tipo: TipoCategoria,
    pub color: String,
}

impl Clone for CreateCategoria {
    fn clone(&self) -> (r: Self)
        ensures
            r == *self,
    {
        CreateCategoria { nombre: self.nombre.clone(), tipo: self.tipo, color: self.color.clone() }
    }
}

/// A name of 1 to 100 characters and a color of exactly 7.
pub open spec fn valid_create_categoria(d: CreateCategoria) -> bool {
    &&& 1 <= d.nombre@.len() <= 100
    &&& d.color@.len() == 7
}

impl CreateCategoria {
    /// Checks the field constraints.
    pub fn validate(&self) -> (r: Result<()>)
        ensures
            r is Ok <==> valid_create_categoria(*self),
            r matches Err(e) ==> e is Validation,
    {
        let n = self.nombre.as_str().unicode_len();
        if n < 1 || n > 100 {
            return Err(AppError::Validation(String::from_str("nombre: length must be 1 to 100")));
        }
        if self.color.as_str().unicode_len() != 7 {
            return Err(AppError::Validation(String::from_str("color: length must be 7")));
        }
        Ok(())
    }
}

impl Categoria {
    /// The category that `data` describes, under identifier `id`.
    pub fn new(id: u128, data: CreateCategoria) -> (r: Categoria)
        ensures
            r.id == id,
            r.nombre == data.nombre,
            r.tipo == data.tipo,
            r.color == data.color,
    {
        Categoria { id, nombre: data.nombre, tipo: data.tipo, color: data.color }
    }
}

} // verus!
