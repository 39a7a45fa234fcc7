use vstd::prelude::*;

use crate::error::{AppError, Result};
use crate::fecha::Timestamp;
use crate::tabla::Fila;
use crate::text::same_text;

verus! {

/// Where a retreat stands. Any state may replace any other.
#[derive(Debug, Clone, Copy, PartialEq, Eq, Structural)]
pub enum EstadoRetiro {
    Planificacion,
    Activo,
    Finalizado,
}

/// The label under which a retreat state is stored.
pub open spec fn estado_label(e: EstadoRetiro) -> Seq<char> {
    match e {
        EstadoRetiro::Planificacion => seq![
            'P', 'l', 'a', 'n', 'i', 'f', 'i', 'c', 'a', 'c', 'i', 'o', 'n',
        ],
        EstadoRetiro::Activo => seq!['A', 'c', 't', 'i', 'v', 'o'],
        EstadoRetiro::Finalizado => seq!['F', 'i', 'n', 'a', 'l', 'i', 'z', 'a', 'd', 'o'],
    }
}

impl EstadoRetiro {
    /// The stored label: `Planificacion`, `Activo` or `Finalizado`.
    pub fn label(&self) -> (r: String)
        ensures
            r@ == estado_label(*self),
    {
        proof {
            reveal_strlit("Planificacion");
            reveal_strlit("Activo");
            reveal_strlit("Finalizado");
            assert("Planificacion"@ =~= estado_label(EstadoRetiro::Planificacion));
            assert("Activo"@ =~= estado_label(EstadoRetiro::Activo));
            assert("Finalizado"@ =~= estado_label(EstadoRetiro::Finalizado));
        }
        match self {
            EstadoRetiro::Planificacion => String::from_str("Planificacion"),
            EstadoRetiro::Activo => String::from_str("Activo"),
            EstadoRetiro::Finalizado => String::from_str("Finalizado"),
        }
    }

    /// The state stored under `s`, or `None` for a label of no state.
    pub fn from_label(s: &str) -> (r: Option<EstadoRetiro>)
        ensures
            r matches Some(e) ==> estado_label(e) == s@,
            r is None <==> (forall|e: EstadoRetiro| estado_label(e) != s@),
    {
        proof {
            reveal_strlit("Planificacion");
            reveal_strlit("Activo");
            reveal_strlit("Finalizado");
            assert("Planificacion"@ =~= estado_label(EstadoRetiro::Planificacion));
            assert("Activo"@ =~= estado_label(EstadoRetiro::Activo));
            assert("Finalizado"@ =~= estado_label(EstadoRetiro::Finalizado));
        }
        if same_text(s, "Planificacion") {
            Some(EstadoRetiro::Planificacion)
        } else if same_text(s, "Activo") {
            Some(EstadoRetiro::Activo)
        } else if same_text(s, "Finalizado") {
            Some(EstadoRetiro::Finalizado)
        } else {
            assert forall|e: EstadoRetiro| estado_label(e) != s@ by {
                match e {
                    EstadoRetiro::Planificacion => {},
                    EstadoRetiro::Activo => {},
                    EstadoRetiro::Finalizado => {},
                }
            }
            None
        }
    }
}

/// A copy of an optional text.
pub fn clone_opt(s: &Option<String>) -> (r: Option<String>)
    ensures
        r == *s,
{
    match s {
        Some(t) => Some(t.clone()),
        None => None,
    }
}

/// An optional text that is absent or holds at most `max` characters.
pub open spec fn opt_len_le(s: Option<String>, max: int) -> bool {
    match s {
        Some(t) => t@.len() <= max,
        None => true,
    }
}

/// A retreat. No order between its start and its end is required.
#[derive(Debug, PartialEq, Eq)]
pub struct Retiro {
    pub id: u128,
    pub nombre: String,
    pub descripcion: Option<String>,
    pub fecha_inicio: Timestamp,
    pub fecha_fin: Timestamp,
    pub ubicacion: Option<String>,
    pub numero_participantes: i32,
    pub estado: EstadoRetiro,
    pub created_at: Timestamp,
    pub updated_at: Timestamp,
}

impl Clone for Retiro {
    fn clone(&self) -> (r: Self)
        ensures
            r == *self,
    {
        Retiro {
            id: self.id,
            nombre: self.nombre.clone(),
            descripcion: clone_opt(&self.descripcion),
            fecha_inicio: self.fecha_inicio,
            fecha_fin: self.fecha_fin,
            ubicacion: clone_opt(&self.ubicacion),
            numero_participantes: self.numero_participantes,
            estado: self.estado,
            created_at: self.created_at,
            updated_at: self.updated_at,
        }
    }
}

impl Fila for Retiro {
    open spec fn key(&self) -> u128 {
        self.id
    }

    fn row_id(&self) -> (r: u128) {
        self.id
    }

    fn duplicate(&self) -> (r: Self) {
        self.clone()
    }
}

/// The fields of a retreat to be created, or to replace those of one.
#[derive(Debug, PartialEq, Eq)]
pub struct CreateRetiro {
    pub nombre: String,
    pub descripcion: Option<String>,
    pub fecha_inicio: Timestamp,
    pub fecha_fin: Timestamp,
    pub ubicacion: Option<String>,
    pub numero_participantes: i32,
}

impl Clone for CreateRetiro {
    fn clone(&self) -> (r: Self)
        ensures
            r == *self,
    {
        CreateRetiro {
            nombre: self.nombre.clone(),
            descripcion: clone_opt(&self.descripcion),
            fecha_inicio: self.fecha_inicio,
            fecha_fin: self.fecha_fin,
            ubicacion: clone_opt(&self.ubicacion),
            numero_participantes: self.numero_participantes,
        }
    }
}

/// A name of 1 to 200 characters, a description of at most 500, a location
/// of at most 200, and at least one participant.
pub open spec fn valid_create_retiro(d: CreateRetiro) -> bool {
    &&& 1 <= d.nombre@.len() <= 200
    &&& opt_len_le(d.descripcion, 500)
    &&& opt_len_le(d.ubicacion, 200)
    &&& d.numero_participantes >= 1
}

fn opt_len_at_most(s: &Option<String>, max: usize) -> (r: bool)
    ensures
        r == opt_len_le(*s, max as int),
{
    match s {
        Some(t) => t.as_str().unicode_len() <= max,
        None => true,
    }
}

impl CreateRetiro {
    /// Checks the field constraints.
    pub fn validate(&self) -> (r: Result<()>)
        ensures
            r is Ok <==> valid_create_retiro(*self),
            r matches Err(e) ==> e is Validation,
    {
        let n = self.nombre.as_str().unicode_len();
        if n < 1 || n > 200 {
            return Err(AppError::Validation(String::from_str("nombre: length must be 1 to 200")));
        }
        if !opt_len_at_most(&self.descripcion, 500) {
            return Err(AppError::Validation(String::from_str("descripcion: length must be at most 500")));
        }
        if !opt_len_at_most(&self.ubicacion, 200) {
            return Err(AppError::Validation(String::from_str("ubicacion: length must be at most 200")));
        }
        if self.numero_participantes < 1 {
            return Err(AppError::Validation(String::from_str("numero_participantes: must be at least 1")));
        }
        Ok(())
    }
}

impl Retiro {
    /// The retreat that `data` describes, under identifier `id`, created at
    /// `now`: it starts in planning, and was created and last updated at `now`.
    pub fn new(id: u128, now: Timestamp, data: CreateRetiro) -> (r: Retiro)
        ensures
            r.id == id,
            r.nombre == data.nombre,
            r.descripcion == data.descripcion,
            r.fecha_inicio == data.fecha_inicio,
            r.fecha_fin == data.fecha_fin,
            r.ubicacion == data.ubicacion,
            r.numero_participantes == data.numero_participantes,
            r.estado == EstadoRetiro::Planificacion,
            r.created_at == now,
            r.updated_at == now,
    {
        Retiro {
            id,
            nombre: data.nombre,
            descripcion: data.descripcion,
            fecha_inicio: data.fecha_inicio,
            fecha_fin: data.fecha_fin,
            ubicacion: data.ubicacion,
            numero_participantes: data.numero_participantes,
            estado: EstadoRetiro::Planificacion,
            created_at: now,
            updated_at: now,
        }
    }
}

} // verus!
