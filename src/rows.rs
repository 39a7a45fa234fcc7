use vstd::prelude::*;

use crate::categoria::{tipo_categoria_label, Categoria, TipoCategoria};
use crate::error::{AppError, Result};
use crate::fecha::{flexible_instant, parse_flexible_datetime, rfc3339_text, writable, Timestamp};
use crate::ident::{hyphenated, parse_uuid, uuid_text, uuid_value};
use crate::retiro::{estado_label, EstadoRetiro, Retiro};
use crate::transaccion::{tipo_transaccion_label, TipoTransaccion, Transaccion};

verus! {

/// A stored category as its columns hold it.
#[derive(Debug, PartialEq, Eq)]
pub struct CategoriaRow {
    pub id: String,
    pub nombre: String,
    pub tipo: String,
    pub color: String,
}

/// A stored retreat as its columns hold it.
#[derive(Debug, PartialEq, Eq)]
pub struct RetiroRow {
    pub id: String,
    pub nombre: String,
    pub descripcion: Option<String>,
    pub fecha_inicio: String,
    pub fecha_fin: String,
    pub ubicacion: Option<String>,
    pub numero_participantes: i64,
    pub estado: String,
    pub created_at: String,
    pub updated_at: String,
}

/// A stored transaction as its columns hold it, the amount in hundredths.
#[derive(Debug, PartialEq, Eq)]
pub struct TransaccionRow {
    pub id: String,
    pub retiro_id: String,
    pub categoria_id: String,
    pub tipo: String,
    pub monto: i64,
    pub descripcion: String,
    pub fecha: String,
    pub created_at: String,
    pub updated_at: String,
}

/// The category kind stored under `s`.
pub open spec fn tipo_categoria_of(s: Seq<char>) -> Option<TipoCategoria> {
    if s == tipo_categoria_label(TipoCategoria::Ingreso) {
        Some(TipoCategoria::Ingreso)
    } else if s == tipo_categoria_label(TipoCategoria::Gasto) {
        Some(TipoCategoria::Gasto)
    } else {
        None
    }
}

/// The transaction kind stored under `s`.
pub open spec fn tipo_transaccion_of(s: Seq<char>) -> Option<TipoTransaccion> {
    if s == tipo_transaccion_label(TipoTransaccion::Ingreso) {
        Some(TipoTransaccion::Ingreso)
    } else if s == tipo_transaccion_label(TipoTransaccion::Gasto) {
        Some(TipoTransaccion::Gasto)
    } else {
        None
    }
}

/// The retreat state stored under `s`.
pub open spec fn estado_of(s: Seq<char>) -> Option<EstadoRetiro> {
    if s == estado_label(EstadoRetiro::Planificacion) {
        Some(EstadoRetiro::Planificacion)
    } else if s == estado_label(EstadoRetiro::Activo) {
        Some(EstadoRetiro::Activo)
    } else if s == estado_label(EstadoRetiro::Finalizado) {
        Some(EstadoRetiro::Finalizado)
    } else {
        None
    }
}

/// The category that a row holds, where every column reads.
pub open spec fn categoria_of_row(row: CategoriaRow) -> Option<Categoria> {
    match (uuid_value(row.id@), tipo_categoria_of(row.tipo@)) {
        (Some(id), Some(tipo)) => Some(Categoria { id, nombre: row.nombre, tipo, color: row.color }),
        _ => None,
    }
}

/// The retreat that a row holds, where every column reads.
pub open spec fn retiro_of_row(row: RetiroRow) -> Option<Retiro> {
    if uuid_value(row.id@) is Some && flexible_instant(row.fecha_inicio@) is Some && flexible_instant(
        row.fecha_fin@,
    ) is Some && i32::MIN <= row.numero_participantes <= i32::MAX && estado_of(row.estado@) is Some
        && flexible_instant(row.created_at@) is Some && flexible_instant(row.updated_at@) is Some {
        Some(
            Retiro {
                id: uuid_value(row.id@)->0,
                nombre: row.nombre,
                descripcion: row.descripcion,
                fecha_inicio: flexible_instant(row.fecha_inicio@)->0,
                fecha_fin: flexible_instant(row.fecha_fin@)->0,
                ubicacion: row.ubicacion,
                numero_participantes: row.numero_participantes as i32,
                estado: estado_of(row.estado@)->0,
                created_at: flexible_instant(row.created_at@)->0,
                updated_at: flexible_instant(row.updated_at@)->0,
            },
        )
    } else {
        None
    }
}

/// The transaction that a row holds, where every column reads.
pub open spec fn transaccion_of_row(row: TransaccionRow) -> Option<Transaccion> {
    if uuid_value(row.id@) is Some && uuid_value(row.retiro_id@) is Some && uuid_value(
        row.categoria_id@,
    ) is Some && tipo_transaccion_of(row.tipo@) is Some && flexible_instant(row.fecha@) is Some
        && flexible_instant(row.created_at@) is Some && flexible_instant(row.updated_at@) is Some {
        Some(
            Transaccion {
                id: uuid_value(row.id@)->0,
                retiro_id: uuid_value(row.retiro_id@)->0,
                categoria_id: uuid_value(row.categoria_id@)->0,
                tipo: tipo_transaccion_of(row.tipo@)->0,
                monto: row.monto,
                descripcion: row.descripcion,
                fecha: flexible_instant(row.fecha@)->0,
                created_at: flexible_instant(row.created_at@)->0,
                updated_at: flexible_instant(row.updated_at@)->0,
            },
        )
    } else {
        None
    }
}

fn read_id(s: &String) -> (r: Result<u128>)
    ensures
        uuid_value(s@) matches Some(v) ==> r == Ok::<u128, AppError>(v),
        uuid_value(s@) is None ==> (r matches Err(e) && e is Internal),
{
    match parse_uuid(s.as_str()) {
        Some(v) => Ok(v),
        None => Err(AppError::Internal(String::from_str("invalid UUID"))),
    }
}

fn read_date(s: &String) -> (r: Result<Timestamp>)
    ensures
        flexible_instant(s@) matches Some(t) ==> r == Ok::<Timestamp, AppError>(t),
        flexible_instant(s@) is None ==> (r matches Err(e) && e is Internal),
{
    parse_flexible_datetime(s.as_str())
}

/// Reads a stored category. An identifier that is not a UUID, or a kind label
/// of no kind, is an internal error.
pub fn decode_categoria(row: &CategoriaRow) -> (r: Result<Categoria>)
    ensures
        categoria_of_row(*row) matches Some(c) ==> r == Ok::<Categoria, AppError>(c),
        categoria_of_row(*row) is None ==> (r matches Err(e) && e is Internal),
{
    let id = read_id(&row.id)?;
    let tipo = match TipoCategoria::from_label(row.tipo.as_str()) {
        Some(t) => t,
        None => {
            return Err(AppError::Internal(String::from_str("invalid tipo categoria")));
        },
    };
    Ok(Categoria { id, nombre: row.nombre.clone(), tipo, color: row.color.clone() })
}

/// Reads a stored retreat. An identifier that is not a UUID, a date in none of
/// the stored formats, a participant count beyond `i32`, or a state label of no
/// state is an internal error.
pub fn decode_retiro(row: &RetiroRow) -> (r: Result<Retiro>)
    ensures
        retiro_of_row(*row) matches Some(x) ==> r == Ok::<Retiro, AppError>(x),
        retiro_of_row(*row) is None ==> (r matches Err(e) && e is Internal),
{
    let id = read_id(&row.id)?;
    let fecha_inicio = read_date(&row.fecha_inicio)?;
    let fecha_fin = read_date(&row.fecha_fin)?;
    if row.numero_participantes < i32::MIN as i64 || row.numero_participantes > i32::MAX as i64 {
        return Err(AppError::Internal(String::from_str("participant count out of range")));
    }
    let estado = match EstadoRetiro::from_label(row.estado.as_str()) {
        Some(e) => e,
        None => {
            return Err(AppError::Internal(String::from_str("invalid estado retiro")));
        },
    };
    let created_at = read_date(&row.created_at)?;
    let updated_at = read_date(&row.updated_at)?;
    Ok(
        Retiro {
            id,
            nombre: row.nombre.clone(),
            descripcion: crate::retiro::clone_opt(&row.descripcion),
            fecha_inicio,
            fecha_fin,
            ubicacion: crate::retiro::clone_opt(&row.ubicacion),
            numero_participantes: row.numero_participantes as i32,
            estado,
            created_at,
            updated_at,
        },
    )
}

/// Reads a stored transaction. An identifier that is not a UUID, a kind label
/// of no kind, or a date in none of the stored formats is an internal error.
pub fn decode_transaccion(row: &TransaccionRow) -> (r: Result<Transaccion>)
    ensures
        transaccion_of_row(*row) matches Some(t) ==> r == Ok::<Transaccion, AppError>(t),
        transaccion_of_row(*row) is None ==> (r matches Err(e) && e is Internal),
{
    let id = read_id(&row.id)?;
    let retiro_id = read_id(&row.retiro_id)?;
    let categoria_id = read_id(&row.categoria_id)?;
    let tipo = match TipoTransaccion::from_label(row.tipo.as_str()) {
        Some(t) => t,
        None => {
            return Err(AppError::Internal(String::from_str("invalid tipo transaccion")));
        },
    };
    let fecha = read_date(&row.fecha)?;
    let created_at = read_date(&row.created_at)?;
    let updated_at = read_date(&row.updated_at)?;
    Ok(
        Transaccion {
            id,
            retiro_id,
            categoria_id,
            tipo,
            monto: row.monto,
            descripcion: row.descripcion.clone(),
            fecha,
            created_at,
            updated_at,
        },
    )
}

/// The stored text of an identifier: its hyphenated lower-case UUID form,
/// which reads back as the same identifier.
pub fn encode_id(id: u128) -> (r: String)
    ensures
        r@ == hyphenated(id),
        uuid_value(r@) == Some(id),
{
    uuid_text(id)
}

fn write_date(t: Timestamp) -> (r: Result<String>)
    ensures
        writable(t) ==> (r matches Ok(s) && flexible_instant(s@) == Some(t)),
        r matches Err(e) ==> e is Internal,
{
    match rfc3339_text(t) {
        Some(s) => Ok(s),
        None => Err(AppError::Internal(String::from_str("date out of range"))),
    }
}

/// The columns of a category. Reading them back gives the same category.
pub fn encode_categoria(c: &Categoria) -> (r: CategoriaRow)
    ensures
        categoria_of_row(r) == Some(*c),
{
    let row = CategoriaRow { id: encode_id(c.id), nombre: c.nombre.clone(), tipo: c.tipo.label(), color: c.color.clone() };
    assert(tipo_categoria_of(row.tipo@) == Some(c.tipo));
    row
}

/// The columns of a retreat, dates as RFC 3339 text. Every instant of the
/// years 0000 to 9999 can be written; another is an internal error. Reading
/// the columns back gives the same retreat, every date to the nanosecond.
pub fn encode_retiro(x: &Retiro) -> (r: Result<RetiroRow>)
    ensures
        writable(x.fecha_inicio) && writable(x.fecha_fin) && writable(x.created_at) && writable(
            x.updated_at,
        ) ==> (r matches Ok(row) && retiro_of_row(row) == Some(*x)),
        r matches Err(e) ==> e is Internal,
{
    let row = RetiroRow {
        id: encode_id(x.id),
        nombre: x.nombre.clone(),
        descripcion: crate::retiro::clone_opt(&x.descripcion),
        fecha_inicio: write_date(x.fecha_inicio)?,
        fecha_fin: write_date(x.fecha_fin)?,
        ubicacion: crate::retiro::clone_opt(&x.ubicacion),
        numero_participantes: x.numero_participantes as i64,
        estado: x.estado.label(),
        created_at: write_date(x.created_at)?,
        updated_at: write_date(x.updated_at)?,
    };
    assert(estado_of(row.estado@) == Some(x.estado));
    proof {
        if writable(x.fecha_inicio) && writable(x.fecha_fin) && writable(x.created_at) && writable(x.updated_at) {
            assert(retiro_of_row(row) == Some(*x));
        }
    }
    Ok(row)
}

/// The columns of a transaction, dates as RFC 3339 text and the amount in
/// hundredths. Every instant of the years 0000 to 9999 can be written; another
/// is an internal error. Reading the columns back gives the same transaction,
/// every date to the nanosecond.
pub fn encode_transaccion(t: &Transaccion) -> (r: Result<TransaccionRow>)
    ensures
        writable(t.fecha) && writable(t.created_at) && writable(t.updated_at) ==> (r matches Ok(row)
            && transaccion_of_row(row) == Some(*t)),
        r matches Err(e) ==> e is Internal,
{
    let row = TransaccionRow {
        id: encode_id(t.id),
        retiro_id: encode_id(t.retiro_id),
        categoria_id: encode_id(t.categoria_id),
        tipo: t.tipo.label(),
        monto: t.monto,
        descripcion: t.descripcion.clone(),
        fecha: write_date(t.fecha)?,
        created_at: write_date(t.created_at)?,
        updated_at: write_date(t.updated_at)?,
    };
    assert(tipo_transaccion_of(row.tipo@) == Some(t.tipo));
    proof {
        if writable(t.fecha) && writable(t.created_at) && writable(t.updated_at) {
            assert(transaccion_of_row(row) == Some(*t));
        }
    }
    Ok(row)
}

} // verus!
