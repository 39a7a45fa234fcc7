//! Record keeping for retreats: categories of income and expense, retreats and
//! the transactions booked against them, with validation of inputs, in-memory
//! tables keyed by identifier, and the balance and statistics queries.
pub mod error;
pub mod text;
pub mod fecha;
pub mod tabla;
pub mod orden;
pub mod ident;
pub mod categoria;
pub mod categoria_repository;
pub mod retiro;
pub mod retiro_repository;
pub mod transaccion;
pub mod transaccion_repository;
pub mod rows;

pub use categoria::{CreateCategoria, Categoria, TipoCategoria};
pub use categoria_repository::CategoriaRepository;
pub use error::{AppError, Result};
pub use fecha::{parse_datetime, parse_flexible_datetime, Timestamp};
pub use retiro::{CreateRetiro, EstadoRetiro, Retiro};
pub use retiro_repository::RetiroRepository;
pub use rows::{
    decode_categoria, decode_retiro, decode_transaccion, encode_categoria, encode_id, encode_retiro, encode_transaccion, CategoriaRow, RetiroRow, TransaccionRow};
pub use transaccion::{CreateTransaccion, TipoTransaccion, Transaccion};
pub use transaccion_repository::{EstadisticasRetiros, TransaccionRepository};
