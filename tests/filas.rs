use retiros::{
    encode_categoria, encode_retiro, encode_transaccion, decode_categoria, decode_retiro, decode_transaccion, parse_flexible_datetime, AppError, CategoriaRow,
    EstadoRetiro, RetiroRow, TipoCategoria, TipoTransaccion, Timestamp, TransaccionRow,
};

const ID: &str = "67e55044-10b1-426f-9247-bb680e5fe0c8";
const OTHER: &str = "a1a2a3a4-b1b2-c1c2-d1d2-d3d4d5d6d7d8";

#[test]
fn parses_rfc3339_with_offset_as_utc() {
    let t = parse_flexible_datetime("2024-03-01T02:00:00+02:00").unwrap();
    assert_eq!(t, Timestamp { secs: 1709251200, nanos: 0 });
    let z = parse_flexible_datetime("2024-03-01T00:00:00.5Z").unwrap();
    assert_eq!(z, Timestamp { secs: 1709251200, nanos: 500_000_000 });
}

#[test]
fn parses_naive_storage_formats() {
    let t = parse_flexible_datetime("2024-03-01 00:00:00").unwrap();
    assert_eq!(t, Timestamp { secs: 1709251200, nanos: 0 });
    let f = parse_flexible_datetime("2024-03-01 00:00:01.250000").unwrap();
    assert_eq!(f, Timestamp { secs: 1709251201, nanos: 250_000_000 });
}

#[test]
fn rejects_unknown_date_formats() {
    assert!(matches!(parse_flexible_datetime("01/03/2024"), Err(AppError::Internal(_))));
    assert!(matches!(parse_flexible_datetime(""), Err(AppError::Internal(_))));
    assert!(matches!(parse_flexible_datetime("2024-03-01"), Err(AppError::Internal(_))));
}

#[test]
fn written_dates_read_back_to_the_second() {
    for secs in [0i64, 1709251200, 1709596800, 4102444799] {
        let written = chrono::DateTime::from_timestamp(secs, 123_456_789).unwrap().to_rfc3339();
        let read = parse_flexible_datetime(&written).unwrap();
        assert_eq!(read.secs, secs);
    }
    let now = chrono::Utc::now();
    let read = parse_flexible_datetime(&now.to_rfc3339()).unwrap();
    assert_eq!(read.secs, now.timestamp());
}

#[test]
fn decodes_a_category_row() {
    let row = CategoriaRow { id: ID.to_string(), nombre: "Lodging".to_string(), tipo: "Gasto".to_string(), color: "#FF5733".to_string() };
    let c = decode_categoria(&row).unwrap();
    assert_eq!(c.id, uuid::Uuid::parse_str(ID).unwrap().as_u128());
    assert_eq!(c.id, 0x67e5504410b1426f9247bb680e5fe0c8);
    assert_eq!(c.tipo, TipoCategoria::Gasto);
    assert_eq!(c.nombre, "Lodging");
    let bad_id = CategoriaRow { id: "not-a-uuid".to_string(), ..row };
    assert!(matches!(decode_categoria(&bad_id), Err(AppError::Internal(_))));
    let bad_kind = CategoriaRow { id: ID.to_string(), nombre: "x".to_string(), tipo: "Otro".to_string(), color: "#000000".to_string() };
    assert!(matches!(decode_categoria(&bad_kind), Err(AppError::Internal(_))));
}

fn retiro_row() -> RetiroRow {
    RetiroRow {
        id: ID.to_string(),
        nombre: "Spring Retreat".to_string(),
        descripcion: Some("Yearly".to_string()),
        fecha_inicio: "2024-03-01T00:00:00+00:00".to_string(),
        fecha_fin: "2024-03-05 00:00:00".to_string(),
        ubicacion: None,
        numero_participantes: 25,
        estado: "Activo".to_string(),
        created_at: "2024-02-01 10:00:00.123456".to_string(),
        updated_at: "2024-02-01T10:00:00Z".to_string(),
    }
}

#[test]
fn decodes_a_retreat_row_in_mixed_date_formats() {
    let r = decode_retiro(&retiro_row()).unwrap();
    assert_eq!(r.fecha_inicio, Timestamp { secs: 1709251200, nanos: 0 });
    assert_eq!(r.fecha_fin, Timestamp { secs: 1709596800, nanos: 0 });
    assert_eq!(r.estado, EstadoRetiro::Activo);
    assert_eq!(r.created_at, Timestamp { secs: 1706781600, nanos: 123_456_000 });
    assert_eq!(r.updated_at, Timestamp { secs: 1706781600, nanos: 0 });
    assert_eq!(r.descripcion, Some("Yearly".to_string()));
    assert_eq!(r.numero_participantes, 25);
}

#[test]
fn retreat_row_errors_are_internal() {
    let bad_state = RetiroRow { estado: "Cancelado".to_string(), ..retiro_row() };
    assert!(matches!(decode_retiro(&bad_state), Err(AppError::Internal(_))));
    let bad_date = RetiroRow { fecha_fin: "mañana".to_string(), ..retiro_row() };
    assert!(matches!(decode_retiro(&bad_date), Err(AppError::Internal(_))));
    let too_many = RetiroRow { numero_participantes: 1 << 40, ..retiro_row() };
    assert!(matches!(decode_retiro(&too_many), Err(AppError::Internal(_))));
}

#[test]
fn decodes_a_transaction_row() {
    let row = TransaccionRow {
        id: ID.to_string(),
        retiro_id: OTHER.to_string(),
        categoria_id: ID.to_string(),
        tipo: "Ingreso".to_string(),
        monto: 50000,
        descripcion: "Fees".to_string(),
        fecha: "2024-03-02 09:30:00".to_string(),
        created_at: "2024-03-02T09:30:00+00:00".to_string(),
        updated_at: "2024-03-02T09:30:00+00:00".to_string(),
    };
    let t = decode_transaccion(&row).unwrap();
    assert_eq!(t.retiro_id, 0xa1a2a3a4b1b2c1c2d1d2d3d4d5d6d7d8);
    assert_eq!(t.tipo, TipoTransaccion::Ingreso);
    assert_eq!(t.monto, 50000);
    assert_eq!(t.fecha, Timestamp { secs: 1709371800, nanos: 0 });
    let bad = TransaccionRow { tipo: "ingreso".to_string(), ..row };
    assert!(matches!(decode_transaccion(&bad), Err(AppError::Internal(_))));
}

#[test]
fn parses_dates_typed_by_users() {
    assert_eq!(retiros::parse_datetime("2024-03-01").unwrap(), Timestamp { secs: 1709251200, nanos: 0 });
    assert_eq!(retiros::parse_datetime("2024-03-01 01:00:00").unwrap(), Timestamp { secs: 1709254800, nanos: 0 });
    assert!(matches!(retiros::parse_datetime("2024-03-01T00:00:00Z"), Err(AppError::Validation(_))));
    assert!(matches!(retiros::parse_datetime("marzo"), Err(AppError::Validation(_))));
}

#[test]
fn identifiers_are_written_hyphenated() {
    assert_eq!(retiros::encode_id(0x67e5504410b1426f9247bb680e5fe0c8), ID);
    assert_eq!(retiros::encode_id(0), "00000000-0000-0000-0000-000000000000");
}

#[test]
fn written_rows_read_back_unchanged() {
    let r = decode_retiro(&retiro_row()).unwrap();
    let row = encode_retiro(&r).unwrap();
    assert_eq!(row.fecha_fin, "2024-03-05T00:00:00+00:00");
    assert_eq!(row.created_at, "2024-02-01T10:00:00.123456+00:00");
    assert_eq!(row.estado, "Activo");
    assert_eq!(row.id, ID);
    assert_eq!(decode_retiro(&row).unwrap(), r);
    let c = decode_categoria(&CategoriaRow { id: OTHER.to_string(), nombre: "Food".to_string(), tipo: "Ingreso".to_string(), color: "#123456".to_string() }).unwrap();
    assert_eq!(decode_categoria(&encode_categoria(&c)).unwrap(), c);
    let t = retiros::Transaccion {
        id: 1,
        retiro_id: 2,
        categoria_id: 3,
        tipo: TipoTransaccion::Gasto,
        monto: 12050,
        descripcion: "Cabin rental".to_string(),
        fecha: Timestamp { secs: 1709251200, nanos: 7 },
        created_at: Timestamp { secs: -62167219200, nanos: 0 },
        updated_at: Timestamp { secs: 253402300799, nanos: 999_999_999 },
    };
    let row = encode_transaccion(&t).unwrap();
    assert_eq!(row.tipo, "Gasto");
    assert_eq!(decode_transaccion(&row).unwrap(), t);
}

#[test]
fn dates_out_of_chrono_range_are_not_written() {
    let mut r = decode_retiro(&retiro_row()).unwrap();
    r.fecha_fin = Timestamp { secs: i64::MAX, nanos: 0 };
    assert!(matches!(encode_retiro(&r), Err(AppError::Internal(_))));
}
