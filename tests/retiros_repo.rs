use retiros::{parse_flexible_datetime, AppError, CreateRetiro, EstadoRetiro, RetiroRepository, Timestamp};

fn fecha(s: &str) -> Timestamp {
    parse_flexible_datetime(s).unwrap()
}

fn datos(nombre: &str, inicio: &str, fin: &str, participantes: i32) -> CreateRetiro {
    CreateRetiro {
        nombre: nombre.to_string(),
        descripcion: None,
        fecha_inicio: fecha(inicio),
        fecha_fin: fecha(fin),
        ubicacion: None,
        numero_participantes: participantes,
    }
}

#[test]
fn spring_retreat_starts_in_planning() {
    let mut repo = RetiroRepository::new();
    let r = repo.create(datos("Spring Retreat", "2024-03-01 00:00:00", "2024-03-05 00:00:00", 25)).unwrap();
    assert_eq!(r.estado, EstadoRetiro::Planificacion);
    assert_eq!(r.nombre, "Spring Retreat");
    assert_eq!(r.fecha_inicio, Timestamp { secs: 1709251200, nanos: 0 });
    assert_eq!(r.fecha_fin, Timestamp { secs: 1709596800, nanos: 0 });
    assert_eq!(r.numero_participantes, 25);
    assert_eq!(r.created_at, r.updated_at);
    assert_eq!(repo.get_by_id(r.id), Some(r));
}

#[test]
fn create_retreat_at_given_time() {
    let mut repo = RetiroRepository::new();
    let now = Timestamp { secs: 1000, nanos: 5 };
    let r = repo.create_with_id(9, now, datos("A", "2024-01-01 00:00:00", "2024-01-02 00:00:00", 1)).unwrap();
    assert_eq!(r.id, 9);
    assert_eq!(r.created_at, now);
    assert_eq!(r.updated_at, now);
    let dup = repo.create_with_id(9, now, datos("B", "2024-01-01 00:00:00", "2024-01-02 00:00:00", 1));
    assert!(matches!(dup, Err(AppError::Storage(_))));
}

#[test]
fn retreat_validation_errors() {
    let mut repo = RetiroRepository::new();
    let none = datos("X", "2024-01-01 00:00:00", "2024-01-02 00:00:00", 0);
    assert!(matches!(repo.create(none), Err(AppError::Validation(_))));
    let empty = datos("", "2024-01-01 00:00:00", "2024-01-02 00:00:00", 3);
    assert!(matches!(repo.create(empty), Err(AppError::Validation(_))));
    let mut long_desc = datos("X", "2024-01-01 00:00:00", "2024-01-02 00:00:00", 3);
    long_desc.descripcion = Some("d".repeat(501));
    assert!(matches!(repo.create(long_desc), Err(AppError::Validation(_))));
    let mut long_loc = datos("X", "2024-01-01 00:00:00", "2024-01-02 00:00:00", 3);
    long_loc.ubicacion = Some("u".repeat(201));
    assert!(matches!(repo.create(long_loc), Err(AppError::Validation(_))));
    let mut ok = datos(&"n".repeat(200), "2024-01-01 00:00:00", "2024-01-02 00:00:00", 1);
    ok.descripcion = Some("d".repeat(500));
    ok.ubicacion = Some("u".repeat(200));
    assert!(repo.create(ok).is_ok());
    assert_eq!(repo.get_all().len(), 1);
}

#[test]
fn listings_are_latest_start_first() {
    let mut repo = RetiroRepository::new();
    let t = Timestamp { secs: 0, nanos: 0 };
    repo.create_with_id(1, t, datos("Winter Camp", "2024-01-10 00:00:00", "2024-01-12 00:00:00", 10)).unwrap();
    repo.create_with_id(2, t, datos("Summer Camp", "2024-07-10 00:00:00", "2024-07-12 00:00:00", 20)).unwrap();
    repo.create_with_id(3, t, datos("Spring Retreat", "2024-03-01 00:00:00", "2024-03-05 00:00:00", 25)).unwrap();
    let ids: Vec<u128> = repo.get_all().into_iter().map(|r| r.id).collect();
    assert_eq!(ids, vec![2, 3, 1]);
    let found: Vec<u128> = repo.search_by_name("CAMP").into_iter().map(|r| r.id).collect();
    assert_eq!(found, vec![2, 1]);
    assert!(repo.search_by_name("autumn").is_empty());
    assert_eq!(repo.search_by_name("").len(), 3);
    assert_eq!(repo.get_total_participantes(), 55);
}

#[test]
fn state_changes_and_filters() {
    let mut repo = RetiroRepository::new();
    let t = Timestamp { secs: 0, nanos: 0 };
    repo.create_with_id(1, t, datos("A", "2024-01-10 00:00:00", "2024-01-12 00:00:00", 10)).unwrap();
    repo.create_with_id(2, t, datos("B", "2024-07-10 00:00:00", "2024-07-12 00:00:00", 20)).unwrap();
    repo.create_with_id(3, t, datos("C", "2024-03-01 00:00:00", "2024-03-05 00:00:00", 25)).unwrap();
    let later = Timestamp { secs: 50, nanos: 0 };
    let r = repo.update_estado_at(1, later, EstadoRetiro::Activo).unwrap();
    assert_eq!(r.estado, EstadoRetiro::Activo);
    assert_eq!(r.updated_at, later);
    assert_eq!(r.created_at, t);
    repo.update_estado_at(3, later, EstadoRetiro::Activo).unwrap();
    assert_eq!(repo.update_estado_at(4, later, EstadoRetiro::Activo), None);
    let activos: Vec<u128> = repo.get_activos().into_iter().map(|r| r.id).collect();
    assert_eq!(activos, vec![3, 1]);
    assert_eq!(repo.count_by_estado(EstadoRetiro::Activo), 2);
    assert_eq!(repo.count_by_estado(EstadoRetiro::Planificacion), 1);
    let back = repo.update_estado(1, EstadoRetiro::Planificacion).unwrap();
    assert_eq!(back.estado, EstadoRetiro::Planificacion);
}

#[test]
fn finished_retreats_latest_end_first() {
    let mut repo = RetiroRepository::new();
    let t = Timestamp { secs: 0, nanos: 0 };
    repo.create_with_id(1, t, datos("A", "2024-01-10 00:00:00", "2024-01-12 00:00:00", 10)).unwrap();
    repo.create_with_id(2, t, datos("B", "2024-07-10 00:00:00", "2024-07-12 00:00:00", 20)).unwrap();
    repo.create_with_id(3, t, datos("C", "2024-03-01 00:00:00", "2024-03-05 00:00:00", 25)).unwrap();
    repo.create_with_id(4, t, datos("D", "2024-05-01 00:00:00", "2024-05-05 00:00:00", 5)).unwrap();
    for id in [1u128, 2, 3] {
        repo.update_estado_at(id, t, EstadoRetiro::Finalizado).unwrap();
    }
    let ids: Vec<u128> = repo.get_finalizados_recientes(2).into_iter().map(|r| r.id).collect();
    assert_eq!(ids, vec![2, 3]);
    assert_eq!(repo.get_finalizados_recientes(10).len(), 3);
    assert!(repo.get_finalizados_recientes(0).is_empty());
}

#[test]
fn update_keeps_state_and_creation_time() {
    let mut repo = RetiroRepository::new();
    let t0 = Timestamp { secs: 10, nanos: 0 };
    let t1 = Timestamp { secs: 20, nanos: 0 };
    repo.create_with_id(1, t0, datos("A", "2024-01-10 00:00:00", "2024-01-12 00:00:00", 10)).unwrap();
    repo.update_estado_at(1, t0, EstadoRetiro::Activo).unwrap();
    let mut nuevo = datos("A2", "2024-02-10 00:00:00", "2024-02-12 00:00:00", 12);
    nuevo.ubicacion = Some("Hills".to_string());
    let r = repo.update_at(1, t1, nuevo).unwrap().unwrap();
    assert_eq!(r.nombre, "A2");
    assert_eq!(r.ubicacion, Some("Hills".to_string()));
    assert_eq!(r.numero_participantes, 12);
    assert_eq!(r.estado, EstadoRetiro::Activo);
    assert_eq!(r.created_at, t0);
    assert_eq!(r.updated_at, t1);
    let missing = repo.update_at(2, t1, datos("Z", "2024-02-10 00:00:00", "2024-02-12 00:00:00", 1)).unwrap();
    assert_eq!(missing, None);
    assert_eq!(repo.get_all().len(), 1);
}

#[test]
fn delete_retreat_then_get() {
    let mut repo = RetiroRepository::new();
    let r = repo.create(datos("A", "2024-01-10 00:00:00", "2024-01-12 00:00:00", 10)).unwrap();
    assert!(repo.delete(r.id));
    assert_eq!(repo.get_by_id(r.id), None);
    assert!(!repo.delete(r.id));
}

#[test]
fn retreat_state_labels() {
    assert_eq!(EstadoRetiro::Planificacion.label(), "Planificacion");
    assert_eq!(EstadoRetiro::Activo.label(), "Activo");
    assert_eq!(EstadoRetiro::Finalizado.label(), "Finalizado");
    assert_eq!(EstadoRetiro::from_label("Activo"), Some(EstadoRetiro::Activo));
    assert_eq!(EstadoRetiro::from_label("Finalizado"), Some(EstadoRetiro::Finalizado));
    assert_eq!(EstadoRetiro::from_label("Planificacion"), Some(EstadoRetiro::Planificacion));
    assert_eq!(EstadoRetiro::from_label("Cancelado"), None);
}
