use retiros::{AppError, CategoriaRepository, CreateCategoria, TipoCategoria};

fn datos(nombre: &str, tipo: TipoCategoria, color: &str) -> CreateCategoria {
    CreateCategoria { nombre: nombre.to_string(), tipo, color: color.to_string() }
}

#[test]
fn create_lodging_category_keeps_fields() {
    let mut repo = CategoriaRepository::new();
    let c = repo.create(datos("Lodging", TipoCategoria::Gasto, "#FF5733")).unwrap();
    assert_eq!(c.nombre, "Lodging");
    assert_eq!(c.tipo, TipoCategoria::Gasto);
    assert_eq!(c.color, "#FF5733");
    let found = repo.get_by_id(c.id).unwrap();
    assert_eq!(found, c);
}

#[test]
fn fresh_identifiers_differ() {
    let mut repo = CategoriaRepository::new();
    let a = repo.create(datos("A", TipoCategoria::Gasto, "#000000")).unwrap();
    let b = repo.create(datos("B", TipoCategoria::Gasto, "#000000")).unwrap();
    assert_ne!(a.id, b.id);
    assert_eq!(repo.get_all().len(), 2);
}

#[test]
fn create_with_id_then_get() {
    let mut repo = CategoriaRepository::new();
    let c = repo.create_with_id(42, datos("Food", TipoCategoria::Gasto, "#00FF00")).unwrap();
    assert_eq!(c.id, 42);
    assert_eq!(repo.get_by_id(42), Some(c));
    assert_eq!(repo.get_by_id(43), None);
}

#[test]
fn duplicate_identifier_is_a_storage_error() {
    let mut repo = CategoriaRepository::new();
    repo.create_with_id(1, datos("Food", TipoCategoria::Gasto, "#00FF00")).unwrap();
    let r = repo.create_with_id(1, datos("Other", TipoCategoria::Ingreso, "#00FF00"));
    assert!(matches!(r, Err(AppError::Storage(_))));
    assert_eq!(repo.get_all().len(), 1);
    assert_eq!(repo.get_by_id(1).unwrap().nombre, "Food");
}

#[test]
fn category_validation_errors() {
    let mut repo = CategoriaRepository::new();
    let empty = repo.create(datos("", TipoCategoria::Gasto, "#FF5733"));
    assert!(matches!(empty, Err(AppError::Validation(_))));
    let long = repo.create(datos(&"x".repeat(101), TipoCategoria::Gasto, "#FF5733"));
    assert!(matches!(long, Err(AppError::Validation(_))));
    let short_color = repo.create(datos("Lodging", TipoCategoria::Gasto, "#FF573"));
    assert!(matches!(short_color, Err(AppError::Validation(_))));
    let long_color = repo.create(datos("Lodging", TipoCategoria::Gasto, "#FF57333"));
    assert!(matches!(long_color, Err(AppError::Validation(_))));
    assert!(repo.get_all().is_empty());
    let max = repo.create(datos(&"ñ".repeat(100), TipoCategoria::Gasto, "#FF5733"));
    assert!(max.is_ok());
}

#[test]
fn get_all_orders_by_name() {
    let mut repo = CategoriaRepository::new();
    repo.create_with_id(1, datos("Transport", TipoCategoria::Gasto, "#000001")).unwrap();
    repo.create_with_id(2, datos("Donations", TipoCategoria::Ingreso, "#000002")).unwrap();
    repo.create_with_id(3, datos("Food", TipoCategoria::Gasto, "#000003")).unwrap();
    repo.create_with_id(4, datos("Fees", TipoCategoria::Ingreso, "#000004")).unwrap();
    let names: Vec<String> = repo.get_all().into_iter().map(|c| c.nombre).collect();
    assert_eq!(names, vec!["Donations", "Fees", "Food", "Transport"]);
    let gastos: Vec<u128> = repo.get_by_tipo(TipoCategoria::Gasto).into_iter().map(|c| c.id).collect();
    assert_eq!(gastos, vec![3, 1]);
    assert_eq!(repo.count_by_tipo(TipoCategoria::Ingreso), 2);
    assert_eq!(repo.count_by_tipo(TipoCategoria::Gasto), 2);
}

#[test]
fn update_existing_category() {
    let mut repo = CategoriaRepository::new();
    repo.create_with_id(5, datos("Food", TipoCategoria::Gasto, "#000000")).unwrap();
    let r = repo.update(5, datos("Meals", TipoCategoria::Ingreso, "#FFFFFF")).unwrap().unwrap();
    assert_eq!(r.id, 5);
    assert_eq!(r.nombre, "Meals");
    assert_eq!(r.tipo, TipoCategoria::Ingreso);
    assert_eq!(repo.get_by_id(5), Some(r));
}

#[test]
fn update_missing_category_changes_nothing() {
    let mut repo = CategoriaRepository::new();
    let c = repo.create_with_id(5, datos("Food", TipoCategoria::Gasto, "#000000")).unwrap();
    let r = repo.update(6, datos("Meals", TipoCategoria::Ingreso, "#FFFFFF")).unwrap();
    assert_eq!(r, None);
    assert_eq!(repo.get_all(), vec![c]);
    let invalid = repo.update(5, datos("", TipoCategoria::Ingreso, "#FFFFFF"));
    assert!(matches!(invalid, Err(AppError::Validation(_))));
    assert_eq!(repo.get_by_id(5).unwrap().nombre, "Food");
}

#[test]
fn delete_category_then_get() {
    let mut repo = CategoriaRepository::new();
    repo.create_with_id(5, datos("Food", TipoCategoria::Gasto, "#000000")).unwrap();
    assert!(!repo.delete(6));
    assert_eq!(repo.get_all().len(), 1);
    assert!(repo.delete(5));
    assert_eq!(repo.get_by_id(5), None);
    assert!(!repo.delete(5));
}

#[test]
fn category_kind_labels() {
    assert_eq!(TipoCategoria::Ingreso.label(), "Ingreso");
    assert_eq!(TipoCategoria::Gasto.label(), "Gasto");
    assert_eq!(TipoCategoria::from_label("Ingreso"), Some(TipoCategoria::Ingreso));
    assert_eq!(TipoCategoria::from_label("Gasto"), Some(TipoCategoria::Gasto));
    assert_eq!(TipoCategoria::from_label("gasto"), None);
    assert_eq!(TipoCategoria::from_label(""), None);
}
