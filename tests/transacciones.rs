use retiros::{
    AppError, CategoriaRepository, CreateCategoria, CreateTransaccion, TipoCategoria, TipoTransaccion, Timestamp,
    TransaccionRepository,
};

const RETIRO: u128 = 100;
const OTRO: u128 = 200;

fn t(secs: i64) -> Timestamp {
    Timestamp { secs, nanos: 0 }
}

fn mov(retiro_id: u128, categoria_id: u128, tipo: TipoTransaccion, monto: i64, descripcion: &str, secs: i64) -> CreateTransaccion {
    CreateTransaccion { retiro_id, categoria_id, tipo, monto, descripcion: descripcion.to_string(), fecha: t(secs) }
}

#[test]
fn cabin_rental_then_income_balance() {
    let mut repo = TransaccionRepository::new();
    let gasto = repo.create(mov(RETIRO, 1, TipoTransaccion::Gasto, 12050, "Cabin rental", 0)).unwrap();
    assert_eq!(gasto.monto, 12050);
    assert_eq!(gasto.descripcion, "Cabin rental");
    assert_eq!(repo.get_by_id(gasto.id), Some(gasto));
    assert_eq!(repo.calculate_balance(RETIRO, None), -12050);
    repo.create(mov(RETIRO, 2, TipoTransaccion::Ingreso, 50000, "Fees", 1)).unwrap();
    assert_eq!(repo.calculate_balance(RETIRO, None), 37950);
}

#[test]
fn balance_without_kind_is_income_less_expense() {
    let mut repo = TransaccionRepository::new();
    repo.create(mov(RETIRO, 1, TipoTransaccion::Ingreso, 1000, "a", 0)).unwrap();
    repo.create(mov(RETIRO, 1, TipoTransaccion::Gasto, 300, "b", 0)).unwrap();
    repo.create(mov(RETIRO, 1, TipoTransaccion::Ingreso, 5, "c", 0)).unwrap();
    repo.create(mov(OTRO, 1, TipoTransaccion::Gasto, 7000, "d", 0)).unwrap();
    let ingresos = repo.calculate_balance(RETIRO, Some(TipoTransaccion::Ingreso));
    let gastos = repo.calculate_balance(RETIRO, Some(TipoTransaccion::Gasto));
    assert_eq!(ingresos, 1005);
    assert_eq!(gastos, 300);
    assert_eq!(repo.calculate_balance(RETIRO, None), ingresos - gastos);
    assert_eq!(repo.calculate_balance(OTRO, None), -7000);
}

#[test]
fn balance_of_retreat_without_transactions_is_zero() {
    let mut repo = TransaccionRepository::new();
    assert_eq!(repo.calculate_balance(RETIRO, None), 0);
    repo.create(mov(OTRO, 1, TipoTransaccion::Ingreso, 1000, "a", 0)).unwrap();
    assert_eq!(repo.calculate_balance(RETIRO, None), 0);
    assert_eq!(repo.calculate_balance(RETIRO, Some(TipoTransaccion::Ingreso)), 0);
    assert_eq!(repo.calculate_balance(RETIRO, Some(TipoTransaccion::Gasto)), 0);
    assert_eq!(repo.count_by_retiro(RETIRO), 0);
}

#[test]
fn transaction_validation_errors() {
    let mut repo = TransaccionRepository::new();
    assert!(matches!(repo.create(mov(RETIRO, 1, TipoTransaccion::Gasto, 0, "x", 0)), Err(AppError::Validation(_))));
    assert!(matches!(repo.create(mov(RETIRO, 1, TipoTransaccion::Gasto, -5, "x", 0)), Err(AppError::Validation(_))));
    assert!(matches!(repo.create(mov(RETIRO, 1, TipoTransaccion::Gasto, 10, "", 0)), Err(AppError::Validation(_))));
    let long = "d".repeat(301);
    assert!(matches!(repo.create(mov(RETIRO, 1, TipoTransaccion::Gasto, 10, &long, 0)), Err(AppError::Validation(_))));
    assert!(repo.create(mov(RETIRO, 1, TipoTransaccion::Gasto, 1, &"d".repeat(300), 0)).is_ok());
    assert_eq!(repo.count_by_retiro(RETIRO), 1);
}

#[test]
fn transactions_of_a_retreat_latest_first() {
    let mut repo = TransaccionRepository::new();
    let now = t(0);
    repo.create_with_id(1, now, mov(RETIRO, 1, TipoTransaccion::Gasto, 10, "a", 300)).unwrap();
    repo.create_with_id(2, now, mov(OTRO, 1, TipoTransaccion::Gasto, 10, "b", 900)).unwrap();
    repo.create_with_id(3, now, mov(RETIRO, 1, TipoTransaccion::Gasto, 10, "c", 600)).unwrap();
    repo.create_with_id(4, now, mov(RETIRO, 1, TipoTransaccion::Ingreso, 10, "d", 100)).unwrap();
    let ids: Vec<u128> = repo.get_by_retiro(RETIRO).into_iter().map(|x| x.id).collect();
    assert_eq!(ids, vec![3, 1, 4]);
    assert_eq!(repo.count_by_retiro(RETIRO), 3);
    let dup = repo.create_with_id(4, now, mov(RETIRO, 1, TipoTransaccion::Ingreso, 10, "e", 100));
    assert!(matches!(dup, Err(AppError::Storage(_))));
}

#[test]
fn delete_transaction_then_get() {
    let mut repo = TransaccionRepository::new();
    let x = repo.create(mov(RETIRO, 1, TipoTransaccion::Gasto, 10, "a", 0)).unwrap();
    assert!(!repo.delete(x.id + 1));
    assert!(repo.delete(x.id));
    assert_eq!(repo.get_by_id(x.id), None);
    assert!(!repo.delete(x.id));
    assert_eq!(repo.calculate_balance(RETIRO, None), 0);
}

#[test]
fn global_balance_totals() {
    let mut repo = TransaccionRepository::new();
    assert_eq!(repo.calculate_global_balance(), (0, 0, 0));
    repo.create(mov(RETIRO, 1, TipoTransaccion::Ingreso, 1000, "a", 0)).unwrap();
    repo.create(mov(OTRO, 1, TipoTransaccion::Ingreso, 250, "b", 0)).unwrap();
    repo.create(mov(OTRO, 1, TipoTransaccion::Gasto, 400, "c", 0)).unwrap();
    assert_eq!(repo.calculate_global_balance(), (1250, 400, 3));
}

#[test]
fn top_expense_category_first() {
    let mut cats = CategoriaRepository::new();
    let food = cats.create(CreateCategoria { nombre: "Food".to_string(), tipo: TipoCategoria::Gasto, color: "#111111".to_string() }).unwrap();
    let lodging = cats.create(CreateCategoria { nombre: "Lodging".to_string(), tipo: TipoCategoria::Gasto, color: "#FF5733".to_string() }).unwrap();
    let mut repo = TransaccionRepository::new();
    repo.create(mov(RETIRO, food.id, TipoTransaccion::Gasto, 15000, "meals", 0)).unwrap();
    repo.create(mov(RETIRO, lodging.id, TipoTransaccion::Gasto, 10000, "cabin", 0)).unwrap();
    repo.create(mov(OTRO, lodging.id, TipoTransaccion::Gasto, 20000, "cabin", 0)).unwrap();
    repo.create(mov(OTRO, food.id, TipoTransaccion::Ingreso, 99999, "refund", 0)).unwrap();
    let top = repo.get_top_categorias_gastos(&cats, 1);
    assert_eq!(top, vec![("Lodging".to_string(), "#FF5733".to_string(), 30000)]);
    let all = repo.get_top_categorias_gastos(&cats, 5);
    assert_eq!(
        all,
        vec![("Lodging".to_string(), "#FF5733".to_string(), 30000), ("Food".to_string(), "#111111".to_string(), 15000)]
    );
    assert_eq!(repo.get_top_categorias_gastos(&cats, -1).len(), 2);
    assert!(repo.get_top_categorias_gastos(&cats, 0).is_empty());
}

#[test]
fn expenses_under_unknown_category_are_not_ranked() {
    let cats = CategoriaRepository::new();
    let mut repo = TransaccionRepository::new();
    repo.create(mov(RETIRO, 77, TipoTransaccion::Gasto, 500, "x", 0)).unwrap();
    assert!(repo.get_top_categorias_gastos(&cats, 5).is_empty());
}

#[test]
fn expense_only_retreat_statistics() {
    let mut repo = TransaccionRepository::new();
    repo.create(mov(RETIRO, 1, TipoTransaccion::Gasto, 300, "a", 0)).unwrap();
    repo.create(mov(RETIRO, 2, TipoTransaccion::Gasto, 200, "b", 0)).unwrap();
    let e = repo.get_estadisticas_por_retiro();
    assert_eq!(e.retiros_con_ingresos, 0);
    assert_eq!(e.suma_ingresos, 0);
    assert_eq!(e.retiros_con_gastos, 1);
    assert_eq!(e.suma_gastos, 500);
    assert_eq!(e.retiros_con_transacciones, 1);
    assert_eq!(e.suma_balances, -500);
}

#[test]
fn statistics_group_each_kind_separately() {
    let mut repo = TransaccionRepository::new();
    repo.create(mov(RETIRO, 1, TipoTransaccion::Gasto, 300, "a", 0)).unwrap();
    repo.create(mov(OTRO, 1, TipoTransaccion::Ingreso, 1000, "b", 0)).unwrap();
    repo.create(mov(OTRO, 1, TipoTransaccion::Gasto, 100, "c", 0)).unwrap();
    let e = repo.get_estadisticas_por_retiro();
    assert_eq!(e.retiros_con_transacciones, 2);
    assert_eq!(e.retiros_con_ingresos, 1);
    assert_eq!(e.retiros_con_gastos, 2);
    assert_eq!(e.suma_ingresos, 1000);
    assert_eq!(e.suma_gastos, 400);
    assert_eq!(e.suma_balances, 600);
    let empty = TransaccionRepository::new().get_estadisticas_por_retiro();
    assert_eq!(empty.retiros_con_transacciones, 0);
    assert_eq!(empty.suma_balances, 0);
}

#[test]
fn transaction_kind_labels() {
    assert_eq!(TipoTransaccion::Ingreso.label(), "Ingreso");
    assert_eq!(TipoTransaccion::Gasto.label(), "Gasto");
    assert_eq!(TipoTransaccion::from_label("Gasto"), Some(TipoTransaccion::Gasto));
    assert_eq!(TipoTransaccion::from_label("Ingreso"), Some(TipoTransaccion::Ingreso));
    assert_eq!(TipoTransaccion::from_label("Income"), None);
}
