use ppdrive::{AppError, BackendName, SqlxFilters, SqlxSetters, SqlxValues, ToQuery};

#[test]
fn test_sqlx_filters_pg() -> Result<(), AppError> {
    // single condition
    let filters = SqlxFilters::new("id", 1);
    let bn = BackendName::Postgres;

    assert_eq!(&filters.to_query(&bn)?, "id = $1");

    // multiple conditions
    let filters = filters.add("AND age").add("OR name");
    assert_eq!(&filters.to_query(&bn)?, "id = $1 AND age = $2 OR name = $3");

    // grouped conditions (prefix)
    let filters = SqlxFilters::new("asset_path OR custom_path", 1)
        .add("AND asset_type")
        .to_query(&bn)?;

    assert_eq!(
        &filters,
        "(asset_path = $1 OR custom_path = $2) AND asset_type = $3"
    );

    // grouped conditions (suffix)
    let filters = SqlxFilters::new("asset_type", 1)
        .add("AND (asset_path OR custom_path)")
        .to_query(&bn)?;

    assert_eq!(
        &filters,
        "asset_type = $1 AND (asset_path = $2 OR custom_path = $3)"
    );
    Ok(())
}

#[test]
fn test_sqlx_values_pg() {
    let values = SqlxValues(1, 1);
    let bn = BackendName::Postgres;

    assert_eq!(&values.to_query(&bn), "VALUES($1)");

    let values = SqlxValues(3, 1);
    assert_eq!(&values.to_query(&bn), "VALUES($1, $2, $3)");
}

#[test]
fn test_sqlx_filters_mysql() -> Result<(), AppError> {
    let filters = SqlxFilters::new("id", 1);
    let bn = BackendName::Mysql;

    assert_eq!(&filters.to_query(&bn)?, "id = ?");

    let filters = filters.add("AND age").add("OR name");
    assert_eq!(&filters.to_query(&bn)?, "id = ? AND age = ? OR name = ?");

    Ok(())
}

#[test]
fn test_sqlx_values_mysql() {
    let values = SqlxValues(1, 1);
    let bn = BackendName::Mysql;

    assert_eq!(&values.to_query(&bn), "VALUES(?)");

    let values = SqlxValues(3, 1);
    assert_eq!(&values.to_query(&bn), "VALUES(?, ?, ?)");
}

#[test]
fn placeholders_per_backend() {
    assert_eq!(BackendName::Postgres.to_query(0), "$0");
    assert_eq!(BackendName::Postgres.to_query(7), "$7");
    assert_eq!(BackendName::Postgres.to_query(42), "$42");
    assert_eq!(BackendName::Postgres.to_query(255), "$255");
    assert_eq!(BackendName::Sqlite.to_query(10), "?10");
    assert_eq!(BackendName::Sqlite.to_query(109), "?109");
    assert_eq!(BackendName::Mysql.to_query(200), "?");
}

#[test]
fn backend_from_driver_name() {
    assert_eq!(BackendName::from_name("PostgreSQL").unwrap(), BackendName::Postgres);
    assert_eq!(BackendName::from_name("MySQL").unwrap(), BackendName::Mysql);
    assert_eq!(BackendName::from_name("SQLite").unwrap(), BackendName::Sqlite);
    assert!(matches!(
        BackendName::from_name("Oracle"),
        Err(AppError::InternalServerError(_))
    ));
    match BackendName::from_name("postgresql") {
        Err(AppError::InternalServerError(m)) => assert_eq!(m, "unable to parse backend name"),
        _ => panic!("expected a configuration error"),
    }
}

#[test]
fn filters_sqlite_and_offset() -> Result<(), AppError> {
    let q = SqlxFilters::new("id", 4).add("OR name").to_query(&BackendName::Sqlite)?;
    assert_eq!(q, "id = ?4 OR name = ?5");
    let q = SqlxFilters::new("asset_path OR custom_path", 1)
        .add("AND asset_type")
        .to_query(&BackendName::Mysql)?;
    assert_eq!(q, "(asset_path = ? OR custom_path = ?) AND asset_type = ?");
    let q = SqlxFilters::new("(id)", 2).to_query(&BackendName::Postgres)?;
    assert_eq!(q, "(id = $2)");
    let q = SqlxFilters::new("a AND b OR c", 1).to_query(&BackendName::Postgres)?;
    assert_eq!(q, "(a = $1 AND b = $2 OR c = $3)");
    Ok(())
}

#[test]
fn malformed_filters_are_parsing_errors() {
    let bn = BackendName::Postgres;
    for bad in [
        SqlxFilters::new("", 1),
        SqlxFilters::new("AND id", 1),
        SqlxFilters::new("id", 1).add("age"),
        SqlxFilters::new("id", 1).add("AND "),
        SqlxFilters::new("id", 1).add("AND (a OR)"),
        SqlxFilters::new("id", 1).add("AND a  b"),
        SqlxFilters::new("id", 1).add("AND a XOR b"),
        SqlxFilters::new("a(b", 1),
    ] {
        assert!(matches!(bad.to_query(&bn), Err(AppError::ParsingError(_))));
    }
}

#[test]
fn filters_past_the_last_placeholder() {
    let bn = BackendName::Postgres;
    assert_eq!(SqlxFilters::new("id", 255).to_query(&bn).unwrap(), "id = $255");
    let r = SqlxFilters::new("id", 255).add("AND age").to_query(&bn);
    assert!(matches!(r, Err(AppError::InternalServerError(_))));
    // a malformed fragment is reported before the width
    let r = SqlxFilters::new("id", 255).add("AND age").add("x").to_query(&bn);
    assert!(matches!(r, Err(AppError::ParsingError(_))));
}

#[test]
fn values_edges() {
    assert_eq!(SqlxValues(0, 1).to_query(&BackendName::Postgres), "VALUES()");
    assert_eq!(SqlxValues(2, 4).to_query(&BackendName::Sqlite), "VALUES(?4, ?5)");
    assert_eq!(SqlxValues(1, 255).to_query(&BackendName::Postgres), "VALUES($255)");
}

#[test]
fn setters_render() {
    let s = SqlxSetters::new("name", 2).add("age").add("role");
    assert_eq!(s.to_query(&BackendName::Postgres), "name = $2, age = $3, role = $4");
    assert_eq!(s.to_query(&BackendName::Mysql), "name = ?, age = ?, role = ?");
    let s = SqlxSetters::new("name", 1);
    assert_eq!(s.to_query(&BackendName::Sqlite), "name = ?1");
}

#[test]
fn setters_append_next_placeholder() {
    let bn = BackendName::Postgres;
    let s = SqlxSetters::new("name", 1);
    let before = s.to_query(&bn);
    let after = s.add("age").to_query(&bn);
    assert_eq!(after, format!("{before}, age = $2"));
    assert_eq!(after, "name = $1, age = $2");
}
