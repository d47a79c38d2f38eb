use clickhouse_sql::SqlBuilder;

const ROW_FIELDS: &str = "`a`,`b`";

const ARGS: &[&str] = &["bar", "baz", "foobar"];

fn in_clause_case(arg: &[&str], expected: &str) {
    let mut sql = SqlBuilder::new("SELECT ?fields FROM test WHERE a IN ?");
    sql.bind_arg(arg);
    sql.bind_fields(Some(ROW_FIELDS));
    assert_eq!(sql.finish().unwrap(), expected);
}

#[test]
fn bound_args() {
    let mut sql = SqlBuilder::new("SELECT ?fields FROM test WHERE a = ? AND b < ?");
    assert_eq!(
        sql.to_string(),
        "SELECT ?fields FROM test WHERE a = ? AND b < ?"
    );

    sql.bind_arg("foo");
    assert_eq!(
        sql.to_string(),
        "SELECT ?fields FROM test WHERE a = 'foo' AND b < ?"
    );

    sql.bind_arg(42);
    assert_eq!(
        sql.to_string(),
        "SELECT ?fields FROM test WHERE a = 'foo' AND b < 42"
    );

    sql.bind_fields(Some(ROW_FIELDS));
    assert_eq!(
        sql.to_string(),
        "SELECT `a`,`b` FROM test WHERE a = 'foo' AND b < 42"
    );

    assert_eq!(
        sql.finish().unwrap(),
        r"SELECT `a`,`b` FROM test WHERE a = 'foo' AND b < 42"
    );
}

#[test]
fn in_clause() {
    in_clause_case(&ARGS[..0], r"SELECT `a`,`b` FROM test WHERE a IN []");
    in_clause_case(&ARGS[..1], r"SELECT `a`,`b` FROM test WHERE a IN ['bar']");
    in_clause_case(
        &ARGS[..2],
        r"SELECT `a`,`b` FROM test WHERE a IN ['bar','baz']",
    );
    in_clause_case(
        ARGS,
        r"SELECT `a`,`b` FROM test WHERE a IN ['bar','baz','foobar']",
    );
}

#[test]
fn question_marks_inside() {
    let mut sql = SqlBuilder::new("SELECT 1 FROM test WHERE a IN ? AND b = ?");
    sql.bind_arg(&["a?b", "c?"][..]);
    sql.bind_arg("a?");
    assert_eq!(
        sql.finish().unwrap(),
        r"SELECT 1 FROM test WHERE a IN ['a?b','c?'] AND b = 'a?'"
    );
}

#[test]
fn question_escape() {
    let sql = SqlBuilder::new("SELECT 1 FROM test WHERE a IN 'a??b'");
    assert_eq!(
        sql.finish().unwrap(),
        r"SELECT 1 FROM test WHERE a IN 'a?b'"
    );
}

#[test]
fn option_as_null() {
    let mut sql = SqlBuilder::new("SELECT 1 FROM test WHERE a = ?");
    sql.bind_arg(None::<u32>);
    assert_eq!(sql.finish().unwrap(), r"SELECT 1 FROM test WHERE a = NULL");
}

#[test]
fn option_as_value() {
    let mut sql = SqlBuilder::new("SELECT 1 FROM test WHERE a = ?");
    sql.bind_arg(Some(1u32));
    assert_eq!(sql.finish().unwrap(), r"SELECT 1 FROM test WHERE a = 1");
}

#[test]
fn failures() {
    let mut sql = SqlBuilder::new("SELECT 1");
    sql.bind_arg(42);
    let err = sql.finish().unwrap_err();
    assert!(err.to_string().contains("all arguments are already bound"));

    let mut sql = SqlBuilder::new("SELECT ?fields");
    sql.bind_fields(None);
    let err = sql.finish().unwrap_err();
    assert!(err
        .to_string()
        .contains("argument ?fields cannot be used with non-struct row types"));

    let mut sql = SqlBuilder::new("SELECT a FROM test WHERE b = ? AND c = ?");
    sql.bind_arg(42);
    let err = sql.finish().unwrap_err();
    assert!(err.to_string().contains("unbound query argument"));

    let mut sql = SqlBuilder::new("SELECT ?fields FROM test WHERE b = ?");
    sql.bind_arg(42);
    let err = sql.finish().unwrap_err();
    assert!(err.to_string().contains("unbound query argument ?fields"));
}
