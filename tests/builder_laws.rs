use clickhouse_sql::template::Part;
use clickhouse_sql::{Identifier, SqlBuilder};

fn error_of(sql: SqlBuilder) -> String {
    sql.finish().unwrap_err().to_string()
}

#[test]
fn single_argument_is_replaced() {
    let mut sql = SqlBuilder::new("SELECT x FROM t WHERE a = ? LIMIT 1");
    sql.bind_arg("it's");
    assert_eq!(
        sql.finish().unwrap(),
        r"SELECT x FROM t WHERE a = 'it\'s' LIMIT 1"
    );
}

#[test]
fn single_argument_at_the_end() {
    let mut sql = SqlBuilder::new("SELECT ?");
    sql.bind_arg(7u8);
    assert_eq!(sql.finish().unwrap(), "SELECT 7");
}

#[test]
fn doubled_mark_takes_no_slot() {
    let mut sql = SqlBuilder::new("SELECT '??', ?");
    sql.bind_arg(5);
    assert_eq!(sql.finish().unwrap(), "SELECT '?', 5");

    let mut sql = SqlBuilder::new("a ?? b");
    sql.bind_arg(5);
    assert_eq!(
        error_of(sql),
        "invalid SQL: unexpected bind, all arguments are already bound"
    );
}

#[test]
fn doubled_mark_then_fields() {
    let mut sql = SqlBuilder::new("???fields");
    sql.bind_fields(Some("`x`"));
    assert_eq!(sql.finish().unwrap(), "?`x`");
}

#[test]
fn too_many_arguments() {
    let mut sql = SqlBuilder::new("SELECT ? + ?");
    sql.bind_arg(1);
    sql.bind_arg(2);
    sql.bind_arg(3);
    let err = error_of(sql);
    assert_eq!(
        err,
        "invalid SQL: unexpected bind, all arguments are already bound"
    );
}

#[test]
fn first_failure_is_kept() {
    let mut sql = SqlBuilder::new("SELECT ?fields");
    sql.bind_arg(1);
    sql.bind_fields(None);
    sql.set_output_format("JSON".to_string());
    assert_eq!(
        sql.to_string(),
        "invalid SQL: unexpected bind, all arguments are already bound"
    );
    assert_eq!(
        error_of(sql),
        "invalid SQL: unexpected bind, all arguments are already bound"
    );
}

#[test]
fn unbound_argument_message() {
    let sql = SqlBuilder::new("SELECT ? FROM t WHERE ?fields");
    assert_eq!(error_of(sql), "invalid SQL: unbound query argument");
}

#[test]
fn unbound_fields_message() {
    let mut sql = SqlBuilder::new("SELECT ?fields FROM t WHERE a = ?");
    sql.bind_arg(1);
    sql.set_output_format("JSON".to_string());
    assert_eq!(error_of(sql), "invalid SQL: unbound query argument ?fields");
}

#[test]
fn fields_without_names_and_no_slot() {
    let mut sql = SqlBuilder::new("SELECT 1");
    sql.bind_fields(None);
    assert_eq!(sql.finish().unwrap(), "SELECT 1");
}

#[test]
fn fields_are_broadcast() {
    let mut sql = SqlBuilder::new("SELECT ?fields FROM t UNION SELECT ?fields FROM u");
    sql.bind_fields(Some("`a`"));
    assert_eq!(
        sql.finish().unwrap(),
        "SELECT `a` FROM t UNION SELECT `a` FROM u"
    );
}

#[test]
fn sequences() {
    let mut sql = SqlBuilder::new("?");
    sql.bind_arg(Vec::<u32>::new());
    assert_eq!(sql.finish().unwrap(), "[]");

    let mut sql = SqlBuilder::new("?");
    sql.bind_arg(&["a", "b", "c"][..]);
    assert_eq!(sql.finish().unwrap(), "['a','b','c']");

    let mut sql = SqlBuilder::new("?");
    sql.bind_arg(vec![vec![1i32, -2], vec![]]);
    assert_eq!(sql.finish().unwrap(), "[[1,-2],[]]");

    let mut sql = SqlBuilder::new("?");
    sql.bind_arg(vec![Some(1u64), None]);
    assert_eq!(sql.finish().unwrap(), "[1,NULL]");
}

#[test]
fn optional_values() {
    let mut sql = SqlBuilder::new("? ?");
    sql.bind_arg(None::<String>);
    sql.bind_arg(Some("x".to_string()));
    assert_eq!(sql.finish().unwrap(), "NULL 'x'");
}

#[test]
fn numbers() {
    let mut sql = SqlBuilder::new("? ? ? ? ? ?");
    sql.bind_arg(0u32);
    sql.bind_arg(-7i8);
    sql.bind_arg(i128::MIN);
    sql.bind_arg(u128::MAX);
    sql.bind_arg(1234567890usize);
    sql.bind_arg(-100isize);
    assert_eq!(
        sql.finish().unwrap(),
        "0 -7 -170141183460469231731687303715884105728 340282366920938463463374607431768211455 1234567890 -100"
    );
}

#[test]
fn escaping() {
    let mut sql = SqlBuilder::new("? ?");
    sql.bind_arg(r"a'b\c`d");
    sql.bind_arg(Identifier(r"x`y\z'w"));
    assert_eq!(sql.finish().unwrap(), r"'a\'b\\c`d' `x\`y\\z'w`");
}

#[test]
fn unicode_text() {
    let mut sql = SqlBuilder::new("SELECT 'é??' || ?");
    sql.bind_arg("ü'ß");
    assert_eq!(sql.finish().unwrap(), r"SELECT 'é?' || 'ü\'ß'");
}

#[test]
fn example_statement() {
    let mut sql = SqlBuilder::new("SELECT ?fields FROM t WHERE a = ? AND b < ?");
    sql.bind_arg("foo");
    sql.bind_arg(42);
    sql.bind_fields(Some("`a`,`b`"));
    assert_eq!(
        sql.finish().unwrap(),
        "SELECT `a`,`b` FROM t WHERE a = 'foo' AND b < 42"
    );
}

#[test]
fn example_escape() {
    let sql = SqlBuilder::new("SELECT 1 FROM t WHERE a IN 'a??b'");
    assert_eq!(sql.finish().unwrap(), "SELECT 1 FROM t WHERE a IN 'a?b'");
}

#[test]
fn raw_round_trip() {
    let sql = SqlBuilder::raw("SELECT '?' ?? ?fields");
    assert_eq!(sql.finish().unwrap(), "SELECT '?' ?? ?fields");

    let mut sql = SqlBuilder::raw("SELECT 1");
    sql.set_output_format("JSONEachRow".to_string());
    assert_eq!(sql.finish().unwrap(), "SELECT 1 FORMAT JSONEachRow");

    let sql = SqlBuilder::raw("");
    assert_eq!(sql.finish().unwrap(), "");
}

#[test]
fn output_format_is_appended() {
    let mut sql = SqlBuilder::new("SELECT ?");
    sql.set_output_format("CSV".to_string());
    sql.set_output_format("TSV".to_string());
    sql.bind_arg(1);
    assert_eq!(sql.to_string(), "SELECT 1 FORMAT TSV");
    assert_eq!(sql.finish().unwrap(), "SELECT 1 FORMAT TSV");
}

#[test]
fn empty_template() {
    let sql = SqlBuilder::new("");
    assert_eq!(sql.finish().unwrap(), "");
}

#[test]
fn error_enters_failed_state() {
    let mut sql = SqlBuilder::new("SELECT 1");
    sql.error("bad");
    assert_eq!(error_of(sql), "invalid SQL: bad");
}

#[test]
fn doubled_mark_ends_a_literal() {
    let sql = SqlBuilder::new("x??y");
    match &sql {
        SqlBuilder::InProgress(parts, None) => {
            assert_eq!(parts.len(), 2);
            assert!(matches!(&parts[0], Part::Text(t) if t == "x?"));
            assert!(matches!(&parts[1], Part::Text(t) if t == "y"));
        }
        _ => panic!("builder failed"),
    }
    assert_eq!(sql.finish().unwrap(), "x?y");

    let sql = SqlBuilder::new("a??");
    match &sql {
        SqlBuilder::InProgress(parts, None) => {
            assert_eq!(parts.len(), 1);
            assert!(matches!(&parts[0], Part::Text(t) if t == "a?"));
        }
        _ => panic!("builder failed"),
    }
}
