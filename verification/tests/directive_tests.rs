use athena::directive::get_database_from_sql;

#[test]
fn test_get_database_from_sql() {
    let sql = "-- database: db0";
    assert_eq!(get_database_from_sql(sql).unwrap(), "db0");

    let sql = "-- database: db1\nSELECT * FROM ...;";
    assert_eq!(get_database_from_sql(sql).unwrap(), "db1");

    let sql = "-- Database: db2\nSELECT * FROM ...;";
    assert_eq!(get_database_from_sql(sql).unwrap(), "db2");

    let sql = "-- Database: db3 \nSELECT * FROM ...;";
    assert_eq!(get_database_from_sql(sql).unwrap(), "db3");

    let sql = "-- Database: db4    \nSELECT * FROM ...;";
    assert_eq!(get_database_from_sql(sql).unwrap(), "db4");

    let sql = "--   Database: db4    \nSELECT * FROM ...;";
    assert_eq!(get_database_from_sql(sql).unwrap(), "db4");

    let sql = "/* Database: db5 */\nSELECT * FROM ...;";
    assert_eq!(get_database_from_sql(sql).unwrap(), "db5");

    let sql = "/* database: db6 */\nSELECT * FROM ...;";
    assert_eq!(get_database_from_sql(sql).unwrap(), "db6");

    let sql = "/*        database: db7 */\nSELECT * FROM ...;";
    assert_eq!(get_database_from_sql(sql).unwrap(), "db7");

    let sql = "SELECT * FROM ...;";
    assert!(get_database_from_sql(sql).is_none());

    let sql = "-- database: db0 \n-- database: db1";
    assert_eq!(get_database_from_sql(sql).unwrap(), "db0");
}

#[test]
fn no_directive_without_keyword_space() {
    // The keyword must be separated from the comment opener by whitespace
    // and from the name by exactly one whitespace character.
    assert!(get_database_from_sql("--Database: db8").is_none());
    assert!(get_database_from_sql("-- Database:db8").is_none());
}

#[test]
fn block_directive_needs_closing() {
    assert!(get_database_from_sql("/* Database: db9").is_none());
    assert_eq!(get_database_from_sql(" Database: db9 */").unwrap(), "db9");
}

#[test]
fn whitespace_before_keyword_may_cross_lines() {
    let sql = "-- \n Database: db10\nSELECT 1";
    assert_eq!(get_database_from_sql(sql).unwrap(), "db10");
}

#[test]
fn newline_counts_as_the_separator_before_the_name() {
    let sql = "-- Database:\ndb11";
    assert_eq!(get_database_from_sql(sql).unwrap(), "db11");
}

#[test]
fn line_directive_wins_over_block() {
    let sql = "/* Database: blockdb */\n-- Database: linedb\nSELECT 1";
    assert_eq!(get_database_from_sql(sql).unwrap(), "linedb");
}
