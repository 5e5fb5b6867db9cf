use athena::machine::plan_statements;
use athena::statements::split_statements;

#[test]
fn splits_and_drops_empty_segments() {
    let parts = split_statements("SELECT 1; ; SELECT 2;");
    assert_eq!(parts, vec!["SELECT 1", "SELECT 2"]);
}

#[test]
fn split_keeps_textual_order_and_trims() {
    let parts = split_statements("  a  ;\n b ;; c");
    assert_eq!(parts, vec!["a", "b", "c"]);
}

#[test]
fn split_of_empty_text_is_empty() {
    assert_eq!(split_statements(""), Vec::<String>::new());
    assert_eq!(split_statements(" \n\t "), Vec::<String>::new());
    assert_eq!(split_statements(";;;"), Vec::<String>::new());
}

#[test]
fn split_is_purely_lexical() {
    // A `;` inside a string literal also cuts: a documented limitation.
    let parts = split_statements("SELECT 'a;b'");
    assert_eq!(parts, vec!["SELECT 'a", "b'"]);
}

#[test]
fn internal_newlines_are_preserved() {
    let parts = split_statements("SELECT\n  1\n;");
    assert_eq!(parts, vec!["SELECT\n  1"]);
}

#[test]
fn plans_carry_directives_per_statement() {
    let plans = plan_statements("-- database: db0\nSELECT 1; SELECT 2;");
    assert_eq!(plans.len(), 2);
    assert_eq!(plans[0].text, "-- database: db0\nSELECT 1");
    assert_eq!(plans[0].database.as_deref(), Some("db0"));
    assert_eq!(plans[1].text, "SELECT 2");
    assert_eq!(plans[1].database, None);
}
