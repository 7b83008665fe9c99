use kepce_api::migrations::{applied_query, cities_seeded, first_directory, is_applied, record_statement, MIGRATION_DIRS, SEED_DIRS};
use kepce_api::migrations::{migration_order, sql_statements, text_lines};

fn lines(s: &str) -> Vec<String> {
    text_lines(s).into_iter().map(|l| l.into_iter().collect()).collect()
}

#[test]
fn lines_match_str_lines() {
    for text in ["", "a", "a\n", "a\r\nb", "a\n\nb\n", "x\r", "\n", "a\r\n\r\n"] {
        let expected: Vec<String> = text.lines().map(|l| l.to_string()).collect();
        assert_eq!(lines(text), expected, "text {:?}", text);
    }
}

#[test]
fn statements_split_at_semicolons_and_skip_comments() {
    let sql = "-- create the table\nCREATE TABLE a (\n  id INT\n);\n\nINSERT INTO a VALUES (1);\n";
    assert_eq!(
        sql_statements(sql),
        vec!["CREATE TABLE a (\n  id INT\n);".to_string(), "INSERT INTO a VALUES (1);".to_string()]
    );
}

#[test]
fn dollar_quoted_body_stays_in_one_statement() {
    let sql = "CREATE FUNCTION f() RETURNS void AS $$\nBEGIN\n  -- inside\n  PERFORM 1;\nEND;\n$$ LANGUAGE plpgsql;\nSELECT 1;";
    assert_eq!(
        sql_statements(sql),
        vec![
            "CREATE FUNCTION f() RETURNS void AS $$\nBEGIN\n  -- inside\n  PERFORM 1;\nEND;\n$$ LANGUAGE plpgsql;".to_string(),
            "SELECT 1;".to_string(),
        ]
    );
}

#[test]
fn leftover_without_semicolon_is_run_too() {
    assert_eq!(sql_statements("SELECT 1;\nSELECT 2"), vec!["SELECT 1;".to_string(), "SELECT 2".to_string()]);
    assert!(sql_statements("-- only a comment\n\n").is_empty());
}

#[test]
fn migrations_run_in_name_order_and_only_sql_files() {
    let names = vec![
        "002_votes.sql".to_string(),
        "README.md".to_string(),
        "001_init.sql".to_string(),
        ".sql".to_string(),
        "010_tags.sql".to_string(),
        "003_notes.sql.bak".to_string(),
    ];
    assert_eq!(
        migration_order(names),
        vec!["001_init.sql".to_string(), "002_votes.sql".to_string(), "010_tags.sql".to_string()]
    );
}

#[test]
fn migration_bookkeeping() {
    assert_eq!(
        applied_query("001_init.sql"),
        "SELECT EXISTS (SELECT 1 FROM schema_migrations WHERE version = '001_init.sql');"
    );
    assert_eq!(record_statement("001_init.sql"), "INSERT INTO schema_migrations (version) VALUES ('001_init.sql');");
    assert!(is_applied(Some(Some(true))));
    assert!(!is_applied(Some(Some(false))));
    assert!(!is_applied(Some(None)));
    assert!(!is_applied(None));
    assert!(cities_seeded(Some(81)));
    assert!(!cities_seeded(Some(0)));
    assert!(!cities_seeded(None));
    assert_eq!(first_directory(&vec![false, true, true, false]), Some(1));
    assert_eq!(first_directory(&vec![false, false]), None);
    assert_eq!(MIGRATION_DIRS[0], "db/migrations");
    assert_eq!(SEED_DIRS[3], "/app/db/seeds/prod");
}
