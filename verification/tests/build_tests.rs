use athena::builder::{build, BuildError, BuildRequest, SqlFile, TargetKind};
use athena::paths::{entry_name, file_name, has_sql_ext, relative_to, trim_trailing_slashes};

fn file(path: &str, content: &str) -> SqlFile {
    SqlFile { path: path.to_string(), content: content.to_string() }
}

fn dir_request(target: &str, entries: &[&str], files: Vec<SqlFile>) -> BuildRequest {
    BuildRequest {
        working_dir: "/work".to_string(),
        target: target.to_string(),
        kind: TargetKind::Directory {
            top_entries: entries.iter().map(|e| e.to_string()).collect(),
        },
        files,
    }
}

#[test]
fn empty_directory_builds_to_empty_string() {
    let req = dir_request("/work", &[], vec![]);
    assert_eq!(build(&req).unwrap(), "");
}

#[test]
fn directory_without_sql_files_is_refused() {
    let req = dir_request("/work", &["a.txt", "notes.md"], vec![]);
    let e = build(&req).unwrap_err();
    match &e {
        BuildError::NoSqlFilesFound { entries } => {
            assert_eq!(entries, &vec!["a.txt".to_string(), "notes.md".to_string()]);
        }
        other => panic!("unexpected error: {:?}", other),
    }
    assert_eq!(
        e.message(),
        "top-level doesn't contains any index.sql file: [\"a.txt\", \"notes.md\"]"
    );
}

#[test]
fn directory_without_index_is_refused_at_render_time() {
    let req = dir_request(
        "/work",
        &["not_index.sql"],
        vec![file("/work/not_index.sql", "SELECT 1")],
    );
    let e = build(&req).unwrap_err();
    match &e {
        BuildError::IndexNotFound { entry } => assert_eq!(entry, "index.sql"),
        other => panic!("unexpected error: {:?}", other),
    }
    assert!(e.message().contains("'index.sql' not found"));
}

#[test]
fn renders_a_simple_index() {
    let req = dir_request(
        "/work",
        &["index.sql"],
        vec![file("/work/index.sql", "SELECT 1")],
    );
    assert_eq!(build(&req).unwrap(), "SELECT 1");
}

#[test]
fn output_is_trimmed() {
    let req = dir_request(
        "/work",
        &["index.sql"],
        vec![file("/work/index.sql", "\n   SELECT 1\n  ")],
    );
    assert_eq!(build(&req).unwrap(), "SELECT 1");
}

#[test]
fn renders_set_variables() {
    let req = dir_request(
        "/work",
        &["index.sql"],
        vec![file(
            "/work/index.sql",
            "\n        {% set env = \"production\" %}\n\n        THIS IS {{ env }}\n    ",
        )],
    );
    assert_eq!(build(&req).unwrap(), "THIS IS production");
}

#[test]
fn include_substitutes_rendered_fragment() {
    let req = dir_request(
        "/work",
        &["index.sql", "table.sql"],
        vec![
            file(
                "/work/index.sql",
                "\n        {% set env = \"production\" %}\n        {% include \"table.sql\" %}\n    ",
            ),
            file("/work/table.sql", "\n        SELECT * FROM {{ env }}\n    "),
        ],
    );
    assert_eq!(build(&req).unwrap(), "SELECT * FROM production");
}

#[test]
fn date_range_is_callable_from_templates() {
    let req = dir_request(
        "/work",
        &["index.sql"],
        vec![file(
            "/work/index.sql",
            "{% for day in date_range(start=\"2022-01-29\", end=\"2022-02-02\") %}{{ day }},{% endfor %}",
        )],
    );
    assert_eq!(
        build(&req).unwrap(),
        "2022-01-29,2022-01-30,2022-01-31,2022-02-01,"
    );
}

#[test]
fn bad_date_range_arguments_surface_as_render_errors() {
    let req = dir_request(
        "/work",
        &["index.sql"],
        vec![file(
            "/work/index.sql",
            "{% for day in date_range(start=\"2022-01-29\") %}{{ day }}{% endfor %}",
        )],
    );
    match build(&req).unwrap_err() {
        BuildError::Render { message } => {
            assert!(message.contains("date_range"), "message: {}", message);
        }
        other => panic!("unexpected error: {:?}", other),
    }
}

#[test]
fn nested_directory_target_uses_relative_index() {
    let req = BuildRequest {
        working_dir: "/work".to_string(),
        target: "/work/stg".to_string(),
        kind: TargetKind::Directory { top_entries: vec!["index.sql".to_string()] },
        files: vec![file("/work/stg/index.sql", "SELECT 'stg'")],
    };
    assert_eq!(build(&req).unwrap(), "SELECT 'stg'");
}

#[test]
fn single_file_target_renders_under_its_own_name() {
    let req = BuildRequest {
        working_dir: "/work".to_string(),
        target: "/work/single/single.sql".to_string(),
        kind: TargetKind::File { content: "SELECT 42".to_string() },
        files: vec![file("/work/single/single.sql", "SELECT 42")],
    };
    assert_eq!(build(&req).unwrap(), "SELECT 42");
}

#[test]
fn rebuilding_an_unchanged_tree_is_byte_identical() {
    let req = dir_request(
        "/work",
        &["index.sql", "table.sql"],
        vec![
            file(
                "/work/index.sql",
                "{% set env = \"production\" %}\n{% include \"table.sql\" %};\n{% for day in date_range(start=\"2022-01-29\", end=\"2022-02-01\") %}{{ day }};{% endfor %}",
            ),
            file("/work/table.sql", "SELECT * FROM {{ env }}"),
        ],
    );
    let first = build(&req).unwrap();
    let second = build(&req).unwrap();
    assert_eq!(first, second);
    assert!(!first.is_empty());
}

#[test]
fn template_syntax_errors_surface_as_render_errors() {
    let req = dir_request(
        "/work",
        &["index.sql"],
        vec![file("/work/index.sql", "{% if %}")],
    );
    assert!(matches!(
        build(&req).unwrap_err(),
        BuildError::Render { .. }
    ));
}

#[test]
fn missing_include_is_a_render_error() {
    let req = dir_request(
        "/work",
        &["index.sql"],
        vec![file("/work/index.sql", "{% include \"missing.sql\" %}")],
    );
    match build(&req).unwrap_err() {
        BuildError::Render { message } => {
            assert!(message.contains("missing.sql"), "message: {}", message);
        }
        other => panic!("unexpected error: {:?}", other),
    }
}

#[test]
fn trailing_slashes_on_the_target_are_ignored() {
    let req = BuildRequest {
        working_dir: "/work".to_string(),
        target: "/work/stg///".to_string(),
        kind: TargetKind::Directory { top_entries: vec!["index.sql".to_string()] },
        files: vec![file("/work/stg/index.sql", "SELECT 'stg'")],
    };
    assert_eq!(build(&req).unwrap(), "SELECT 'stg'");
}

#[test]
fn relative_path_computation() {
    assert_eq!(relative_to("/work", "/work"), "");
    assert_eq!(relative_to("/work/", "/work"), "");
    assert_eq!(relative_to("/work", "/work/a.sql"), "a.sql");
    assert_eq!(relative_to("/work", "/work/sub/a.sql"), "sub/a.sql");
    // A sibling whose name merely extends the root is not under it.
    assert_eq!(relative_to("/work", "/workbench/a.sql"), "/workbench/a.sql");
    assert_eq!(relative_to("/", "/a.sql"), "a.sql");
    assert_eq!(relative_to("/other", "/work/a.sql"), "/work/a.sql");
}

#[test]
fn path_helpers() {
    assert_eq!(trim_trailing_slashes("/work/dir///"), "/work/dir");
    assert_eq!(trim_trailing_slashes("/"), "");
    assert_eq!(file_name("/work/a.sql"), "a.sql");
    assert_eq!(file_name("a.sql"), "a.sql");
    assert!(has_sql_ext("a.sql"));
    assert!(has_sql_ext("a.b.sql"));
    assert!(!has_sql_ext(".sql"));
    assert!(!has_sql_ext("a.SQL"));
    assert!(!has_sql_ext("sql"));
    assert!(!has_sql_ext("a.sqlx"));
    assert_eq!(entry_name(true, "", "/work"), "index.sql");
    assert_eq!(entry_name(true, "stg", "/work/stg"), "stg/index.sql");
    assert_eq!(entry_name(false, "a.sql", "/work/a.sql"), "a.sql");
}
