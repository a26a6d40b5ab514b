use library_bot::database::{collect_rows, first_row, like_pattern, sqlite_path, SEARCH_LIMIT};

#[test]
fn database_paths() {
    assert_eq!(sqlite_path("sqlite://library.db"), "library.db");
    assert_eq!(sqlite_path("/data/books.db"), "/data/books.db");
    assert_eq!(sqlite_path("sqlite:/x.db"), "sqlite:/x.db");
}

#[test]
fn search_patterns() {
    assert_eq!(like_pattern("c++"), "%c++%");
    assert_eq!(like_pattern(""), "%%");
    assert_eq!(SEARCH_LIMIT, 500);
}

#[test]
fn rows_are_gathered_or_fail_at_the_first_error() {
    let ok: Vec<Result<i32, &str>> = vec![Ok(1), Ok(2), Ok(3)];
    assert_eq!(collect_rows(ok), Ok(vec![1, 2, 3]));
    let bad: Vec<Result<i32, &str>> = vec![Ok(1), Err("first"), Ok(3), Err("second")];
    assert_eq!(collect_rows(bad), Err("first"));
    let empty: Vec<Result<i32, &str>> = vec![];
    assert_eq!(collect_rows(empty), Ok(vec![]));
}

#[test]
fn lookups_take_the_first_row() {
    let none: Vec<Result<i32, &str>> = vec![];
    assert_eq!(first_row(none), Ok(None));
    assert_eq!(first_row(vec![Ok::<i32, &str>(7), Err("later")]), Ok(Some(7)));
    assert_eq!(first_row(vec![Err::<i32, &str>("bad"), Ok(1)]), Err("bad"));
}
