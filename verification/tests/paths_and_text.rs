use dock::canon_path::abs_path_concat;
use dock::canon_path::abs_path_display;
use dock::canon_path::abs_path_display_lossy;
use dock::canon_path::abs_path_extend;
use dock::canon_path::abs_path_from_path_buf;
use dock::canon_path::abs_path_to_path_buf;
use dock::canon_path::parse_abs_path;
use dock::canon_path::rel_path_from_path_buf;
use dock::canon_path::NewAbsPathError;
use dock::canon_path::NewRelPathError;
use dock::text::decimal_string;
use dock::text::join_with;
use dock::text::split_char;
use dock::text::trim_end;

fn strings(xs: &[&str]) -> Vec<String> {
    xs.iter().map(|s| s.to_string()).collect()
}

#[test]
fn absolute_paths_parse() {
    assert_eq!(parse_abs_path("/a/b/c"), Ok(strings(&["a", "b", "c"])));
    assert_eq!(parse_abs_path("/a//b/"), Ok(strings(&["a", "b"])));
    assert_eq!(parse_abs_path("/"), Ok(strings(&[])));
    assert_eq!(parse_abs_path(""), Err(NewAbsPathError::EmptyAbsPath));
    assert_eq!(parse_abs_path("a/b"), Err(NewAbsPathError::NoRootDirPrefix));
    assert_eq!(parse_abs_path("/a/../b"), Err(NewAbsPathError::SpecialComponentInAbsPath));
    assert_eq!(abs_path_from_path_buf("/x/./y"), Ok(strings(&["x", "y"])));
}

#[test]
fn relative_paths_parse() {
    assert_eq!(rel_path_from_path_buf("./a/b"), Ok(strings(&["a", "b"])));
    assert_eq!(rel_path_from_path_buf("."), Ok(strings(&[])));
    assert_eq!(rel_path_from_path_buf(""), Err(NewRelPathError::EmptyRelPath));
    assert_eq!(rel_path_from_path_buf("a"), Err(NewRelPathError::NoCurDirPrefix));
    assert_eq!(rel_path_from_path_buf("./a/../b"), Err(NewRelPathError::SpecialComponentInRelPath));
}

#[test]
fn path_error_messages() {
    assert_eq!(NewAbsPathError::EmptyAbsPath.message(), "The absolute path was empty");
    assert_eq!(NewAbsPathError::NoRootDirPrefix.message(), "The absolute path didn't start with `/`");
    assert_eq!(
        NewAbsPathError::SpecialComponentInAbsPath.message(),
        "The absolute path contained a special component, such as `.` or `..`",
    );
    assert_eq!(NewRelPathError::EmptyRelPath.message(), "The relative path was empty");
    assert_eq!(NewRelPathError::NoCurDirPrefix.message(), "The relative path didn't start with `.`");
    assert_eq!(
        NewRelPathError::SpecialComponentInRelPath.message(),
        "The relative path contained a special component, such as `.` or `..`",
    );
}

#[test]
fn absolute_paths_render() {
    let p = strings(&["a", "b"]);

    assert_eq!(abs_path_display(&p), Some("/a/b".to_string()));
    assert_eq!(abs_path_display(&[]), Some("/".to_string()));
    assert_eq!(abs_path_display_lossy(&p), "/a/b");
    assert_eq!(abs_path_to_path_buf(p.clone()), "/a/b");
}

#[test]
fn absolute_paths_extend() {
    let mut p = strings(&["a"]);
    abs_path_extend(&mut p, strings(&["b", "c"]));

    assert_eq!(p, strings(&["a", "b", "c"]));
    assert_eq!(abs_path_concat(&p, &strings(&["d"])), strings(&["a", "b", "c", "d"]));
    assert_eq!(parse_abs_path(&abs_path_display_lossy(&p)), Ok(p.clone()));
}

#[test]
fn split_and_join() {
    assert_eq!(split_char("a:b::c", ':'), strings(&["a", "b", "", "c"]));
    assert_eq!(split_char("", ':'), strings(&[""]));
    assert_eq!(split_char(":", ':'), strings(&["", ""]));
    assert_eq!(join_with(&strings(&["a", "b", "", "c"]), ":"), "a:b::c");
    assert_eq!(join_with(&strings(&[]), ":"), "");
    let xs = strings(&["x", "yy", "z"]);
    assert_eq!(split_char(&join_with(&xs, ":"), ':'), xs);
}

#[test]
fn trailing_white_space_is_trimmed() {
    assert_eq!(trim_end("1000\n"), "1000");
    assert_eq!(trim_end("a b \t\r\n"), "a b");
    assert_eq!(trim_end("\u{3000}x\u{a0}\u{2009}"), "\u{3000}x");
    assert_eq!(trim_end("   "), "");
    assert_eq!(trim_end(""), "");
    assert_eq!(trim_end("x"), "x");
}

#[test]
fn numbers_render_in_decimal() {
    assert_eq!(decimal_string(0), "0");
    assert_eq!(decimal_string(7), "7");
    assert_eq!(decimal_string(998), "998");
    assert_eq!(decimal_string(u64::MAX), "18446744073709551615");
}

#[test]
fn rendered_absolute_path_parses_back() {
    let p = strings(&["a", "b.c", "..."]);
    let rendered = abs_path_to_path_buf(p.clone());
    assert_eq!(rendered, "/a/b.c/...");
    assert_eq!(abs_path_from_path_buf(&rendered), Ok(p));
    assert_eq!(abs_path_from_path_buf(&abs_path_to_path_buf(vec![])), Ok(vec![]));
    assert_eq!(parse_abs_path("/a//b/"), Ok(strings(&["a", "b"])));
}
