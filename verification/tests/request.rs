use turbopack::resolve::parse::Request;

fn parse(s: &str) -> Request {
    Request::parse(s.to_string())
}

fn text(s: &str) -> String {
    s.to_string()
}

#[test]
fn relative_specifier() {
    assert_eq!(parse("./foo"), Request::Relative { path: text("./foo") });
    assert_eq!(parse("../foo/bar"), Request::Relative { path: text("../foo/bar") });
}

#[test]
fn a_dot_alone_is_no_relative_specifier() {
    assert_eq!(parse("."), Request::Module { module: text("."), path: text("") });
    assert_eq!(parse(".."), Request::Module { module: text(".."), path: text("") });
    assert_eq!(parse(".foo"), Request::Module { module: text(".foo"), path: text("") });
}

#[test]
fn scoped_module_with_subpath() {
    assert_eq!(
        parse("@scope/pkg/sub"),
        Request::Module { module: text("@scope/pkg"), path: text("/sub") }
    );
}

#[test]
fn bare_module() {
    assert_eq!(parse("lodash"), Request::Module { module: text("lodash"), path: text("") });
    assert_eq!(
        parse("lodash/fp/map"),
        Request::Module { module: text("lodash"), path: text("/fp/map") }
    );
    assert_eq!(parse("@scope/pkg"), Request::Module { module: text("@scope/pkg"), path: text("") });
    assert_eq!(parse("@scope"), Request::Module { module: text("@scope"), path: text("") });
}

#[test]
fn windows_path() {
    assert_eq!(parse("C:\\a\\b"), Request::Windows { path: text("C:\\a\\b") });
    assert_eq!(parse("z:\\"), Request::Windows { path: text("z:\\") });
    assert_eq!(parse("\\\\server\\share"), Request::Windows { path: text("\\\\server\\share") });
}

#[test]
fn uri_keeps_the_leading_slash_in_the_remainder() {
    assert_eq!(
        parse("https://x/y"),
        Request::Uri { protocol: text("https:"), remainer: text("//x/y") }
    );
    assert_eq!(
        parse("file:///tmp/a.js"),
        Request::Uri { protocol: text("file:"), remainer: text("///tmp/a.js") }
    );
}

#[test]
fn a_protocol_needs_more_than_a_slash_behind_it() {
    assert_eq!(parse("a:/"), Request::Module { module: text("a:"), path: text("/") });
    assert_eq!(parse("node:fs"), Request::Module { module: text("node:fs"), path: text("") });
}

#[test]
fn empty_specifier() {
    assert_eq!(parse(""), Request::Empty);
}

#[test]
fn server_relative_specifier() {
    assert_eq!(parse("/etc/hosts"), Request::ServerRelative { path: text("/etc/hosts") });
    assert_eq!(parse("/"), Request::ServerRelative { path: text("/") });
}

#[test]
fn package_internal_specifier() {
    assert_eq!(parse("#internal/x"), Request::PackageInternal { path: text("#internal/x") });
}

#[test]
fn a_line_break_behind_the_first_slash_leaves_the_specifier_unknown() {
    assert_eq!(parse("a/b\nc"), Request::Unknown { path: text("a/b\nc") });
    assert_eq!(parse("x:/b\nc"), Request::Unknown { path: text("x:/b\nc") });
}

#[test]
fn a_line_break_in_the_module_name_is_kept() {
    assert_eq!(parse("a\nb/c"), Request::Module { module: text("a\nb"), path: text("/c") });
}

#[test]
fn the_first_pattern_that_matched_decides() {
    let groups = |a: &str, b: &str| Some(Some(vec![None, Some(text(a)), Some(text(b))]));
    assert_eq!(
        Request::from_matches(text("x"), Some(true), groups("p:", "/q"), groups("m", "/n")),
        Request::Windows { path: text("x") }
    );
    assert_eq!(
        Request::from_matches(text("x"), Some(false), groups("p:", "/q"), groups("m", "/n")),
        Request::Uri { protocol: text("p:"), remainer: text("/q") }
    );
    assert_eq!(
        Request::from_matches(text("x"), None, Some(None), groups("m", "/n")),
        Request::Module { module: text("m"), path: text("/n") }
    );
    assert_eq!(
        Request::from_matches(text("x"), None, None, Some(None)),
        Request::Unknown { path: text("x") }
    );
}

#[test]
fn a_group_that_took_no_part_is_no_match() {
    let uri = Some(Some(vec![Some(text("p:/q")), Some(text("p:")), None]));
    let module = Some(Some(vec![Some(text("m")), Some(text("m"))]));
    assert_eq!(
        Request::from_matches(text("x"), Some(false), uri, module),
        Request::Unknown { path: text("x") }
    );
}

#[test]
fn request_gives_the_specifier_back() {
    for s in [
        "", "/etc/hosts", "#a", "./foo", "../foo", "C:\\a", "https://x/y", "@scope/pkg/sub",
        "lodash", "a/b\nc", "a\nb/c", ".",
    ] {
        assert_eq!(parse(s).request(), s);
    }
}

#[test]
fn request_joins_the_parts() {
    let module = Request::Module { module: text("@scope/pkg"), path: text("/sub") };
    assert_eq!(module.request(), "@scope/pkg/sub");
    let uri = Request::Uri { protocol: text("https:"), remainer: text("//x/y") };
    assert_eq!(uri.request(), "https://x/y");
    assert_eq!(Request::Empty.request(), "");
}

#[test]
fn each_shape_describes_itself() {
    assert_eq!(parse("./foo").to_string(), "relative './foo'");
    assert_eq!(parse("x").to_string(), "module 'x'");
    assert_eq!(parse("x/y").to_string(), "module 'x' with subpath '/y'");
    assert_eq!(parse("/etc/hosts").to_string(), "server relative '/etc/hosts'");
    assert_eq!(parse("C:\\a").to_string(), "windows 'C:\\a'");
    assert_eq!(parse("").to_string(), "empty");
    assert_eq!(parse("#a").to_string(), "package internal '#a'");
    assert_eq!(parse("https://x/y").to_string(), "uri 'https:' '//x/y'");
    assert_eq!(parse("a/b\nc").to_string(), "unknown 'a/b\nc'");
}
