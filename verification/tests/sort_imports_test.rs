use sort_imports::checker::SortImports;
use sort_imports::types::{ImportDecl, ImportSpecifier, Location};

fn loc(line: usize, col: usize) -> Location {
    Location { line, col }
}

fn named(name: &str, line: usize, col: usize) -> ImportSpecifier {
    ImportSpecifier::Named { local: name.to_string(), span: loc(line, col) }
}

fn default_import(name: &str, line: usize, col: usize) -> ImportSpecifier {
    ImportSpecifier::DefaultImport { local: name.to_string(), span: loc(line, col) }
}

fn namespace(name: &str, line: usize, col: usize) -> ImportSpecifier {
    ImportSpecifier::Namespace { local: name.to_string(), span: loc(line, col) }
}

fn decl(line: usize, col: usize, specifiers: Vec<ImportSpecifier>) -> ImportDecl {
    ImportDecl { span: loc(line, col), specifiers }
}

/// Runs the rule over the unit and asserts exactly one diagnostic, at the
/// given 1-based line and 0-based column.
fn assert_lint_err_on_line(module: Vec<ImportDecl>, line: usize, col: usize) {
    let rule = SortImports::new();
    let diags = rule.lint_module(&module);
    assert_eq!(diags.len(), 1);
    assert_eq!(diags[0].code, "sort-imports");
    assert_eq!(diags[0].span.line, line);
    assert_eq!(diags[0].span.col, col);
}

#[test]
fn sort_imports_test() {
    // Sort imports alphabetically
    // import a from 'foo.js';\nimport A from 'bar.js';
    assert_lint_err_on_line(
        vec![
            decl(1, 0, vec![default_import("a", 1, 7)]),
            decl(2, 0, vec![default_import("A", 2, 7)]),
        ],
        2,
        0,
    );
    // import b from 'foo.js';\nimport a from 'bar.js';
    assert_lint_err_on_line(
        vec![
            decl(1, 0, vec![default_import("b", 1, 7)]),
            decl(2, 0, vec![default_import("a", 2, 7)]),
        ],
        2,
        0,
    );
    // import {b, c} from 'foo.js';\nimport {a, d} from 'bar.js';
    assert_lint_err_on_line(
        vec![
            decl(1, 0, vec![named("b", 1, 8), named("c", 1, 11)]),
            decl(2, 0, vec![named("a", 2, 8), named("d", 2, 11)]),
        ],
        2,
        0,
    );
    // import * as foo from 'foo.js';\nimport * as bar from 'bar.js';
    assert_lint_err_on_line(
        vec![
            decl(1, 0, vec![namespace("foo", 1, 12)]),
            decl(2, 0, vec![namespace("bar", 2, 12)]),
        ],
        2,
        0,
    );

    // Unexpected syntax order
    // import a from 'foo.js';\nimport {b, c} from 'bar.js';
    assert_lint_err_on_line(
        vec![
            decl(1, 0, vec![default_import("a", 1, 7)]),
            decl(2, 0, vec![named("b", 2, 8), named("c", 2, 11)]),
        ],
        2,
        0,
    );
    // import a from 'foo.js';\nimport * as b from 'bar.js';
    assert_lint_err_on_line(
        vec![
            decl(1, 0, vec![default_import("a", 1, 7)]),
            decl(2, 0, vec![namespace("b", 2, 12)]),
        ],
        2,
        0,
    );
    // import a from 'foo.js';\nimport 'bar.js';
    assert_lint_err_on_line(
        vec![decl(1, 0, vec![default_import("a", 1, 7)]), decl(2, 0, vec![])],
        2,
        0,
    );

    // Sort members alphabetically
    // import {b, a, d, c} from 'foo.js';\nimport {e, f, g, h} from 'bar.js';
    assert_lint_err_on_line(
        vec![
            decl(
                1,
                0,
                vec![named("b", 1, 8), named("a", 1, 11), named("d", 1, 14), named("c", 1, 17)],
            ),
            decl(
                2,
                0,
                vec![named("e", 2, 8), named("f", 2, 11), named("g", 2, 14), named("h", 2, 17)],
            ),
        ],
        1,
        11,
    );
    // import {a, B, c, D} from 'foo.js';
    assert_lint_err_on_line(
        vec![decl(
            1,
            0,
            vec![named("a", 1, 8), named("B", 1, 11), named("c", 1, 14), named("D", 1, 17)],
        )],
        1,
        11,
    );
    // import {zzzzz, /* comment */ aaaaa} from 'foo.js';
    assert_lint_err_on_line(
        vec![decl(1, 0, vec![named("zzzzz", 1, 8), named("aaaaa", 1, 29)])],
        1,
        29,
    );
    // import {zzzzz /* comment */, aaaaa} from 'foo.js';
    assert_lint_err_on_line(
        vec![decl(1, 0, vec![named("zzzzz", 1, 8), named("aaaaa", 1, 29)])],
        1,
        29,
    );
    // import {/* comment */ zzzzz, aaaaa} from 'foo.js';
    assert_lint_err_on_line(
        vec![decl(1, 0, vec![named("zzzzz", 1, 22), named("aaaaa", 1, 29)])],
        1,
        29,
    );
    // import {zzzzz, aaaaa /* comment */} from 'foo.js';
    assert_lint_err_on_line(
        vec![decl(1, 0, vec![named("zzzzz", 1, 8), named("aaaaa", 1, 15)])],
        1,
        15,
    );
    // import {\n  boop,\n  foo,\n  zoo,\n  baz as qux,\n  bar,\n  beep\n} from 'foo.js';
    assert_lint_err_on_line(
        vec![decl(
            1,
            0,
            vec![
                named("boop", 2, 6),
                named("foo", 3, 6),
                named("zoo", 4, 6),
                named("qux", 5, 13),
                named("bar", 6, 6),
                named("beep", 7, 6),
            ],
        )],
        5,
        13,
    );
}
