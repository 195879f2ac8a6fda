use sort_imports::checker::{SortImports, SortImportsVisitor};
use sort_imports::config::{config_to_enum, import_types_to_string, str_to_import_types};
use sort_imports::types::{
    Diagnostic, ImportDecl, ImportIdent, ImportSpecifier, ImportTypes, Location,
    SortImportsOptions,
};

fn loc(line: usize, col: usize) -> Location {
    Location { line, col }
}

fn named(name: &str, line: usize, col: usize) -> ImportSpecifier {
    ImportSpecifier::Named { local: name.to_string(), span: loc(line, col) }
}

fn default_import(name: &str, line: usize, col: usize) -> ImportSpecifier {
    ImportSpecifier::DefaultImport { local: name.to_string(), span: loc(line, col) }
}

fn namespace(name: &str, line: usize, col: usize) -> ImportSpecifier {
    ImportSpecifier::Namespace { local: name.to_string(), span: loc(line, col) }
}

fn decl(line: usize, col: usize, specifiers: Vec<ImportSpecifier>) -> ImportDecl {
    ImportDecl { span: loc(line, col), specifiers }
}

fn run_with_options(options: SortImportsOptions, module: &[ImportDecl]) -> Vec<Diagnostic> {
    let mut visitor = SortImportsVisitor::with_options(options);
    for stmt in module {
        visitor.handle_import_decl(stmt);
    }
    visitor.sort_line_imports();
    visitor.diagnostics
}

#[test]
fn token_round_trip() {
    assert!(matches!(str_to_import_types("none"), ImportTypes::SideEffect));
    assert!(matches!(str_to_import_types("all"), ImportTypes::All));
    assert!(matches!(str_to_import_types("multiple"), ImportTypes::Multiple));
    assert!(matches!(str_to_import_types("single"), ImportTypes::Single));
    // An unrecognized token falls back to the side-effect group.
    assert!(matches!(str_to_import_types("bogus"), ImportTypes::SideEffect));
    assert!(matches!(str_to_import_types(""), ImportTypes::SideEffect));
    assert_eq!(import_types_to_string(&ImportTypes::SideEffect), "none");
    assert_eq!(import_types_to_string(&ImportTypes::All), "all");
    assert_eq!(import_types_to_string(&ImportTypes::Multiple), "multiple");
    assert_eq!(import_types_to_string(&ImportTypes::Single), "single");
}

#[test]
fn config_resolution() {
    let order = config_to_enum(["single", "bogus", "multiple", "none"]);
    assert_eq!(order.len(), 4);
    assert_eq!(order[0], ImportTypes::Single);
    assert_eq!(order[1], ImportTypes::SideEffect);
    assert_eq!(order[2], ImportTypes::Multiple);
    assert_eq!(order[3], ImportTypes::SideEffect);
}

#[test]
fn rule_code_fixed() {
    let rule = SortImports::new();
    assert_eq!(rule.code(), "sort-imports");
}

#[test]
fn empty_unit_is_silent() {
    let rule = SortImports::new();
    assert!(rule.lint_module(&vec![]).is_empty());
    let single = vec![decl(1, 0, vec![default_import("a", 1, 7)])];
    assert!(rule.lint_module(&single).is_empty());
}

#[test]
fn member_violation_message_names_member() {
    // import {b, a} from 'foo.js';
    let rule = SortImports::new();
    let module = vec![decl(1, 0, vec![named("b", 1, 8), named("a", 1, 11)])];
    let diags = rule.lint_module(&module);
    assert_eq!(diags.len(), 1);
    assert_eq!(
        diags[0].message,
        "Member 'a' of the import declaration should be sorted alphabetically"
    );
    assert_eq!(diags[0].span, loc(1, 11));
}

#[test]
fn alphabetical_violation_message() {
    // import b from 'foo.js';\nimport a from 'bar.js';
    let rule = SortImports::new();
    let module = vec![
        decl(1, 0, vec![default_import("b", 1, 7)]),
        decl(2, 0, vec![default_import("a", 2, 7)]),
    ];
    let diags = rule.lint_module(&module);
    assert_eq!(diags.len(), 1);
    assert_eq!(diags[0].message, "Imports should be sorted alphabetically");
    assert_eq!(diags[0].span, loc(2, 0));
}

#[test]
fn group_violation_message_names_both_groups() {
    // import a from 'foo.js';\nimport {b, c} from 'bar.js';
    let rule = SortImports::new();
    let module = vec![
        decl(1, 0, vec![default_import("a", 1, 7)]),
        decl(2, 0, vec![named("b", 2, 8), named("c", 2, 11)]),
    ];
    let diags = rule.lint_module(&module);
    assert_eq!(diags.len(), 1);
    assert_eq!(diags[0].message, "Expected 'multiple' syntax before 'single' syntax");
    // import a from 'foo.js';\nimport 'bar.js';
    let module = vec![decl(1, 0, vec![default_import("a", 1, 7)]), decl(2, 0, vec![])];
    let diags = rule.lint_module(&module);
    assert_eq!(diags.len(), 1);
    assert_eq!(diags[0].message, "Expected 'none' syntax before 'single' syntax");
}

#[test]
fn group_inversion_reported_despite_alphabetical_order() {
    // import a from 'a.js';\nimport {b, c} from 'b.js'; — keys a < b are in
    // order, yet the group inversion alone is still reported.
    let rule = SortImports::new();
    let module = vec![
        decl(1, 0, vec![default_import("a", 1, 7)]),
        decl(2, 0, vec![named("b", 2, 8), named("c", 2, 11)]),
    ];
    let diags = rule.lint_module(&module);
    assert_eq!(diags.len(), 1);
    assert_eq!(diags[0].message, "Expected 'multiple' syntax before 'single' syntax");
    assert_eq!(diags[0].span, loc(2, 0));
}

#[test]
fn equal_keys_are_ordered() {
    // Two statements with the same bound name draw nothing.
    let rule = SortImports::new();
    let module = vec![
        decl(1, 0, vec![default_import("a", 1, 7)]),
        decl(2, 0, vec![default_import("a", 2, 7)]),
    ];
    assert!(rule.lint_module(&module).is_empty());
}

#[test]
fn uppercase_sorts_before_lowercase_by_default() {
    // import {a, B, c, D} — naive lowercase order, but 'B' < 'a' by code point.
    let rule = SortImports::new();
    let module = vec![decl(
        1,
        0,
        vec![named("a", 1, 8), named("B", 1, 11), named("c", 1, 14), named("D", 1, 17)],
    )];
    let diags = rule.lint_module(&module);
    assert_eq!(diags.len(), 1);
    assert_eq!(
        diags[0].message,
        "Member 'B' of the import declaration should be sorted alphabetically"
    );
    assert_eq!(diags[0].span, loc(1, 11));
}

#[test]
fn ignore_case_lowers_keys_first() {
    // The same statement is clean once keys are compared case-insensitively.
    let mut options = SortImportsOptions::default_options();
    options.ignore_case = true;
    let module = vec![decl(
        1,
        0,
        vec![named("a", 1, 8), named("B", 1, 11), named("c", 1, 14), named("D", 1, 17)],
    )];
    assert!(run_with_options(options, &module).is_empty());
}

#[test]
fn sorted_members_report_nothing() {
    let rule = SortImports::new();
    let module = vec![decl(
        1,
        0,
        vec![named("a", 1, 8), named("a", 1, 11), named("b", 1, 14), named("c", 1, 17)],
    )];
    assert!(rule.lint_module(&module).is_empty());
}

#[test]
fn only_first_unsorted_member_reported() {
    // import {b, a, d, c} — 'c' is also out of order, but only 'a' is named.
    let rule = SortImports::new();
    let module = vec![decl(
        1,
        0,
        vec![named("b", 1, 8), named("a", 1, 11), named("d", 1, 14), named("c", 1, 17)],
    )];
    let diags = rule.lint_module(&module);
    assert_eq!(diags.len(), 1);
    assert_eq!(diags[0].span, loc(1, 11));
}

#[test]
fn ignore_member_sort_suppresses_member_diagnostics() {
    let mut options = SortImportsOptions::default_options();
    options.ignore_member_sort = true;
    let module = vec![decl(
        1,
        0,
        vec![named("b", 1, 8), named("a", 1, 11), named("d", 1, 14), named("c", 1, 17)],
    )];
    assert!(run_with_options(options, &module).is_empty());
}

#[test]
fn ignore_declaration_sort_gates_member_check_not_statement_check() {
    // The member disorder is no longer reported when declaration sorting is
    // skipped...
    let mut options = SortImportsOptions::default_options();
    options.ignore_declaration_sort = true;
    let module = vec![decl(
        1,
        0,
        vec![named("b", 1, 8), named("a", 1, 11), named("d", 1, 14), named("c", 1, 17)],
    )];
    assert!(run_with_options(options, &module).is_empty());
    // ...while the statement-order check still runs under the same flag.
    let mut options = SortImportsOptions::default_options();
    options.ignore_declaration_sort = true;
    let module = vec![
        decl(1, 0, vec![default_import("b", 1, 7)]),
        decl(2, 0, vec![default_import("a", 2, 7)]),
    ];
    let diags = run_with_options(options, &module);
    assert_eq!(diags.len(), 1);
    assert_eq!(diags[0].message, "Imports should be sorted alphabetically");
}

#[test]
fn custom_group_order_is_respected() {
    // With the order reversed, a single-name import may precede a
    // multi-name one...
    let mut options = SortImportsOptions::default_options();
    options.member_syntax_sort_order = config_to_enum(["single", "multiple", "all", "none"]);
    let module = vec![
        decl(1, 0, vec![default_import("a", 1, 7)]),
        decl(2, 0, vec![named("b", 2, 8), named("c", 2, 11)]),
    ];
    assert!(run_with_options(options, &module).is_empty());
    // ...and the default-order arrangement now draws the inverse complaint.
    let mut options = SortImportsOptions::default_options();
    options.member_syntax_sort_order = config_to_enum(["single", "multiple", "all", "none"]);
    let module = vec![
        decl(1, 0, vec![named("b", 1, 8), named("c", 1, 11)]),
        decl(2, 0, vec![default_import("a", 2, 7)]),
    ];
    let diags = run_with_options(options, &module);
    assert_eq!(diags.len(), 1);
    assert_eq!(diags[0].message, "Expected 'single' syntax before 'multiple' syntax");
}

#[test]
fn rerun_yields_identical_diagnostics() {
    // Running the statement-order checker twice over an unchanged
    // accumulator appends the same batch again.
    let mut visitor = SortImportsVisitor::default();
    visitor.handle_import_decl(&decl(1, 0, vec![default_import("b", 1, 7)]));
    visitor.handle_import_decl(&decl(2, 0, vec![default_import("a", 2, 7)]));
    visitor.sort_line_imports();
    let first: Vec<(Location, String)> =
        visitor.diagnostics.iter().map(|d| (d.span, d.message.clone())).collect();
    visitor.sort_line_imports();
    assert_eq!(visitor.diagnostics.len(), 2 * first.len());
    let second: Vec<(Location, String)> = visitor.diagnostics[first.len()..]
        .iter()
        .map(|d| (d.span, d.message.clone()))
        .collect();
    assert_eq!(first, second);
}

#[test]
fn mixed_default_and_named_specifiers() {
    // A default specifier first, then named ones: the record keeps the
    // default binding's name and the single-name shape, while the named
    // specifiers still get their member check.
    let rule = SortImports::new();
    let module = vec![
        decl(1, 0, vec![default_import("d", 1, 7), named("a", 1, 11), named("b", 1, 14)]),
        decl(2, 0, vec![default_import("c", 2, 7)]),
    ];
    let diags = rule.lint_module(&module);
    assert_eq!(diags.len(), 1);
    assert_eq!(diags[0].message, "Imports should be sorted alphabetically");
    assert_eq!(diags[0].span, loc(2, 0));
}

#[test]
fn multiple_statement_violations_all_reported_in_order() {
    // d, c, b: both adjacent pairs are alphabetical violations.
    let rule = SortImports::new();
    let module = vec![
        decl(1, 0, vec![default_import("d", 1, 7)]),
        decl(2, 0, vec![default_import("c", 2, 7)]),
        decl(3, 0, vec![default_import("b", 3, 7)]),
    ];
    let diags = rule.lint_module(&module);
    assert_eq!(diags.len(), 2);
    assert_eq!(diags[0].span, loc(2, 0));
    assert_eq!(diags[1].span, loc(3, 0));
}

#[test]
fn get_err_index_reports_every_index() {
    let visitor = SortImportsVisitor::default();
    let records = vec![
        ImportIdent::new("d".to_string(), loc(1, 0), ImportTypes::Single),
        ImportIdent::new("c".to_string(), loc(2, 0), ImportTypes::Single),
        ImportIdent::new("b".to_string(), loc(3, 0), ImportTypes::Single),
        ImportIdent::new("x".to_string(), loc(4, 0), ImportTypes::Multiple),
    ];
    let (first, alpha, group) = visitor.get_err_index(&records, Some(true));
    assert_eq!(first, Some(1));
    assert_eq!(alpha, Some(vec![1, 2]));
    assert_eq!(group, Some(vec![3]));
}

#[test]
fn get_err_index_member_mode_stops_at_first() {
    let visitor = SortImportsVisitor::default();
    let records = vec![
        ImportIdent::new("b".to_string(), loc(1, 8), ImportTypes::Multiple),
        ImportIdent::new("a".to_string(), loc(1, 11), ImportTypes::Multiple),
        ImportIdent::new("d".to_string(), loc(1, 14), ImportTypes::Multiple),
        ImportIdent::new("c".to_string(), loc(1, 17), ImportTypes::Multiple),
    ];
    let (first, alpha, group) = visitor.get_err_index(&records, None);
    assert_eq!(first, Some(1));
    assert!(alpha.is_none());
    assert!(group.is_none());
}

#[test]
fn group_and_alphabetical_violations_emitted_in_source_order() {
    // Statement 2 is an alphabetical violation; statement 3 is a group
    // inversion; the diagnostics come out in ascending source order.
    let rule = SortImports::new();
    let module = vec![
        decl(1, 0, vec![default_import("b", 1, 7)]),
        decl(2, 0, vec![default_import("a", 2, 7)]),
        decl(3, 0, vec![]),
    ];
    let diags = rule.lint_module(&module);
    assert_eq!(diags.len(), 2);
    assert_eq!(diags[0].span, loc(2, 0));
    assert_eq!(diags[0].message, "Imports should be sorted alphabetically");
    assert_eq!(diags[1].span, loc(3, 0));
    assert_eq!(diags[1].message, "Expected 'none' syntax before 'single' syntax");
}

#[test]
fn shorter_name_sorts_before_its_extension() {
    let rule = SortImports::new();
    let module = vec![decl(1, 0, vec![named("abc", 1, 8), named("ab", 1, 13)])];
    let diags = rule.lint_module(&module);
    assert_eq!(diags.len(), 1);
    assert_eq!(
        diags[0].message,
        "Member 'ab' of the import declaration should be sorted alphabetically"
    );
}
