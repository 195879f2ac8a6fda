//! The data model: statement shapes, source positions, normalized records,
//! rule options, and diagnostics, together with their spec-level views.

use vstd::prelude::*;

verus! {

/// The shape classification of one import statement: no bound names,
/// a namespace binding (`* as x`), two or more named bindings, or a
/// single bound name.
#[derive(Copy, Clone, Debug, PartialEq, Eq, Structural)]
pub enum ImportTypes {
    SideEffect,
    All,
    Multiple,
    Single,
}

/// A source position. The rule never interprets it; it is carried through
/// unchanged onto the diagnostics that point at the offending element.
#[derive(Copy, Clone, Debug, PartialEq, Eq, Structural)]
pub struct Location {
    /// 1-based line number.
    pub line: usize,
    /// 0-based column number.
    pub col: usize,
}

/// One bound-name form inside an import statement, with its bound local
/// name and the position of that name.
pub enum ImportSpecifier {
    /// A named binding, `{a}` or `{a as b}`.
    Named { local: String, span: Location },
    /// A default binding, `import a from ...`.
    DefaultImport { local: String, span: Location },
    /// A namespace binding, `import * as a from ...`.
    Namespace { local: String, span: Location },
}

/// One import statement as the host's traversal hands it over: the position
/// of the whole statement and its specifiers in source order.
pub struct ImportDecl {
    pub span: Location,
    pub specifiers: Vec<ImportSpecifier>,
}

/// A normalized record: the sort key, the position a diagnostic would point
/// at, and the statement shape it was derived from.
pub struct ImportIdent {
    pub import_decl: String,
    pub span: Location,
    pub import_type: ImportTypes,
}

/// Spec-level model of an [`ImportIdent`].
#[verifier::ext_equal]
pub ghost struct Record {
    pub name: Seq<char>,
    pub span: Location,
    pub kind: ImportTypes,
}

impl View for ImportIdent {
    type V = Record;

    open spec fn view(&self) -> Record {
        Record { name: self.import_decl@, span: self.span, kind: self.import_type }
    }
}

impl DeepView for ImportIdent {
    type V = Record;

    open spec fn deep_view(&self) -> Record {
        self@
    }
}

impl ImportIdent {
    /// Bundles a sort key, a position and a shape into one record.
    pub fn new(import_decl: String, span: Location, import_type: ImportTypes) -> (r: ImportIdent)
        ensures
            r@ == (Record { name: import_decl@, span, kind: import_type }),
    {
        ImportIdent { import_decl, span, import_type }
    }
}

/// The rule's options in canonical form.
pub struct SortImportsOptions {
    /// Lower-case the sort keys before comparing.
    pub ignore_case: bool,
    /// Skip the member-order check (it is also skipped when
    /// `ignore_member_sort` is set; neither flag gates the statement-order
    /// check).
    pub ignore_declaration_sort: bool,
    /// Skip the member-order check.
    pub ignore_member_sort: bool,
    /// The configured relative ordering of the four statement shapes.
    pub member_syntax_sort_order: Vec<ImportTypes>,
}

/// Every statement shape occurs somewhere in the configured group order, so
/// a group lookup cannot fail for any record.
pub open spec fn wf_options(o: &SortImportsOptions) -> bool {
    &&& o.member_syntax_sort_order@.contains(ImportTypes::SideEffect)
    &&& o.member_syntax_sort_order@.contains(ImportTypes::All)
    &&& o.member_syntax_sort_order@.contains(ImportTypes::Multiple)
    &&& o.member_syntax_sort_order@.contains(ImportTypes::Single)
}

/// One reported violation: where it points, the rule's fixed identifier,
/// and the formatted message.
pub struct Diagnostic {
    pub span: Location,
    pub code: String,
    pub message: String,
}

/// Spec-level model of a [`Diagnostic`].
#[verifier::ext_equal]
pub ghost struct DiagnosticModel {
    pub span: Location,
    pub code: Seq<char>,
    pub message: Seq<char>,
}

impl View for Diagnostic {
    type V = DiagnosticModel;

    open spec fn view(&self) -> DiagnosticModel {
        DiagnosticModel { span: self.span, code: self.code@, message: self.message@ }
    }
}

impl DeepView for Diagnostic {
    type V = DiagnosticModel;

    open spec fn deep_view(&self) -> DiagnosticModel {
        self@
    }
}

} // verus!
