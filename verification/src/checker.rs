//! The two checkers and the classifier: the member-order scan inside one
//! multi-name statement, the group-order and alphabetical scans across all
//! statements of a unit, and the conversion of raw statement descriptors
//! into normalized records.

use crate::compare::{key_lt, str_key_lt};
use crate::config::{default_group_order, import_types_to_string, kind_name, config_to_enum};
use crate::types::{
    Diagnostic, DiagnosticModel, ImportDecl, ImportIdent, ImportSpecifier, ImportTypes, Location,
    Record, SortImportsOptions, wf_options,
};
use vstd::prelude::*;

verus! {

/// The position of a statement shape in the configured group order: the
/// index of its first occurrence, or the order's length when it is absent.
pub open spec fn group_index(order: Seq<ImportTypes>, t: ImportTypes) -> int
    decreases order.len(),
{
    if order.len() == 0 {
        0
    } else if order[0] == t {
        0
    } else {
        1 + group_index(order.drop_first(), t)
    }
}

/// What `group_index` finds: the first occurrence when the shape is listed,
/// and the order's length when it is not.
pub proof fn lemma_group_index(order: Seq<ImportTypes>, t: ImportTypes)
    ensures
        0 <= group_index(order, t) <= order.len(),
        order.contains(t) <==> group_index(order, t) < order.len(),
        group_index(order, t) < order.len() ==> order[group_index(order, t)] == t,
        forall|j: int| 0 <= j < group_index(order, t) ==> order[j] != t,
    decreases order.len(),
{
    if order.len() > 0 && order[0] != t {
        lemma_group_index(order.drop_first(), t);
        assert(order.contains(t) ==> order.drop_first().contains(
            t,
        )) by {
            if order.contains(t) {
                let k = choose|k: int| 0 <= k < order.len() && order[k] == t;
                assert(order.drop_first()[k - 1] == t);
            }
        }
        assert(order.drop_first().contains(t) ==> order.contains(t)) by {
            if order.drop_first().contains(t) {
                let k = choose|k: int|
                    0 <= k < order.drop_first().len() && order.drop_first()[k] == t;
                assert(order[k + 1] == t);
            }
        }
        assert forall|j: int| 0 <= j < group_index(order, t) implies order[j] != t by {
            if j > 0 {
                assert(order.drop_first()[j - 1] != t);
            }
        }
    }
}

/// An adjacent member pair is out of order: the later name's key sorts
/// strictly before the earlier one's.
pub open spec fn member_viol(rs: Seq<Record>, ci: bool, i: int) -> bool {
    1 <= i < rs.len() && key_lt(rs[i].name, rs[i - 1].name, ci)
}

/// Adjacent statements sit in the same configured group.
pub open spec fn same_group(rs: Seq<Record>, order: Seq<ImportTypes>, i: int) -> bool {
    group_index(order, rs[i].kind) == group_index(order, rs[i - 1].kind)
}

/// An adjacent statement pair violates the group order: the later
/// statement's group comes strictly earlier in the configured order.
pub open spec fn group_viol(rs: Seq<Record>, order: Seq<ImportTypes>, i: int) -> bool {
    1 <= i < rs.len() && group_index(order, rs[i].kind) < group_index(order, rs[i - 1].kind)
}

/// An adjacent statement pair in the same group is out of alphabetical
/// order.
pub open spec fn alpha_viol(rs: Seq<Record>, order: Seq<ImportTypes>, ci: bool, i: int) -> bool {
    1 <= i < rs.len() && same_group(rs, order, i) && key_lt(rs[i].name, rs[i - 1].name, ci)
}

/// The first out-of-order member at or after position `i`, if any.
pub open spec fn first_member_viol_from(rs: Seq<Record>, ci: bool, i: int) -> Option<int>
    decreases rs.len() - i,
{
    if i >= rs.len() || i < 1 {
        Option::None
    } else if key_lt(rs[i].name, rs[i - 1].name, ci) {
        Option::Some(i)
    } else {
        first_member_viol_from(rs, ci, i + 1)
    }
}

/// The first out-of-order member of a statement, if any.
pub open spec fn first_member_viol(rs: Seq<Record>, ci: bool) -> Option<int> {
    first_member_viol_from(rs, ci, 1)
}

/// What `first_member_viol_from` finds: the earliest violation at or after
/// `i`, or nothing when every later pair is in order.
pub proof fn lemma_first_member_viol_from(rs: Seq<Record>, ci: bool, i: int)
    requires
        1 <= i,
    ensures
        match first_member_viol_from(rs, ci, i) {
            Option::Some(f) => i <= f < rs.len() && member_viol(rs, ci, f) && (forall|j: int|
                i <= j < f ==> !member_viol(rs, ci, j)),
            Option::None => forall|j: int| i <= j ==> !member_viol(rs, ci, j),
        },
    decreases rs.len() - i,
{
    if i < rs.len() && !key_lt(rs[i].name, rs[i - 1].name, ci) {
        lemma_first_member_viol_from(rs, ci, i + 1);
    }
}

/// A prefix free of violations does not change what the scan finds.
pub proof fn lemma_first_member_viol_skip(rs: Seq<Record>, ci: bool, i: int)
    requires
        1 <= i,
        forall|j: int| 1 <= j < i ==> !member_viol(rs, ci, j),
    ensures
        first_member_viol(rs, ci) == first_member_viol_from(rs, ci, i),
    decreases i,
{
    if i > 1 {
        lemma_first_member_viol_skip(rs, ci, i - 1);
        assert(!member_viol(rs, ci, i - 1));
    }
}

/// The statement-pair predicates as function values, so that contracts,
/// invariants and lemmas all speak of one and the same predicate term.
pub open spec fn alpha_pred(rs: Seq<Record>, order: Seq<ImportTypes>, ci: bool) -> spec_fn(
    int,
) -> bool {
    |j: int| alpha_viol(rs, order, ci, j)
}

/// The group-order violation predicate as a function value.
pub open spec fn group_pred(rs: Seq<Record>, order: Seq<ImportTypes>) -> spec_fn(int) -> bool {
    |j: int| group_viol(rs, order, j)
}

/// `v` lists, in ascending order, exactly the indices below `n` that satisfy
/// the violation predicate `p` (indices of interest start at 1).
pub open spec fn lists_viols(v: Seq<usize>, p: spec_fn(int) -> bool, n: int) -> bool {
    &&& (forall|k: int|
        0 <= k < v.len() ==> ((#[trigger] v[k]) as int) < n && 1 <= v[k] && p(v[k] as int))
    &&& (forall|k1: int, k2: int| 0 <= k1 < k2 < v.len() ==> v[k1] < v[k2])
    &&& (forall|j: int| 1 <= j < n && #[trigger] p(j) ==> v.contains(j as usize))
}

/// Appending the next violating index keeps the listing exact.
proof fn lemma_lists_viols_push(v: Seq<usize>, x: usize, p: spec_fn(int) -> bool)
    requires
        lists_viols(v, p, x as int),
        1 <= x,
        p(x as int),
    ensures
        lists_viols(v.push(x), p, x as int + 1),
{
    assert forall|j: int| 1 <= j < x as int + 1 && #[trigger] p(j) implies v.push(x).contains(
        j as usize,
    ) by {
        if j < x as int {
            let k = choose|k: int| 0 <= k < v.len() && v[k] == j as usize;
            assert(v.push(x)[k] == j as usize);
        } else {
            assert(v.push(x)[v.len() as int] == x);
        }
    }
}

/// Passing a non-violating index keeps the listing exact.
proof fn lemma_lists_viols_extend(v: Seq<usize>, p: spec_fn(int) -> bool, n: int)
    requires
        lists_viols(v, p, n),
        !p(n),
    ensures
        lists_viols(v, p, n + 1),
{
}

/// The rule's fixed identifier, carried on every diagnostic.
pub open spec fn rule_code() -> Seq<char> {
    "sort-imports"@
}

/// The message of a statement-level alphabetical violation.
pub open spec fn alpha_message() -> Seq<char> {
    "Imports should be sorted alphabetically"@
}

/// The message of a group-order violation: the later statement's group was
/// expected before the earlier statement's group.
pub open spec fn group_message(next: ImportTypes, cur: ImportTypes) -> Seq<char> {
    "Expected '"@ + kind_name(next) + "' syntax before '"@ + kind_name(cur) + "' syntax"@
}

/// The message of a member-order violation, naming the offending member.
pub open spec fn member_message(name: Seq<char>) -> Seq<char> {
    "Member '"@ + name + "' of the import declaration should be sorted alphabetically"@
}

/// What the statement-order checker reports for the adjacent pair ending at
/// `i`: a group-order violation, else an alphabetical violation, else
/// nothing — never both, and always at the later statement's position.
pub open spec fn pair_diag(
    rs: Seq<Record>,
    order: Seq<ImportTypes>,
    ci: bool,
    i: int,
) -> Seq<DiagnosticModel> {
    if group_viol(rs, order, i) {
        seq![
            DiagnosticModel {
                span: rs[i].span,
                code: rule_code(),
                message: group_message(rs[i].kind, rs[i - 1].kind),
            },
        ]
    } else if alpha_viol(rs, order, ci, i) {
        seq![DiagnosticModel { span: rs[i].span, code: rule_code(), message: alpha_message() }]
    } else {
        Seq::empty()
    }
}

/// The statement-order diagnostics over the pairs ending below `n`, in
/// ascending source order.
pub open spec fn line_diags_upto(
    rs: Seq<Record>,
    order: Seq<ImportTypes>,
    ci: bool,
    n: int,
) -> Seq<DiagnosticModel>
    decreases n,
{
    if n <= 1 {
        Seq::empty()
    } else {
        line_diags_upto(rs, order, ci, n - 1) + pair_diag(rs, order, ci, n - 1)
    }
}

/// Everything the statement-order checker reports for a record sequence.
pub open spec fn line_diags(rs: Seq<Record>, order: Seq<ImportTypes>, ci: bool) -> Seq<
    DiagnosticModel,
> {
    line_diags_upto(rs, order, ci, rs.len() as int)
}

/// What the member-order checker reports for one statement's members: only
/// the first out-of-order member, or nothing.
pub open spec fn member_diags(rs: Seq<Record>, ci: bool) -> Seq<DiagnosticModel> {
    match first_member_viol(rs, ci) {
        Option::Some(i) => seq![
            DiagnosticModel {
                span: rs[i].span,
                code: rule_code(),
                message: member_message(rs[i].name),
            },
        ],
        Option::None => Seq::empty(),
    }
}

/// The shape of a statement classified from a named specifier: multiple
/// names when the statement has more than one specifier, else a single name.
pub open spec fn statement_kind(n: int) -> ImportTypes {
    if n > 1 {
        ImportTypes::Multiple
    } else {
        ImportTypes::Single
    }
}

/// The record the classifier has built after reading the first `i`
/// specifiers: a side-effect record until a specifier binds a name; a named
/// specifier decides only from the first position, while default and
/// namespace specifiers overwrite from any position.
pub open spec fn classify_upto(specs: Seq<ImportSpecifier>, decl_span: Location, i: int) -> Record
    decreases i,
{
    if i <= 0 {
        Record { name: Seq::empty(), span: decl_span, kind: ImportTypes::SideEffect }
    } else {
        let prev = classify_upto(specs, decl_span, i - 1);
        match specs[i - 1] {
            ImportSpecifier::Named { local, span } => {
                if i == 1 {
                    Record {
                        name: local@,
                        span: decl_span,
                        kind: statement_kind(specs.len() as int),
                    }
                } else {
                    prev
                }
            },
            ImportSpecifier::DefaultImport { local, span } => Record {
                name: local@,
                span: decl_span,
                kind: ImportTypes::Single,
            },
            ImportSpecifier::Namespace { local, span } => Record {
                name: local@,
                span: decl_span,
                kind: ImportTypes::All,
            },
        }
    }
}

/// The normalized record of one import statement.
pub open spec fn classify(d: ImportDecl) -> Record {
    classify_upto(d.specifiers@, d.span, d.specifiers@.len() as int)
}

/// The member records drawn from the first `i` specifiers: one per named
/// specifier, in source order, at the bound name's own position.
pub open spec fn members_upto(specs: Seq<ImportSpecifier>, i: int) -> Seq<Record>
    decreases i,
{
    if i <= 0 {
        Seq::empty()
    } else {
        members_upto(specs, i - 1) + (match specs[i - 1] {
            ImportSpecifier::Named { local, span } => seq![
                Record { name: local@, span: span, kind: statement_kind(specs.len() as int) },
            ],
            _ => Seq::empty(),
        })
    }
}

/// The member records of one import statement.
pub open spec fn members_of(d: ImportDecl) -> Seq<Record> {
    members_upto(d.specifiers@, d.specifiers@.len() as int)
}

/// What the member-order checker reports for one statement under the given
/// flags: nothing when either flag skips it.
pub open spec fn stmt_member_diags(d: ImportDecl, ids: bool, ims: bool, ci: bool) -> Seq<
    DiagnosticModel,
> {
    if ids || ims {
        Seq::empty()
    } else {
        member_diags(members_of(d), ci)
    }
}

/// The member-order diagnostics of a whole unit, statement by statement in
/// source order.
pub open spec fn all_member_diags(ds: Seq<ImportDecl>, ids: bool, ims: bool, ci: bool) -> Seq<
    DiagnosticModel,
>
    decreases ds.len(),
{
    if ds.len() == 0 {
        Seq::empty()
    } else {
        all_member_diags(ds.drop_last(), ids, ims, ci) + stmt_member_diags(ds.last(), ids, ims, ci)
    }
}

/// The normalized records of a whole unit, in source order.
pub open spec fn records_of(ds: Seq<ImportDecl>) -> Seq<Record> {
    ds.map_values(|d: ImportDecl| classify(d))
}

/// Everything one rule invocation reports for a unit: the member-order
/// diagnostics emitted during traversal, then the statement-order
/// diagnostics.
pub open spec fn rule_diags(
    ds: Seq<ImportDecl>,
    ids: bool,
    ims: bool,
    ci: bool,
    order: Seq<ImportTypes>,
) -> Seq<DiagnosticModel> {
    all_member_diags(ds, ids, ims, ci) + line_diags(records_of(ds), order, ci)
}

impl SortImportsOptions {
    /// The canonical default options: case-sensitive comparison, neither
    /// check skipped, and the default group order.
    pub fn default_options() -> (o: SortImportsOptions)
        ensures
            !o.ignore_case,
            !o.ignore_declaration_sort,
            !o.ignore_member_sort,
            o.member_syntax_sort_order@ == default_group_order(),
            wf_options(&o),
    {
        let tokens = ["none", "all", "multiple", "single"];
        let order = config_to_enum(tokens);
        proof {
            reveal_strlit("none");
            reveal_strlit("all");
            reveal_strlit("multiple");
            reveal_strlit("single");
            assert(tokens@[0]@ == "none"@);
            assert(tokens@[1]@ == "all"@);
            assert(tokens@[2]@ == "multiple"@);
            assert(tokens@[3]@ == "single"@);
            assert(order@[0] == ImportTypes::SideEffect);
            assert(order@[1] == ImportTypes::All);
            assert(order@[2] == ImportTypes::Multiple);
            assert("single"@.len() == 6 && "none"@.len() == 4 && "all"@.len() == 3
                && "multiple"@.len() == 8);
            assert(order@[3] == ImportTypes::Single);
            assert(order@ =~= default_group_order());
        }
        SortImportsOptions {
            ignore_case: false,
            ignore_declaration_sort: false,
            ignore_member_sort: false,
            member_syntax_sort_order: order,
        }
    }
}

/// The accumulating state of one rule invocation over one source unit.
pub struct SortImportsVisitor {
    /// The options the checkers run under.
    pub options: SortImportsOptions,
    /// One normalized record per import statement, in source order.
    pub line_imports: Vec<ImportIdent>,
    /// The violations reported so far, in emission order.
    pub diagnostics: Vec<Diagnostic>,
}

impl SortImportsVisitor {
    /// A fresh accumulator under the default options.
    pub fn default() -> (v: SortImportsVisitor)
        ensures
            !v.options.ignore_case,
            !v.options.ignore_declaration_sort,
            !v.options.ignore_member_sort,
            v.options.member_syntax_sort_order@ == default_group_order(),
            wf_options(&v.options),
            v.line_imports@ =~= Seq::<ImportIdent>::empty(),
            v.diagnostics@ =~= Seq::<Diagnostic>::empty(),
    {
        SortImportsVisitor {
            options: SortImportsOptions::default_options(),
            line_imports: Vec::new(),
            diagnostics: Vec::new(),
        }
    }

    /// A fresh accumulator under the given options.
    pub fn with_options(options: SortImportsOptions) -> (v: SortImportsVisitor)
        ensures
            v.options == options,
            v.line_imports@ =~= Seq::<ImportIdent>::empty(),
            v.diagnostics@ =~= Seq::<Diagnostic>::empty(),
    {
        SortImportsVisitor { options, line_imports: Vec::new(), diagnostics: Vec::new() }
    }

    /// The position of a statement shape in the configured group order.
    pub fn get_member_param_grp_index(&self, variant: ImportTypes) -> (r: Option<usize>)
        ensures
            ({
                let order = self.options.member_syntax_sort_order@;
                match r {
                    Option::Some(i) => i as int == group_index(order, variant) && (i as int)
                        < order.len(),
                    Option::None => !order.contains(variant),
                }
            }),
    {
        let order = &self.options.member_syntax_sort_order;
        let n = order.len();
        let mut idx: usize = 0;
        while idx < n
            invariant
                idx <= n,
                n == order@.len(),
                order@ == self.options.member_syntax_sort_order@,
                forall|j: int| 0 <= j < idx ==> order@[j] != variant,
            decreases n - idx,
        {
            if order[idx] == variant {
                proof {
                    lemma_group_index(order@, variant);
                    assert(order@.contains(variant));
                    let g = group_index(order@, variant);
                    assert(order@[g] == variant);
                    assert(g >= idx);
                    assert(g <= idx);
                }
                return Option::Some(idx);
            }
            idx += 1;
        }
        proof {
            lemma_group_index(order@, variant);
            if order@.contains(variant) {
                let k = choose|k: int| 0 <= k < order@.len() && order@[k] == variant;
                assert(order@[k] != variant);
            }
        }
        Option::None
    }

    /// One scan over adjacent record pairs, in both of its modes.
    ///
    /// Without `report_multiple` it is the member-order scan: the first
    /// out-of-order pair is found and the scan stops. With
    /// `report_multiple` it is the statement-order scan: every group-order
    /// violation and every same-group alphabetical violation is listed in
    /// ascending source order, and a group change that is not a violation
    /// skips the alphabetical comparison for that pair.
    pub fn get_err_index(
        &self,
        import_specifiers: &Vec<ImportIdent>,
        report_multiple: Option<bool>,
    ) -> (r: (Option<usize>, Option<Vec<usize>>, Option<Vec<usize>>))
        requires
            report_multiple is Some ==> forall|k: int|
                0 <= k < import_specifiers@.len()
                    ==> self.options.member_syntax_sort_order@.contains(
                    (#[trigger] import_specifiers@[k]).import_type,
                ),
        ensures
            ({
                let rs = import_specifiers.deep_view();
                let order = self.options.member_syntax_sort_order@;
                let ci = self.options.ignore_case;
                match report_multiple {
                    Option::Some(_) => {
                        &&& (match r.0 {
                            Option::Some(f) => alpha_viol(rs, order, ci, f as int) && (forall|
                                j: int,
                            |
                                1 <= j < f as int ==> !alpha_viol(rs, order, ci, j)),
                            Option::None => forall|j: int| !alpha_viol(rs, order, ci, j),
                        })
                        &&& (match r.1 {
                            Option::Some(v) => v@.len() > 0 && lists_viols(
                                v@,
                                alpha_pred(rs, order, ci),
                                rs.len() as int,
                            ),
                            Option::None => forall|j: int| !alpha_viol(rs, order, ci, j),
                        })
                        &&& (match r.2 {
                            Option::Some(v) => v@.len() > 0 && lists_viols(
                                v@,
                                group_pred(rs, order),
                                rs.len() as int,
                            ),
                            Option::None => forall|j: int| !group_viol(rs, order, j),
                        })
                    },
                    Option::None => {
                        &&& r.1 is None
                        &&& r.2 is None
                        &&& (match r.0 {
                            Option::Some(f) => first_member_viol(rs, ci) == Option::Some(
                                f as int,
                            ),
                            Option::None => first_member_viol(rs, ci) is None,
                        })
                    },
                }
            }),
    {
        let ghost rs = import_specifiers.deep_view();
        let ghost order = self.options.member_syntax_sort_order@;
        let ci = self.options.ignore_case;
        let n = import_specifiers.len();
        if n == 0 {
            proof {
                lemma_first_member_viol_from(rs, ci, 1);
            }
            return (Option::None, Option::None, Option::None);
        }
        let mut first_unsorted_index: Option<usize> = Option::None;
        let mut error_indices: Vec<usize> = Vec::new();
        let mut unexpected_order_indices: Vec<usize> = Vec::new();
        let multiple = report_multiple.is_some();
        let mut i: usize = 1;
        while i < n
            invariant
                1 <= i <= n,
                n == rs.len(),
                n == import_specifiers@.len(),
                rs == import_specifiers.deep_view(),
                order == self.options.member_syntax_sort_order@,
                ci == self.options.ignore_case,
                multiple == report_multiple is Some,
                multiple ==> forall|k: int|
                    0 <= k < import_specifiers@.len() ==> order.contains(
                        (#[trigger] import_specifiers@[k]).import_type,
                    ),
                multiple ==> lists_viols(error_indices@, alpha_pred(rs, order, ci), i as int),
                multiple ==> lists_viols(
                    unexpected_order_indices@,
                    group_pred(rs, order),
                    i as int,
                ),
                multiple ==> (first_unsorted_index is None <==> error_indices@.len() == 0),
                multiple ==> (unexpected_order_indices@.len() == 0 ==> forall|j: int|
                    1 <= j < i ==> !group_viol(rs, order, j)),
                multiple ==> match first_unsorted_index {
                    Option::Some(f) => 1 <= f < i && alpha_viol(rs, order, ci, f as int) && (
                    forall|j: int| 1 <= j < f as int ==> !alpha_viol(rs, order, ci, j)),
                    Option::None => forall|j: int| 1 <= j < i ==> !alpha_viol(rs, order, ci, j),
                },
                !multiple ==> first_unsorted_index is None && error_indices@.len() == 0
                    && unexpected_order_indices@.len() == 0 && (forall|j: int|
                    1 <= j < i ==> !member_viol(rs, ci, j)),
            decreases n - i,
        {
            proof {
                assert(rs[i as int] == import_specifiers@[i as int].deep_view());
                assert(rs[i as int - 1] == import_specifiers@[i as int - 1].deep_view());
            }
            if multiple {
                let ghost ap = alpha_pred(rs, order, ci);
                let ghost gp = group_pred(rs, order);
                let current_member_group_index = self.get_member_param_grp_index(
                    import_specifiers[i - 1].import_type,
                ).unwrap();
                let next_member_group_index = self.get_member_param_grp_index(
                    import_specifiers[i].import_type,
                ).unwrap();
                if current_member_group_index != next_member_group_index {
                    proof {
                        assert(!same_group(rs, order, i as int));
                        assert(!ap(i as int));
                        lemma_lists_viols_extend(error_indices@, ap, i as int);
                    }
                    if next_member_group_index < current_member_group_index {
                        proof {
                            assert(gp(i as int));
                            lemma_lists_viols_push(unexpected_order_indices@, i, gp);
                        }
                        unexpected_order_indices.push(i);
                    } else {
                        proof {
                            assert(!gp(i as int));
                            lemma_lists_viols_extend(unexpected_order_indices@, gp, i as int);
                        }
                    }
                } else {
                    proof {
                        assert(same_group(rs, order, i as int));
                        assert(!gp(i as int));
                        lemma_lists_viols_extend(unexpected_order_indices@, gp, i as int);
                    }
                    if str_key_lt(
                        import_specifiers[i].import_decl.as_str(),
                        import_specifiers[i - 1].import_decl.as_str(),
                        ci,
                    ) {
                        proof {
                            assert(ap(i as int));
                            lemma_lists_viols_push(error_indices@, i, ap);
                        }
                        if first_unsorted_index.is_none() {
                            first_unsorted_index = Option::Some(i);
                        }
                        error_indices.push(i);
                    } else {
                        proof {
                            assert(!ap(i as int));
                            lemma_lists_viols_extend(error_indices@, ap, i as int);
                        }
                    }
                }
            } else {
                if str_key_lt(
                    import_specifiers[i].import_decl.as_str(),
                    import_specifiers[i - 1].import_decl.as_str(),
                    ci,
                ) {
                    proof {
                        assert(member_viol(rs, ci, i as int));
                        lemma_first_member_viol_skip(rs, ci, i as int);
                    }
                    return (Option::Some(i), Option::None, Option::None);
                }
            }
            i += 1;
        }
        proof {
            if !multiple {
                lemma_first_member_viol_skip(rs, ci, n as int);
            }
        }
        (
            first_unsorted_index,
            if error_indices.len() > 0 {
                Option::Some(error_indices)
            } else {
                Option::None
            },
            if unexpected_order_indices.len() > 0 {
                Option::Some(unexpected_order_indices)
            } else {
                Option::None
            },
        )
    }

    /// The member-order check of one multi-name statement: unless skipped by
    /// the options, the first out-of-order member is reported, with a message
    /// naming that member.
    pub fn sort_import_decl(&mut self, import_specifiers: &Vec<ImportIdent>)
        ensures
            final(self).options == old(self).options,
            final(self).line_imports == old(self).line_imports,
            final(self).diagnostics.deep_view() == old(self).diagnostics.deep_view() + (
            if old(self).options.ignore_member_sort {
                Seq::<DiagnosticModel>::empty()
            } else {
                member_diags(import_specifiers.deep_view(), old(self).options.ignore_case)
            }),
    {
        let ghost rs = import_specifiers.deep_view();
        let ghost ci = self.options.ignore_case;
        if !self.options.ignore_member_sort {
            let r = self.get_err_index(import_specifiers, Option::None);
            if let Option::Some(index) = r.0 {
                proof {
                    lemma_first_member_viol_from(rs, ci, 1);
                    assert(rs[index as int] == import_specifiers@[index as int].deep_view());
                }
                let mut err_string = String::from_str("Member '");
                err_string.append(import_specifiers[index].import_decl.as_str());
                err_string.append("' of the import declaration should be sorted alphabetically");
                let d = Diagnostic {
                    span: import_specifiers[index].span,
                    code: String::from_str("sort-imports"),
                    message: err_string,
                };
                self.diagnostics.push(d);
                proof {
                    assert(self.diagnostics.deep_view() =~= old(self).diagnostics.deep_view()
                        + member_diags(rs, ci));
                }
                return ;
            }
            proof {
                assert(self.diagnostics.deep_view() =~= old(self).diagnostics.deep_view()
                    + member_diags(rs, ci));
            }
        } else {
            proof {
                assert(self.diagnostics.deep_view() =~= old(self).diagnostics.deep_view()
                    + Seq::<DiagnosticModel>::empty());
            }
        }
    }

    /// The statement-order check over the given records: one pass over the
    /// adjacent pairs, reporting each group-order violation and each
    /// same-group alphabetical violation in ascending source order.
    fn line_pass(&self, records: &Vec<ImportIdent>) -> (out: Vec<Diagnostic>)
        requires
            forall|k: int|
                0 <= k < records@.len() ==> self.options.member_syntax_sort_order@.contains(
                    (#[trigger] records@[k]).import_type,
                ),
        ensures
            out.deep_view() == line_diags(
                records.deep_view(),
                self.options.member_syntax_sort_order@,
                self.options.ignore_case,
            ),
    {
        let ghost rs = records.deep_view();
        let ghost order = self.options.member_syntax_sort_order@;
        let ci = self.options.ignore_case;
        let mut out: Vec<Diagnostic> = Vec::new();
        let n = records.len();
        if n == 0 {
            proof {
                assert(out.deep_view() =~= line_diags(rs, order, ci));
            }
            return out;
        }
        let mut i: usize = 1;
        while i < n
            invariant
                1 <= i <= n,
                n == rs.len(),
                n == records@.len(),
                rs == records.deep_view(),
                order == self.options.member_syntax_sort_order@,
                ci == self.options.ignore_case,
                forall|k: int|
                    0 <= k < records@.len() ==> order.contains(
                        (#[trigger] records@[k]).import_type,
                    ),
                out.deep_view() == line_diags_upto(rs, order, ci, i as int),
            decreases n - i,
        {
            proof {
                assert(rs[i as int] == records@[i as int].deep_view());
                assert(rs[i as int - 1] == records@[i as int - 1].deep_view());
            }
            let current_member_group_index = self.get_member_param_grp_index(
                records[i - 1].import_type,
            ).unwrap();
            let next_member_group_index = self.get_member_param_grp_index(
                records[i].import_type,
            ).unwrap();
            if current_member_group_index != next_member_group_index {
                if next_member_group_index < current_member_group_index {
                    let mut err_string = String::from_str("Expected '");
                    err_string.append(import_types_to_string(&records[i].import_type).as_str());
                    err_string.append("' syntax before '");
                    err_string.append(
                        import_types_to_string(&records[i - 1].import_type).as_str(),
                    );
                    err_string.append("' syntax");
                    let d = Diagnostic {
                        span: records[i].span,
                        code: String::from_str("sort-imports"),
                        message: err_string,
                    };
                    out.push(d);
                    proof {
                        assert(group_viol(rs, order, i as int));
                        assert(out.deep_view() =~= line_diags_upto(rs, order, ci, i as int + 1));
                    }
                } else {
                    proof {
                        assert(!group_viol(rs, order, i as int));
                        assert(!alpha_viol(rs, order, ci, i as int));
                        assert(out.deep_view() =~= line_diags_upto(rs, order, ci, i as int + 1));
                    }
                }
            } else {
                proof {
                    assert(same_group(rs, order, i as int));
                    assert(!group_viol(rs, order, i as int));
                }
                if str_key_lt(
                    records[i].import_decl.as_str(),
                    records[i - 1].import_decl.as_str(),
                    ci,
                ) {
                    let d = Diagnostic {
                        span: records[i].span,
                        code: String::from_str("sort-imports"),
                        message: String::from_str("Imports should be sorted alphabetically"),
                    };
                    out.push(d);
                    proof {
                        assert(alpha_viol(rs, order, ci, i as int));
                        assert(out.deep_view() =~= line_diags_upto(rs, order, ci, i as int + 1));
                    }
                } else {
                    proof {
                        assert(!alpha_viol(rs, order, ci, i as int));
                        assert(out.deep_view() =~= line_diags_upto(rs, order, ci, i as int + 1));
                    }
                }
            }
            i += 1;
        }
        out
    }

    /// The statement-order check over every record accumulated so far; the
    /// records and options are left unchanged, so a second run would append
    /// the same diagnostics again.
    pub fn sort_line_imports(&mut self)
        requires
            forall|k: int|
                0 <= k < old(self).line_imports@.len() ==> old(
                    self,
                ).options.member_syntax_sort_order@.contains(
                    (#[trigger] old(self).line_imports@[k]).import_type,
                ),
        ensures
            final(self).options == old(self).options,
            final(self).line_imports == old(self).line_imports,
            final(self).diagnostics.deep_view() == old(self).diagnostics.deep_view() + line_diags(
                old(self).line_imports.deep_view(),
                old(self).options.member_syntax_sort_order@,
                old(self).options.ignore_case,
            ),
    {
        let mut extra = self.line_pass(&self.line_imports);
        let ghost extra_view = extra.deep_view();
        self.diagnostics.append(&mut extra);
        proof {
            assert(self.diagnostics.deep_view() =~= old(self).diagnostics.deep_view()
                + extra_view);
        }
    }

    /// The classifier: normalizes one statement descriptor into a record,
    /// appends it to the accumulator, and, unless either skip flag is set,
    /// runs the member-order check over the statement's named specifiers.
    pub fn handle_import_decl(&mut self, import_stmt: &ImportDecl)
        ensures
            final(self).options == old(self).options,
            final(self).line_imports.deep_view() == old(self).line_imports.deep_view() + seq![
                classify(*import_stmt),
            ],
            final(self).diagnostics.deep_view() == old(self).diagnostics.deep_view()
                + stmt_member_diags(
                *import_stmt,
                old(self).options.ignore_declaration_sort,
                old(self).options.ignore_member_sort,
                old(self).options.ignore_case,
            ),
    {
        let ghost specs = import_stmt.specifiers@;
        let specifiers = &import_stmt.specifiers;
        let n = specifiers.len();
        let mut import_ident_vec: Vec<ImportIdent> = Vec::new();
        let mut import_ident: ImportIdent = ImportIdent::new(
            String::from_str(""),
            import_stmt.span,
            ImportTypes::SideEffect,
        );
        proof {
            reveal_strlit("");
            assert(""@ =~= Seq::<char>::empty());
            assert(import_ident@ =~= classify_upto(specs, import_stmt.span, 0));
            assert(import_ident_vec.deep_view() =~= members_upto(specs, 0));
        }
        let mut index: usize = 0;
        while index < n
            invariant
                index <= n,
                n == specs.len(),
                specs == import_stmt.specifiers@,
                specifiers@ == specs,
                import_ident@ == classify_upto(specs, import_stmt.span, index as int),
                import_ident_vec.deep_view() == members_upto(specs, index as int),
            decreases n - index,
        {
            let ghost prev_members = import_ident_vec.deep_view();
            match &specifiers[index] {
                ImportSpecifier::Named { local, span } => {
                    let t = if n > 1 {
                        ImportTypes::Multiple
                    } else {
                        ImportTypes::Single
                    };
                    import_ident_vec.push(ImportIdent::new(local.clone(), *span, t));
                    if index == 0 {
                        import_ident = ImportIdent::new(local.clone(), import_stmt.span, t);
                    }
                    proof {
                        assert(import_ident_vec.deep_view() =~= members_upto(
                            specs,
                            index as int + 1,
                        ));
                        assert(import_ident@ =~= classify_upto(
                            specs,
                            import_stmt.span,
                            index as int + 1,
                        ));
                    }
                },
                ImportSpecifier::DefaultImport { local, span } => {
                    import_ident = ImportIdent::new(
                        local.clone(),
                        import_stmt.span,
                        ImportTypes::Single,
                    );
                    proof {
                        assert(import_ident_vec.deep_view() =~= members_upto(
                            specs,
                            index as int + 1,
                        ));
                        assert(import_ident@ =~= classify_upto(
                            specs,
                            import_stmt.span,
                            index as int + 1,
                        ));
                    }
                },
                ImportSpecifier::Namespace { local, span } => {
                    import_ident = ImportIdent::new(
                        local.clone(),
                        import_stmt.span,
                        ImportTypes::All,
                    );
                    proof {
                        assert(import_ident_vec.deep_view() =~= members_upto(
                            specs,
                            index as int + 1,
                        ));
                        assert(import_ident@ =~= classify_upto(
                            specs,
                            import_stmt.span,
                            index as int + 1,
                        ));
                    }
                },
            }
            index += 1;
        }
        self.line_imports.push(import_ident);
        proof {
            assert(self.line_imports.deep_view() =~= old(self).line_imports.deep_view() + seq![
                classify(*import_stmt),
            ]);
        }
        if !self.options.ignore_declaration_sort {
            self.sort_import_decl(&import_ident_vec);
            proof {
                assert(import_ident_vec.deep_view() == members_of(*import_stmt));
            }
        } else {
            proof {
                assert(self.diagnostics.deep_view() =~= old(self).diagnostics.deep_view()
                    + Seq::<DiagnosticModel>::empty());
            }
        }
    }
}

/// The rule itself, stateless: each invocation builds a fresh accumulator.
pub struct SortImports;

impl SortImports {
    /// A fresh handle on the rule.
    pub fn new() -> (r: Box<SortImports>) {
        Box::new(SortImports)
    }

    /// The rule's fixed identifier.
    pub fn code(&self) -> (s: &'static str)
        ensures
            s@ == rule_code(),
    {
        "sort-imports"
    }

    /// One whole rule invocation under the default options: classifies every
    /// statement in source order, running the member-order check per
    /// statement, then runs the statement-order check over the accumulated
    /// records, and returns every diagnostic in emission order.
    pub fn lint_module(&self, module: &Vec<ImportDecl>) -> (diags: Vec<Diagnostic>)
        ensures
            diags.deep_view() == rule_diags(module@, false, false, false, default_group_order()),
    {
        let mut visitor = SortImportsVisitor::default();
        let n = module.len();
        let mut i: usize = 0;
        while i < n
            invariant
                i <= n,
                n == module@.len(),
                !visitor.options.ignore_case,
                !visitor.options.ignore_declaration_sort,
                !visitor.options.ignore_member_sort,
                visitor.options.member_syntax_sort_order@ == default_group_order(),
                visitor.line_imports.deep_view() == records_of(module@.take(i as int)),
                visitor.diagnostics.deep_view() == all_member_diags(
                    module@.take(i as int),
                    false,
                    false,
                    false,
                ),
            decreases n - i,
        {
            visitor.handle_import_decl(&module[i]);
            proof {
                let taken = module@.take(i as int + 1);
                assert(taken.drop_last() =~= module@.take(i as int));
                assert(taken.last() == module@[i as int]);
                assert(records_of(taken) =~= records_of(module@.take(i as int)) + seq![
                    classify(module@[i as int]),
                ]);
            }
            i += 1;
        }
        proof {
            assert(module@.take(n as int) =~= module@);
            assert forall|k: int| 0 <= k < visitor.line_imports@.len()
                implies visitor.options.member_syntax_sort_order@.contains(
                (#[trigger] visitor.line_imports@[k]).import_type,
            ) by {
                let t = visitor.line_imports@[k].import_type;
                let order = visitor.options.member_syntax_sort_order@;
                assert(order[0] == ImportTypes::SideEffect);
                assert(order[1] == ImportTypes::All);
                assert(order[2] == ImportTypes::Multiple);
                assert(order[3] == ImportTypes::Single);
            }
        }
        visitor.sort_line_imports();
        proof {
            assert(visitor.diagnostics.deep_view() =~= rule_diags(
                module@,
                false,
                false,
                false,
                default_group_order(),
            ));
        }
        visitor.diagnostics
    }
}

} // verus!
