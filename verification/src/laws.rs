//! The laws the checkers obey, each stated over the spec-level model that
//! the checkers' contracts are written in.

use crate::checker::{
    all_member_diags, alpha_message, alpha_viol, first_member_viol, group_message, group_viol,
    lemma_first_member_viol_from, line_diags, member_diags, member_viol, pair_diag, records_of,
    rule_code, rule_diags, same_group, stmt_member_diags,
};
use crate::compare::{key_lt, lemma_seq_lt_irreflexive, sort_key};
use crate::types::{DiagnosticModel, ImportDecl, ImportTypes, Record};
use vstd::prelude::*;

verus! {

/// No adjacent pair of members is out of order under the active case policy.
pub open spec fn key_sorted(rs: Seq<Record>, ci: bool) -> bool {
    forall|i: int| 1 <= i < rs.len() ==> !key_lt((#[trigger] rs[i]).name, rs[i - 1].name, ci)
}

/// Law: a statement whose members are already key-sorted under the active
/// case policy draws no member-order diagnostic.
pub proof fn lemma_sorted_members_report_nothing(rs: Seq<Record>, ci: bool)
    requires
        key_sorted(rs, ci),
    ensures
        member_diags(rs, ci) == Seq::<DiagnosticModel>::empty(),
{
    lemma_first_member_viol_from(rs, ci, 1);
    if let Option::Some(f) = first_member_viol(rs, ci) {
        assert(member_viol(rs, ci, f));
        assert(!key_lt(rs[f].name, rs[f - 1].name, ci));
    }
}

/// Law: for an adjacent same-group statement pair, exactly one alphabetical
/// violation is reported, at the later statement's position, precisely when
/// the later key sorts strictly before the earlier one; equal sort keys
/// report nothing.
pub proof fn lemma_same_group_pair(rs: Seq<Record>, order: Seq<ImportTypes>, ci: bool, i: int)
    requires
        1 <= i < rs.len(),
        same_group(rs, order, i),
    ensures
        key_lt(rs[i].name, rs[i - 1].name, ci) ==> pair_diag(rs, order, ci, i) == seq![
            DiagnosticModel { span: rs[i].span, code: rule_code(), message: alpha_message() },
        ],
        !key_lt(rs[i].name, rs[i - 1].name, ci) ==> pair_diag(rs, order, ci, i) == Seq::<
            DiagnosticModel,
        >::empty(),
        sort_key(rs[i].name, ci) == sort_key(rs[i - 1].name, ci) ==> pair_diag(rs, order, ci, i)
            == Seq::<DiagnosticModel>::empty(),
{
    assert(!group_viol(rs, order, i));
    if sort_key(rs[i].name, ci) == sort_key(rs[i - 1].name, ci) {
        lemma_seq_lt_irreflexive(sort_key(rs[i].name, ci));
        assert(!key_lt(rs[i].name, rs[i - 1].name, ci));
    }
}

/// Law: a group-order inversion is reported independently of alphabetical
/// content — the reported pair diagnostic is the same whatever the two
/// statements' names and whatever the case policy, and it stands at the
/// later statement's position.
pub proof fn lemma_group_inversion_reported(
    rs: Seq<Record>,
    order: Seq<ImportTypes>,
    ci: bool,
    i: int,
)
    requires
        group_viol(rs, order, i),
    ensures
        pair_diag(rs, order, ci, i) == seq![
            DiagnosticModel {
                span: rs[i].span,
                code: rule_code(),
                message: group_message(rs[i].kind, rs[i - 1].kind),
            },
        ],
{
}

/// The member-order checker emits nothing for any unit when it is switched
/// off, whatever the members look like.
proof fn lemma_all_member_diags_skipped(ds: Seq<ImportDecl>, ids: bool, ci: bool)
    ensures
        all_member_diags(ds, ids, true, ci) == Seq::<DiagnosticModel>::empty(),
    decreases ds.len(),
{
    if ds.len() > 0 {
        lemma_all_member_diags_skipped(ds.drop_last(), ids, ci);
        assert(stmt_member_diags(ds.last(), ids, true, ci) =~= Seq::<DiagnosticModel>::empty());
        assert(all_member_diags(ds, ids, true, ci) =~= Seq::<DiagnosticModel>::empty());
    }
}

/// Law: setting the skip-member-sort flag suppresses every member-order
/// diagnostic regardless of member disorder, leaving exactly the
/// statement-order diagnostics.
pub proof fn lemma_member_sort_skipped(
    ds: Seq<ImportDecl>,
    ids: bool,
    ci: bool,
    order: Seq<ImportTypes>,
)
    ensures
        rule_diags(ds, ids, true, ci, order) == line_diags(records_of(ds), order, ci),
{
    lemma_all_member_diags_skipped(ds, ids, ci);
    assert(rule_diags(ds, ids, true, ci, order) =~= line_diags(records_of(ds), order, ci));
}

/// Law: the skip-declaration-sort flag has no effect on the statement-order
/// checker — with the flag set or clear, what follows the member-order
/// segment of a unit's diagnostics is one and the same sequence.
pub proof fn lemma_declaration_flag_gates_only_member_sort(
    ds: Seq<ImportDecl>,
    ims: bool,
    ci: bool,
    order: Seq<ImportTypes>,
)
    ensures
        rule_diags(ds, true, ims, ci, order).skip(
            all_member_diags(ds, true, ims, ci).len() as int,
        ) == rule_diags(ds, false, ims, ci, order).skip(
            all_member_diags(ds, false, ims, ci).len() as int,
        ),
{
    let line = line_diags(records_of(ds), order, ci);
    assert(rule_diags(ds, true, ims, ci, order).skip(all_member_diags(ds, true, ims, ci).len() as int)
        =~= line);
    assert(rule_diags(ds, false, ims, ci, order).skip(
        all_member_diags(ds, false, ims, ci).len() as int,
    ) =~= line);
}

/// Law: the statement-order checker is a function of the record sequence and
/// the options alone and leaves the records unchanged, so running it again
/// over the same accumulator appends a batch of diagnostics identical to the
/// first run's batch.
pub proof fn lemma_rerun_appends_identical_diags(
    d0: Seq<DiagnosticModel>,
    rs: Seq<Record>,
    order: Seq<ImportTypes>,
    ci: bool,
)
    ensures
        ({
            let d1 = d0 + line_diags(rs, order, ci);
            let d2 = d1 + line_diags(rs, order, ci);
            d2.skip(d1.len() as int) == d1.skip(d0.len() as int)
        }),
{
    let b = line_diags(rs, order, ci);
    assert((d0 + b).skip(d0.len() as int) =~= b);
    assert(((d0 + b) + b).skip((d0 + b).len() as int) =~= b);
}

/// Law: whenever a pair draws a diagnostic, it draws exactly one — a group
/// inversion and an alphabetical violation are never reported together for
/// one pair, and every pair diagnostic points at the later statement.
pub proof fn lemma_at_most_one_violation_per_pair(
    rs: Seq<Record>,
    order: Seq<ImportTypes>,
    ci: bool,
    i: int,
)
    ensures
        pair_diag(rs, order, ci, i).len() <= 1,
        !(group_viol(rs, order, i) && alpha_viol(rs, order, ci, i)),
        forall|k: int|
            0 <= k < pair_diag(rs, order, ci, i).len() ==> (#[trigger] pair_diag(
                rs,
                order,
                ci,
                i,
            )[k]).span == rs[i].span,
{
}

} // verus!
