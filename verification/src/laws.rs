//! Applying the same records a second time changes nothing: code sets
//! absorb duplicate pairs, so a whole run is idempotent on the
//! collections.

use vstd::prelude::*;

use crate::apply_rules::{
    spec_apply_record, spec_apply_records, spec_apply_rules, spec_apply_to, RuleFileView,
};
use crate::collection::{CollectionsModel, spec_find_id};
use crate::objects::{ComplementaryCodeView, EntityModel, ObjectType};

verus! {

/// One collection extends another: same objects in the same order, each
/// keeping its id and at most gaining code pairs at the end.
pub open spec fn seq_le(a: Seq<EntityModel>, b: Seq<EntityModel>) -> bool {
    &&& a.len() == b.len()
    &&& forall|i: int| 0 <= i < a.len() ==> (#[trigger] b[i]).id == a[i].id
    &&& forall|i: int| 0 <= i < a.len() ==> a[i].codes.is_prefix_of((#[trigger] b[i]).codes)
}

/// A record has nothing left to do in a collection: either its target is
/// absent, or the target already carries its code pair.
pub open spec fn spec_saturated(ms: Seq<EntityModel>, c: ComplementaryCodeView) -> bool {
    match spec_find_id(ms, c.object_id) {
        None => true,
        Some(i) => ms[i].codes.contains((c.object_system, c.object_code)),
    }
}

proof fn lemma_le_refl(a: Seq<EntityModel>)
    ensures
        seq_le(a, a),
{
    assert forall|i: int| 0 <= i < a.len() implies a[i].codes.is_prefix_of(
        (#[trigger] a[i]).codes,
    ) by {
        assert(a[i].codes =~= a[i].codes.subrange(0, a[i].codes.len() as int));
    }
}

proof fn lemma_le_trans(a: Seq<EntityModel>, b: Seq<EntityModel>, c: Seq<EntityModel>)
    requires
        seq_le(a, b),
        seq_le(b, c),
    ensures
        seq_le(a, c),
{
    assert forall|i: int| 0 <= i < a.len() implies a[i].codes.is_prefix_of(
        (#[trigger] c[i]).codes,
    ) by {
        assert(a[i].codes.is_prefix_of(b[i].codes));
        assert(b[i].codes.is_prefix_of(c[i].codes));
        assert(a[i].codes =~= c[i].codes.subrange(0, a[i].codes.len() as int));
    }
}

proof fn lemma_prefix_contains(a: Seq<(Seq<char>, Seq<char>)>, b: Seq<(Seq<char>, Seq<char>)>, p: (
    Seq<char>,
    Seq<char>,
))
    requires
        a.is_prefix_of(b),
        a.contains(p),
    ensures
        b.contains(p),
{
    let i = choose|i: int| 0 <= i < a.len() && a[i] == p;
    assert(b[i] == p);
}

/// Applying one record only extends a collection.
proof fn lemma_apply_to_le(ms: Seq<EntityModel>, c: ComplementaryCodeView)
    ensures
        seq_le(ms, spec_apply_to(ms, c)),
{
    lemma_le_refl(ms);
    match spec_find_id(ms, c.object_id) {
        None => {},
        Some(i) => {
            crate::collection::lemma_find_id_some(ms, c.object_id, i);
            let after = spec_apply_to(ms, c);
            assert forall|j: int| 0 <= j < ms.len() implies ms[j].codes.is_prefix_of(
                (#[trigger] after[j]).codes,
            ) by {
                if j == i {
                    let pair = (c.object_system, c.object_code);
                    if !ms[i].codes.contains(pair) {
                        assert(ms[i].codes =~= ms[i].codes.push(pair).subrange(
                            0,
                            ms[i].codes.len() as int,
                        ));
                    } else {
                        assert(ms[i].codes =~= ms[i].codes.subrange(0, ms[i].codes.len() as int));
                    }
                } else {
                    assert(ms[j].codes =~= ms[j].codes.subrange(0, ms[j].codes.len() as int));
                }
            }
        },
    }
}

/// Lookups see only ids, so collections with the same ids agree on them.
proof fn lemma_find_id_same(a: Seq<EntityModel>, b: Seq<EntityModel>, id: Seq<char>)
    requires
        a.len() == b.len(),
        forall|i: int| 0 <= i < a.len() ==> (#[trigger] b[i]).id == a[i].id,
    ensures
        spec_find_id(a, id) == spec_find_id(b, id),
    decreases a.len(),
{
    if a.len() > 0 {
        assert(forall|i: int|
            0 <= i < a.drop_first().len() ==> (#[trigger] b.drop_first()[i]).id
                == a.drop_first()[i].id);
        lemma_find_id_same(a.drop_first(), b.drop_first(), id);
    }
}

/// After a record is applied, it is saturated.
proof fn lemma_apply_to_saturates(ms: Seq<EntityModel>, c: ComplementaryCodeView)
    ensures
        spec_saturated(spec_apply_to(ms, c), c),
{
    let after = spec_apply_to(ms, c);
    lemma_apply_to_le(ms, c);
    lemma_find_id_same(ms, after, c.object_id);
    match spec_find_id(ms, c.object_id) {
        None => {},
        Some(i) => {
            crate::collection::lemma_find_id_some(ms, c.object_id, i);
            let pair = (c.object_system, c.object_code);
            if !ms[i].codes.contains(pair) {
                assert(after[i].codes[ms[i].codes.len() as int] == pair);
            }
        },
    }
}

/// Saturation survives any further extension.
proof fn lemma_le_preserves_saturated(
    a: Seq<EntityModel>,
    b: Seq<EntityModel>,
    c: ComplementaryCodeView,
)
    requires
        seq_le(a, b),
        spec_saturated(a, c),
    ensures
        spec_saturated(b, c),
{
    lemma_find_id_same(a, b, c.object_id);
    match spec_find_id(a, c.object_id) {
        None => {},
        Some(i) => {
            crate::collection::lemma_find_id_some(a, c.object_id, i);
            lemma_prefix_contains(a[i].codes, b[i].codes, (c.object_system, c.object_code));
        },
    }
}

/// Applying a saturated record changes nothing.
proof fn lemma_apply_to_noop(ms: Seq<EntityModel>, c: ComplementaryCodeView)
    requires
        spec_saturated(ms, c),
    ensures
        spec_apply_to(ms, c) == ms,
{
    match spec_find_id(ms, c.object_id) {
        None => {},
        Some(i) => {
            crate::collection::lemma_find_id_some(ms, c.object_id, i);
            assert(spec_apply_to(ms, c) =~= ms);
        },
    }
}

/// `seq_le`, lifted to the four collections together.
pub open spec fn cm_le(a: CollectionsModel, b: CollectionsModel) -> bool {
    &&& seq_le(a.lines, b.lines)
    &&& seq_le(a.routes, b.routes)
    &&& seq_le(a.stop_points, b.stop_points)
    &&& seq_le(a.stop_areas, b.stop_areas)
}

/// `spec_saturated`, in the collection the record dispatches to.
pub open spec fn cm_saturated(m: CollectionsModel, c: ComplementaryCodeView) -> bool {
    match c.object_type {
        ObjectType::Line => spec_saturated(m.lines, c),
        ObjectType::Route => spec_saturated(m.routes, c),
        ObjectType::StopPoint => spec_saturated(m.stop_points, c),
        ObjectType::StopArea => spec_saturated(m.stop_areas, c),
    }
}

proof fn lemma_cm_le_refl(a: CollectionsModel)
    ensures
        cm_le(a, a),
{
    lemma_le_refl(a.lines);
    lemma_le_refl(a.routes);
    lemma_le_refl(a.stop_points);
    lemma_le_refl(a.stop_areas);
}

proof fn lemma_cm_le_trans(a: CollectionsModel, b: CollectionsModel, c: CollectionsModel)
    requires
        cm_le(a, b),
        cm_le(b, c),
    ensures
        cm_le(a, c),
{
    lemma_le_trans(a.lines, b.lines, c.lines);
    lemma_le_trans(a.routes, b.routes, c.routes);
    lemma_le_trans(a.stop_points, b.stop_points, c.stop_points);
    lemma_le_trans(a.stop_areas, b.stop_areas, c.stop_areas);
}

proof fn lemma_apply_record_le(m: CollectionsModel, c: ComplementaryCodeView)
    ensures
        cm_le(m, spec_apply_record(m, c).0),
{
    lemma_cm_le_refl(m);
    lemma_apply_to_le(m.lines, c);
    lemma_apply_to_le(m.routes, c);
    lemma_apply_to_le(m.stop_points, c);
    lemma_apply_to_le(m.stop_areas, c);
}

/// A run only extends the collections: no object is created or removed,
/// no id changes, and no code set shrinks.
pub proof fn lemma_apply_records_le(m: CollectionsModel, rs: Seq<ComplementaryCodeView>)
    ensures
        cm_le(m, spec_apply_records(m, rs).0),
    decreases rs.len(),
{
    if rs.len() == 0 {
        lemma_cm_le_refl(m);
    } else {
        let m1 = spec_apply_record(m, rs[0]).0;
        lemma_apply_record_le(m, rs[0]);
        lemma_apply_records_le(m1, rs.drop_first());
        lemma_cm_le_trans(m, m1, spec_apply_records(m1, rs.drop_first()).0);
    }
}

proof fn lemma_apply_record_saturates(m: CollectionsModel, c: ComplementaryCodeView)
    ensures
        cm_saturated(spec_apply_record(m, c).0, c),
{
    lemma_apply_to_saturates(m.lines, c);
    lemma_apply_to_saturates(m.routes, c);
    lemma_apply_to_saturates(m.stop_points, c);
    lemma_apply_to_saturates(m.stop_areas, c);
}

proof fn lemma_cm_le_preserves_saturated(
    a: CollectionsModel,
    b: CollectionsModel,
    c: ComplementaryCodeView,
)
    requires
        cm_le(a, b),
        cm_saturated(a, c),
    ensures
        cm_saturated(b, c),
{
    match c.object_type {
        ObjectType::Line => lemma_le_preserves_saturated(a.lines, b.lines, c),
        ObjectType::Route => lemma_le_preserves_saturated(a.routes, b.routes, c),
        ObjectType::StopPoint => lemma_le_preserves_saturated(a.stop_points, b.stop_points, c),
        ObjectType::StopArea => lemma_le_preserves_saturated(a.stop_areas, b.stop_areas, c),
    }
}

proof fn lemma_apply_record_noop(m: CollectionsModel, c: ComplementaryCodeView)
    requires
        cm_saturated(m, c),
    ensures
        spec_apply_record(m, c).0 == m,
{
    match c.object_type {
        ObjectType::Line => lemma_apply_to_noop(m.lines, c),
        ObjectType::Route => lemma_apply_to_noop(m.routes, c),
        ObjectType::StopPoint => lemma_apply_to_noop(m.stop_points, c),
        ObjectType::StopArea => lemma_apply_to_noop(m.stop_areas, c),
    }
}

/// After a run, every record of the run is saturated.
proof fn lemma_all_saturated_after(m: CollectionsModel, rs: Seq<ComplementaryCodeView>)
    ensures
        forall|j: int|
            0 <= j < rs.len() ==> cm_saturated(
                spec_apply_records(m, rs).0,
                #[trigger] rs[j],
            ),
    decreases rs.len(),
{
    if rs.len() > 0 {
        let m1 = spec_apply_record(m, rs[0]).0;
        let rest = rs.drop_first();
        let fin = spec_apply_records(m1, rest).0;
        assert(spec_apply_records(m, rs).0 == fin);
        lemma_all_saturated_after(m1, rest);
        lemma_apply_record_saturates(m, rs[0]);
        lemma_apply_records_le(m1, rest);
        lemma_cm_le_preserves_saturated(m1, fin, rs[0]);
        assert forall|j: int| 0 <= j < rs.len() implies cm_saturated(
            fin,
            #[trigger] rs[j],
        ) by {
            if j > 0 {
                assert(rs[j] == rest[j - 1]);
            }
        }
    }
}

/// Applying only saturated records changes nothing.
proof fn lemma_apply_records_noop(m: CollectionsModel, rs: Seq<ComplementaryCodeView>)
    requires
        forall|j: int| 0 <= j < rs.len() ==> cm_saturated(m, #[trigger] rs[j]),
    ensures
        spec_apply_records(m, rs).0 == m,
    decreases rs.len(),
{
    if rs.len() > 0 {
        lemma_apply_record_noop(m, rs[0]);
        let rest = rs.drop_first();
        assert(forall|j: int|
            0 <= j < rest.len() ==> cm_saturated(m, #[trigger] rest[j]));
        lemma_apply_records_noop(m, rest);
    }
}

/// Applying the same records a second time leaves the collections exactly
/// as the first application left them.
pub proof fn lemma_apply_records_idempotent(m: CollectionsModel, rs: Seq<ComplementaryCodeView>)
    ensures
        spec_apply_records(spec_apply_records(m, rs).0, rs).0 == spec_apply_records(m, rs).0,
{
    let m1 = spec_apply_records(m, rs).0;
    lemma_all_saturated_after(m, rs);
    lemma_apply_records_noop(m1, rs);
}

/// A whole run is idempotent on the collections: running the same rule
/// files again over the collections a successful run produced succeeds and
/// leaves their code sets exactly as they were.
pub proof fn lemma_apply_rules_idempotent(m: CollectionsModel, files: Seq<RuleFileView>)
    requires
        spec_apply_rules(m, files) is Ok,
    ensures
        spec_apply_rules(spec_apply_rules(m, files)->Ok_0.0, files) is Ok,
        spec_apply_rules(spec_apply_rules(m, files)->Ok_0.0, files)->Ok_0.0 == spec_apply_rules(
            m,
            files,
        )->Ok_0.0,
{
    let m1 = spec_apply_rules(m, files)->Ok_0.0;
    let rs = crate::apply_rules::spec_read_files(files).0->Ok_0;
    lemma_apply_records_idempotent(m, crate::apply_rules::spec_dedup(rs));
}

} // verus!
