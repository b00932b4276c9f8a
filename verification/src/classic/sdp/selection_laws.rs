//! The attributes that a request selects from a record.

use vstd::prelude::*;
use crate::classic::sdp::element::ElementModel;
use crate::classic::sdp::pdu;
use crate::classic::sdp::pdu::AttributeIdSpec;
use crate::classic::sdp::record::AttributeModel;
use crate::classic::sdp::server;

verus! {

/// Whether an attribute ID is the one, or one of those, that are asked for.
pub open spec fn covers(spec_of_ids: AttributeIdSpec, id: u16) -> bool {
    match spec_of_ids {
        AttributeIdSpec::Single(v) => id == v,
        AttributeIdSpec::Range(start, end) => start <= id <= end,
    }
}

/// Whether an attribute ID is asked for.
pub open spec fn wanted(ids: Seq<AttributeIdSpec>, id: u16) -> bool {
    exists|i: int| 0 <= i < ids.len() && #[trigger] covers(ids[i], id)
}

/// Whether no attribute ID is asked for twice.
pub open spec fn disjoint(ids: Seq<AttributeIdSpec>) -> bool {
    forall|i: int, j: int, id: u16|
        0 <= i < j < ids.len() ==> !(#[trigger] covers(ids[i], id) && #[trigger] covers(ids[j], id))
}

/// Whether no two attributes have the same ID.
pub open spec fn distinct_ids(list: Seq<AttributeModel>) -> bool {
    forall|i: int, j: int| 0 <= i < j < list.len() ==> list[i].id != list[j].id
}

/// Whether attributes are in strictly ascending order of their IDs.
pub open spec fn ascending_ids(list: Seq<AttributeModel>) -> bool {
    forall|i: int, j: int| 0 <= i < j < list.len() ==> list[i].id < list[j].id
}

/// Whether a list holds exactly the attributes of a record that are asked for,
/// in strictly ascending order of their IDs.
pub open spec fn is_selection(
    list: Seq<AttributeModel>,
    service: Seq<AttributeModel>,
    ids: Seq<AttributeIdSpec>,
) -> bool {
    &&& ascending_ids(list)
    &&& forall|a: AttributeModel|
        #[trigger] list.contains(a) <==> service.contains(a) && wanted(ids, a.id)
}

/// The elements that ask for attribute IDs.
pub open spec fn id_elements(ids: Seq<AttributeIdSpec>) -> Seq<ElementModel> {
    server::elements_or_none(pdu::attribute_id_list_element(ids))
}

/// The attributes of a record that are asked for, as a server lists them.
pub open spec fn selection(
    service: Seq<AttributeModel>,
    ids: Seq<AttributeIdSpec>,
) -> Seq<AttributeModel> {
    server::sorted_by_id(server::requested(service, id_elements(ids)))
}

/// The attributes with IDs in a range.
proof fn lemma_in_range(service: Seq<AttributeModel>, start: u16, end: u16)
    ensures
        forall|a: AttributeModel|
            #[trigger] server::in_range(service, start, end).contains(a) <==> service.contains(a)
                && start <= a.id <= end,
        distinct_ids(service) ==> distinct_ids(server::in_range(service, start, end)),
    decreases service.len(),
{
    let r = server::in_range(service, start, end);
    if service.len() > 0 {
        let front = service.drop_last();
        let last = service.last();
        let before = server::in_range(front, start, end);
        lemma_in_range(front, start, end);
        assert forall|a: AttributeModel| #[trigger] r.contains(a) <==> service.contains(a)
            && start <= a.id <= end by {
            if service.contains(a) {
                let k = choose|k: int| 0 <= k < service.len() && service[k] == a;
                if k < front.len() {
                    assert(front[k] == a);
                    assert(front.contains(a));
                }
            }
            if front.contains(a) {
                let k = choose|k: int| 0 <= k < front.len() && front[k] == a;
                assert(service[k] == a);
            }
            assert(service[service.len() - 1] == last);
            if before.contains(a) {
                let k = choose|k: int| 0 <= k < before.len() && before[k] == a;
                assert(r[k] == a);
            }
            if r.contains(a) {
                let k = choose|k: int| 0 <= k < r.len() && r[k] == a;
                if k < before.len() {
                    assert(before[k] == a);
                    assert(before.contains(a));
                }
            }
            if a == last && start <= a.id <= end {
                assert(r[r.len() - 1] == a);
            }
        }
        if distinct_ids(service) {
            assert(distinct_ids(front)) by {
                assert forall|i: int, j: int| 0 <= i < j < front.len() implies front[i].id
                    != front[j].id by {
                    assert(service[i].id != service[j].id);
                }
            }
            assert forall|i: int, j: int| 0 <= i < j < r.len() implies r[i].id != r[j].id by {
                if j < before.len() {
                    assert(before[i].id != before[j].id);
                } else {
                    assert(before.contains(before[i]));
                    assert(front.contains(before[i]));
                    let k = choose|k: int| 0 <= k < front.len() && front[k] == before[i];
                    assert(service[k].id != service[service.len() - 1].id);
                }
            }
        }
    }
}

/// The range that an element asks for is the one that it was made for.
proof fn lemma_range(id: AttributeIdSpec)
    ensures
        match server::range_of(pdu::attribute_id_element(id)) {
            Some((start, end)) => forall|v: u16| #[trigger] covers(id, v) <==> start <= v <= end,
            None => false,
        },
{
    match id {
        AttributeIdSpec::Single(v) => {
            assert(v as u64 as u16 == v);
        },
        AttributeIdSpec::Range(start, end) => {
            let value = (start * 0x1_0000 + end) as u64;
            assert(value / 0x1_0000 == start && value % 0x1_0000 == end);
        },
    }
}

/// The attributes that are asked for.
proof fn lemma_requested(service: Seq<AttributeModel>, ids: Seq<AttributeIdSpec>)
    ensures
        forall|a: AttributeModel|
            #[trigger] server::requested(service, id_elements(ids)).contains(a)
                <==> service.contains(a) && wanted(ids, a.id),
        distinct_ids(service) && disjoint(ids) ==> distinct_ids(
            server::requested(service, id_elements(ids)),
        ),
    decreases ids.len(),
{
    let elements = id_elements(ids);
    let r = server::requested(service, elements);
    if ids.len() > 0 {
        let front = ids.drop_last();
        let last = ids.last();
        let n = ids.len() - 1;
        assert(elements.drop_last() =~= id_elements(front));
        assert(elements.last() == pdu::attribute_id_element(last));
        lemma_requested(service, front);
        lemma_range(last);
        let (start, end) = server::range_of(elements.last())->0;
        lemma_in_range(service, start, end);
        let before = server::requested(service, id_elements(front));
        let more = server::in_range(service, start, end);
        assert(r == before + more);
        assert forall|a: AttributeModel| #[trigger] r.contains(a) <==> service.contains(a)
            && wanted(ids, a.id) by {
            if r.contains(a) {
                let k = choose|k: int| 0 <= k < r.len() && r[k] == a;
                if k < before.len() {
                    assert(before[k] == a);
                    assert(before.contains(a));
                    let i = choose|i: int| 0 <= i < front.len() && #[trigger] covers(
                        front[i],
                        a.id,
                    );
                    assert(covers(ids[i], a.id));
                } else {
                    assert(more[k - before.len()] == a);
                    assert(more.contains(a));
                    assert(covers(ids[n], a.id));
                }
            }
            if service.contains(a) && wanted(ids, a.id) {
                let i = choose|i: int| 0 <= i < ids.len() && #[trigger] covers(ids[i], a.id);
                if i < n {
                    assert(covers(front[i], a.id));
                    assert(before.contains(a));
                    let k = choose|k: int| 0 <= k < before.len() && before[k] == a;
                    assert(r[k] == a);
                } else {
                    assert(covers(last, a.id));
                    assert(more.contains(a));
                    let k = choose|k: int| 0 <= k < more.len() && more[k] == a;
                    assert(r[before.len() + k] == a);
                }
            }
        }
        if distinct_ids(service) && disjoint(ids) {
            assert(disjoint(front)) by {
                assert forall|i: int, j: int, id: u16| 0 <= i < j < front.len() implies !(
                #[trigger] covers(front[i], id) && #[trigger] covers(front[j], id)) by {
                    assert(!(covers(ids[i], id) && covers(ids[j], id)));
                }
            }
            assert forall|i: int, j: int| 0 <= i < j < r.len() implies r[i].id != r[j].id by {
                let b = before.len();
                if j < b {
                    assert(before[i].id != before[j].id);
                } else if i >= b {
                    assert(more[i - b].id != more[j - b].id);
                } else {
                    assert(before.contains(before[i]));
                    let k = choose|k: int| 0 <= k < front.len() && #[trigger] covers(
                        front[k],
                        before[i].id,
                    );
                    assert(more.contains(more[j - b]));
                    assert(covers(last, more[j - b].id));
                    assert(covers(ids[k], before[i].id));
                    assert(!(covers(ids[k], before[i].id) && covers(ids[n], before[i].id)));
                }
            }
        }
    } else {
        assert(r =~= seq![]);
    }
}

/// Whether no attribute has a smaller ID than one before it.
spec fn in_order(list: Seq<AttributeModel>) -> bool {
    forall|i: int, j: int| 0 <= i < j < list.len() ==> list[i].id <= list[j].id
}

/// What stands before and behind the place of an ID.
proof fn lemma_insertion_point(list: Seq<AttributeModel>, id: u16)
    requires
        in_order(list),
    ensures
        server::insertion_point(list, id) <= list.len(),
        forall|k: int|
            0 <= k < server::insertion_point(list, id) ==> (#[trigger] list[k]).id <= id,
        forall|k: int|
            server::insertion_point(list, id) <= k < list.len() ==> id < (#[trigger] list[k]).id,
    decreases list.len(),
{
    if list.len() > 0 {
        let rest = list.skip(1);
        assert(in_order(rest)) by {
            assert forall|i: int, j: int| 0 <= i < j < rest.len() implies rest[i].id
                <= rest[j].id by {
                assert(list[i + 1].id <= list[j + 1].id);
            }
        }
        lemma_insertion_point(rest, id);
        let n = server::insertion_point(list, id);
        assert forall|k: int| 0 <= k < n implies (#[trigger] list[k]).id <= id by {
            if k > 0 {
                assert(rest[k - 1] == list[k]);
            }
        }
        assert forall|k: int| n <= k < list.len() implies id < (#[trigger] list[k]).id by {
            if list[0].id > id {
                if k > 0 {
                    assert(list[0].id <= list[k].id);
                }
            } else {
                assert(rest[k - 1] == list[k]);
            }
        }
    }
}

/// Ordering a list keeps its attributes.
proof fn lemma_sorted(list: Seq<AttributeModel>)
    ensures
        in_order(server::sorted_by_id(list)),
        forall|a: AttributeModel|
            #[trigger] server::sorted_by_id(list).contains(a) <==> list.contains(a),
        distinct_ids(list) ==> ascending_ids(server::sorted_by_id(list)),
    decreases list.len(),
{
    let r = server::sorted_by_id(list);
    if list.len() > 0 {
        let front = list.drop_last();
        let last = list.last();
        let before = server::sorted_by_id(front);
        lemma_sorted(front);
        lemma_insertion_point(before, last.id);
        let n = server::insertion_point(before, last.id) as int;
        assert(r == before.insert(n, last));
        assert forall|i: int, j: int| 0 <= i < j < r.len() implies r[i].id <= r[j].id by {
            let p = if i < n {
                i
            } else {
                i - 1
            };
            let q = if j < n {
                j
            } else {
                j - 1
            };
            if i == n {
                assert(r[j] == before[q]);
            } else if j == n {
                assert(r[i] == before[p]);
            } else {
                assert(r[i] == before[p] && r[j] == before[q]);
                assert(before[p].id <= before[q].id);
            }
        }
        assert forall|a: AttributeModel| #[trigger] r.contains(a) <==> list.contains(a) by {
            if r.contains(a) {
                let k = choose|k: int| 0 <= k < r.len() && r[k] == a;
                if k == n {
                    assert(list[list.len() - 1] == a);
                } else {
                    assert(before[if k < n {
                        k
                    } else {
                        k - 1
                    }] == a);
                    assert(before.contains(a));
                    assert(front.contains(a));
                    let i = choose|i: int| 0 <= i < front.len() && front[i] == a;
                    assert(list[i] == a);
                }
            }
            if list.contains(a) {
                let i = choose|i: int| 0 <= i < list.len() && list[i] == a;
                if i < front.len() {
                    assert(front[i] == a);
                    assert(front.contains(a));
                    assert(before.contains(a));
                    let k = choose|k: int| 0 <= k < before.len() && before[k] == a;
                    assert(r[if k < n {
                        k
                    } else {
                        k + 1
                    }] == a);
                } else {
                    assert(r[n] == a);
                }
            }
        }
        if distinct_ids(list) {
            assert forall|i: int, j: int| 0 <= i < j < front.len() implies front[i].id
                != front[j].id by {
                assert(list[i].id != list[j].id);
            }
            assert(ascending_ids(before));
            assert forall|k: int| 0 <= k < before.len() implies (#[trigger] before[k]).id
                != last.id by {
                assert(before.contains(before[k]));
                assert(front.contains(before[k]));
                let i = choose|i: int| 0 <= i < front.len() && front[i] == before[k];
                assert(list[i].id != list[list.len() - 1].id);
            }
            assert forall|i: int, j: int| 0 <= i < j < r.len() implies r[i].id < r[j].id by {
                let p = if i < n {
                    i
                } else {
                    i - 1
                };
                let q = if j < n {
                    j
                } else {
                    j - 1
                };
                if i == n {
                    assert(r[j] == before[q]);
                } else if j == n {
                    assert(r[i] == before[p]);
                    assert(before[p].id != last.id);
                } else {
                    assert(r[i] == before[p] && r[j] == before[q]);
                    assert(before[p].id < before[q].id);
                }
            }
        }
    } else {
        assert(r =~= seq![]);
        assert(list =~= seq![]);
    }
}

/// What a server lists of a record are attributes of the record.
pub proof fn lemma_selection_members(service: Seq<AttributeModel>, ids: Seq<AttributeIdSpec>)
    ensures
        forall|i: int|
            0 <= i < selection(service, ids).len() ==> service.contains(
                #[trigger] selection(service, ids)[i],
            ),
{
    let list = server::requested(service, id_elements(ids));
    lemma_requested(service, ids);
    lemma_sorted(list);
    let r = selection(service, ids);
    assert forall|i: int| 0 <= i < r.len() implies service.contains(#[trigger] r[i]) by {
        assert(r.contains(r[i]));
        assert(list.contains(r[i]));
    }
}

/// What a server lists of a record are exactly the attributes that are asked
/// for, in strictly ascending order of their IDs. No two attributes of the
/// record have the same ID, and none is asked for twice.
pub proof fn law_selection(service: Seq<AttributeModel>, ids: Seq<AttributeIdSpec>)
    requires
        distinct_ids(service),
        disjoint(ids),
    ensures
        is_selection(selection(service, ids), service, ids),
{
    let list = server::requested(service, id_elements(ids));
    lemma_requested(service, ids);
    lemma_sorted(list);
    let r = selection(service, ids);
    assert forall|a: AttributeModel| #[trigger] r.contains(a) <==> service.contains(a) && wanted(
        ids,
        a.id,
    ) by {
        assert(r.contains(a) <==> list.contains(a));
        assert(list.contains(a) <==> service.contains(a) && wanted(ids, a.id));
    }
}

/// There is one list of the attributes that are asked for.
pub proof fn law_selection_is_unique(
    a: Seq<AttributeModel>,
    b: Seq<AttributeModel>,
    service: Seq<AttributeModel>,
    ids: Seq<AttributeIdSpec>,
)
    requires
        is_selection(a, service, ids),
        is_selection(b, service, ids),
    ensures
        a == b,
{
    assert forall|x: AttributeModel| #[trigger] a.contains(x) <==> b.contains(x) by {}
    lemma_same_members(a, b);
}

/// Lists in strictly ascending order with the same members are the same.
proof fn lemma_same_members(a: Seq<AttributeModel>, b: Seq<AttributeModel>)
    requires
        ascending_ids(a),
        ascending_ids(b),
        forall|x: AttributeModel| #[trigger] a.contains(x) <==> b.contains(x),
    ensures
        a == b,
    decreases a.len(),
{
    if a.len() == 0 {
        if b.len() > 0 {
            assert(b.contains(b[0]));
            assert(a.contains(b[0]));
        }
        assert(a =~= b);
    } else {
        let n = a.len() - 1;
        assert(a.contains(a[n]));
        assert(b.contains(a[n]));
        let m = b.len() - 1;
        assert(b.contains(b[m]));
        assert(a.contains(b[m]));
        let i = choose|i: int| 0 <= i < a.len() && a[i] == b[m];
        let j = choose|j: int| 0 <= j < b.len() && b[j] == a[n];
        if i < n {
            assert(a[i].id < a[n].id);
        }
        if j < m {
            assert(b[j].id < b[m].id);
        }
        assert(a[n] == b[m]);
        let x = a.drop_last();
        let y = b.drop_last();
        assert forall|e: AttributeModel| #[trigger] x.contains(e) <==> y.contains(e) by {
            if x.contains(e) {
                let k = choose|k: int| 0 <= k < x.len() && x[k] == e;
                assert(a[k] == e);
                assert(a[k].id < a[n].id);
                assert(a.contains(e));
                let l = choose|l: int| 0 <= l < b.len() && b[l] == e;
                assert(l < m);
                assert(y[l] == e);
            }
            if y.contains(e) {
                let k = choose|k: int| 0 <= k < y.len() && y[k] == e;
                assert(b[k] == e);
                assert(b[k].id < b[m].id);
                assert(b.contains(e));
                assert(a.contains(e));
                let l = choose|l: int| 0 <= l < a.len() && a[l] == e;
                assert(l < n);
                assert(x[l] == e);
            }
        }
        lemma_same_members(x, y);
        assert(a =~= x.push(a[n]));
        assert(b =~= y.push(b[m]));
    }
}

} // verus!
