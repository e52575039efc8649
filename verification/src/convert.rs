//! Adoption of tracked issues as sub-issues.
//!
//! Given a parent issue, this derives a re-parenting change for each of its
//! tracked issues that exists locally, is an issue, and has no parent yet:
//! loose "tracked" associations are promoted into the display hierarchy
//! without ever stealing a child from an existing parent.  Applying the
//! derived changes and running the derivation again yields nothing: the
//! promotion is idempotent.

use vstd::prelude::*;

use crate::apply::apply_seq;
use crate::apply::apply_step;
use crate::changes::changes_map;
use crate::changes::distinct_keys;
use crate::changes::lemma_changes_map_contains_at;
use crate::changes::lemma_changes_map_dom;
use crate::changes::spec_key;
use crate::changes::Change;
use crate::changes::ChangeData;
use crate::changes::ChangeDataView;
use crate::changes::ChangeKind;
use crate::changes::ChangeView;
use crate::changes::Changes;
use crate::ids::WorkItemId;
use crate::work_item::WorkItemData;
use crate::work_item::WorkItemView;
use crate::work_items::WorkItems;

verus! {

/// The ledger map type.
pub type Ledger = Map<(Seq<char>, ChangeKind), ChangeView>;

/// Whether a tracked issue may be adopted: it exists locally, is an issue,
/// and has no parent yet.
pub open spec fn adoptable(m: Map<Seq<char>, WorkItemView>, t: Seq<char>) -> bool {
    m.contains_key(t) && m[t].data is Issue && m[t].data->Issue_0.parent_id is None
}

/// The re-parenting change adopting `t` under `parent`.
pub open spec fn adoption_change(t: Seq<char>, parent: Seq<char>) -> ChangeView {
    ChangeView { work_item_id: t, data: ChangeDataView::SetParent(parent) }
}

/// The changes adopting each adoptable id of `ts` under `parent`.
pub open spec fn convert_fold(
    led: Ledger,
    m: Map<Seq<char>, WorkItemView>,
    parent: Seq<char>,
    ts: Seq<Seq<char>>,
) -> Ledger
    decreases ts.len(),
{
    if ts.len() == 0 {
        led
    } else {
        let led1 = if adoptable(m, ts[0]) {
            led.insert((ts[0], ChangeKind::SetParent), adoption_change(ts[0], parent))
        } else {
            led
        };
        convert_fold(led1, m, parent, ts.drop_first())
    }
}

/// The changes adopting the parent's tracked issues, when the parent
/// exists and is an issue; an unknown or non-issue parent yields nothing.
pub open spec fn convert_spec(m: Map<Seq<char>, WorkItemView>, parent: Seq<char>) -> Ledger {
    if m.contains_key(parent) && m[parent].data is Issue {
        convert_fold(Map::empty(), m, parent, m[parent].data->Issue_0.tracked_issues->Loaded_0)
    } else {
        Map::empty()
    }
}

proof fn lemma_convert_fold_snoc(
    led: Ledger,
    m: Map<Seq<char>, WorkItemView>,
    parent: Seq<char>,
    ts: Seq<Seq<char>>,
    x: Seq<char>,
)
    ensures
        convert_fold(led, m, parent, ts.push(x)) == if adoptable(m, x) {
            convert_fold(led, m, parent, ts).insert(
                (x, ChangeKind::SetParent),
                adoption_change(x, parent),
            )
        } else {
            convert_fold(led, m, parent, ts)
        },
    decreases ts.len(),
{
    if ts.len() == 0 {
        assert(ts.push(x)[0] == x);
        assert(ts.push(x).drop_first() =~= Seq::<Seq<char>>::empty());
        let led1 = if adoptable(m, x) {
            led.insert((x, ChangeKind::SetParent), adoption_change(x, parent))
        } else {
            led
        };
        assert(convert_fold(led, m, parent, ts.push(x)) == convert_fold(
            led1,
            m,
            parent,
            ts.push(x).drop_first(),
        ));
        assert(convert_fold(led, m, parent, ts) == led);
    } else {
        assert(ts.push(x)[0] == ts[0]);
        assert(ts.push(x).drop_first() =~= ts.drop_first().push(x));
        let led1 = if adoptable(m, ts[0]) {
            led.insert((ts[0], ChangeKind::SetParent), adoption_change(ts[0], parent))
        } else {
            led
        };
        assert(convert_fold(led, m, parent, ts.push(x)) == convert_fold(
            led1,
            m,
            parent,
            ts.drop_first().push(x),
        ));
        assert(convert_fold(led, m, parent, ts) == convert_fold(led1, m, parent, ts.drop_first()));
        lemma_convert_fold_snoc(led1, m, parent, ts.drop_first(), x);
    }
}

/// What the adoption fold holds: exactly one re-parenting change per
/// adoptable tracked id, each setting the parent, and nothing else.
pub proof fn lemma_convert_fold_membership(
    led: Ledger,
    m: Map<Seq<char>, WorkItemView>,
    parent: Seq<char>,
    ts: Seq<Seq<char>>,
    k: (Seq<char>, ChangeKind),
)
    ensures
        convert_fold(led, m, parent, ts).contains_key(k) <==> (led.contains_key(k) || (
        k.1 is SetParent && ts.contains(k.0) && adoptable(m, k.0))),
        k.1 is SetParent && ts.contains(k.0) && adoptable(m, k.0) ==> convert_fold(
            led,
            m,
            parent,
            ts,
        )[k] == adoption_change(k.0, parent),
        !(k.1 is SetParent && ts.contains(k.0) && adoptable(m, k.0)) && led.contains_key(k)
            ==> convert_fold(led, m, parent, ts)[k] == led[k],
    decreases ts.len(),
{
    if ts.len() > 0 {
        let led1 = if adoptable(m, ts[0]) {
            led.insert((ts[0], ChangeKind::SetParent), adoption_change(ts[0], parent))
        } else {
            led
        };
        lemma_convert_fold_membership(led1, m, parent, ts.drop_first(), k);
        assert(ts.contains(k.0) <==> (ts[0] == k.0 || ts.drop_first().contains(k.0))) by {
            if ts.contains(k.0) {
                let i = choose|i: int| 0 <= i < ts.len() && ts[i] == k.0;
                if i > 0 {
                    assert(ts.drop_first()[i - 1] == k.0);
                }
            }
            if ts.drop_first().contains(k.0) {
                let i = choose|i: int| 0 <= i < ts.drop_first().len() && ts.drop_first()[i] == k.0;
                assert(ts[i + 1] == k.0);
            }
        }
    }
}

impl WorkItems {
    /// Derives a re-parenting change for each tracked issue of `id` that
    /// exists locally, is an issue, and has no parent yet, adopting it as a
    /// sub-issue of `id`.  An unknown or non-issue `id` yields no changes.
    pub fn convert_tracked_to_sub_issues(&self, id: &WorkItemId) -> (r: Changes)
        requires
            self@.map.contains_key(id@) && self@.map[id@].data is Issue ==> self@.map[
                id@
            ].data->Issue_0.tracked_issues is Loaded,
        ensures
            r@ == convert_spec(self@.map, id@),
    {
        let ghost m = self@.map;
        let mut changes = Changes::new();
        if let Some(parent) = self.get(id) {
            if let WorkItemData::Issue(parent_issue) = &parent.data {
                let tracked_list = parent_issue.tracked_issues.expect_loaded();
                let ghost ts = m[id@].data->Issue_0.tracked_issues->Loaded_0;
                let mut i: usize = 0;
                proof {
                    assert(ts.take(0) =~= Seq::<Seq<char>>::empty());
                }
                while i < tracked_list.len()
                    invariant
                        i <= tracked_list.len(),
                        m == self@.map,
                        ts.len() == tracked_list.len(),
                        forall|x: int| 0 <= x < ts.len() ==> ts[x] == tracked_list@[x]@,
                        changes@ == convert_fold(Map::empty(), m, id@, ts.take(i as int)),
                    decreases tracked_list.len() - i,
                {
                    let tracked_issue_id = &tracked_list[i];
                    if let Some(tracked_item) = self.get(tracked_issue_id) {
                        if let WorkItemData::Issue(tracked_issue) = &tracked_item.data {
                            // Only adopt issues that have no parent yet.
                            if tracked_issue.parent_id.is_none() {
                                changes.add(
                                    Change {
                                        work_item_id: tracked_issue_id.clone(),
                                        data: ChangeData::SetParent(id.clone()),
                                    },
                                );
                            }
                        }
                    }
                    proof {
                        assert(ts.take(i + 1 as int) =~= ts.take(i as int).push(ts[i as int]));
                        lemma_convert_fold_snoc(
                            Map::empty(),
                            m,
                            id@,
                            ts.take(i as int),
                            ts[i as int],
                        );
                    }
                    i += 1;
                }
                proof {
                    assert(ts.take(tracked_list.len() as int) =~= ts);
                }
            }
        }
        changes
    }
}

// ---------------------------------------------------------------------------
// Idempotence
// ---------------------------------------------------------------------------

/// Applying a batch of adoption changes sets each target's parent edge and
/// touches nothing else that adoption reads: entities are neither added
/// nor removed, no entity changes kind, no tracked list changes, and a
/// parent edge only ever goes from blank to the adopting parent.
proof fn lemma_apply_adoptions(
    m: Map<Seq<char>, WorkItemView>,
    o: Map<Seq<char>, WorkItemView>,
    cs: Seq<ChangeView>,
    parent: Seq<char>,
)
    requires
        distinct_keys(cs),
        forall|i: int| #![trigger cs[i]]
            0 <= i < cs.len() ==> cs[i].data == ChangeDataView::SetParent(parent) && adoptable(
                m,
                cs[i].work_item_id,
            ),
    ensures
        apply_seq(m, o, cs).0.dom() == m.dom(),
        forall|k: Seq<char>| #[trigger]
            m.contains_key(k) ==> (apply_seq(m, o, cs).0[k].data is Issue <==> m[k].data is Issue),
        forall|k: Seq<char>| #[trigger]
            m.contains_key(k) && m[k].data is Issue ==> apply_seq(
                m,
                o,
                cs,
            ).0[k].data->Issue_0.tracked_issues == m[k].data->Issue_0.tracked_issues,
        forall|k: Seq<char>| #[trigger]
            m.contains_key(k) && m[k].data is Issue ==> apply_seq(
                m,
                o,
                cs,
            ).0[k].data->Issue_0.parent_id == if exists|i: int|
                0 <= i < cs.len() && (#[trigger] cs[i]).work_item_id == k {
                Some(parent)
            } else {
                m[k].data->Issue_0.parent_id
            },
    decreases cs.len(),
{
    if cs.len() > 0 {
        let c = cs[0];
        let t = c.work_item_id;
        let (m1, o1) = apply_step(m, o, c);
        // The adopted issue has no prior parent, so the only edits are its
        // own parent edge and the adopting parent's sub-issue list.
        assert(crate::apply::old_parent_of(m, t) is None);
        assert(m1.dom() =~= m.dom());
        assert(m1[t].data is Issue && m1[t].data->Issue_0.parent_id == Some(parent));
        assert(forall|k: Seq<char>|
            #![trigger m1[k]]
            m.contains_key(k) ==> (m1[k].data is Issue <==> m[k].data is Issue));
        assert(forall|k: Seq<char>|
            #![trigger m1[k]]
            m.contains_key(k) && m[k].data is Issue ==> m1[k].data->Issue_0.tracked_issues
                == m[k].data->Issue_0.tracked_issues);
        assert(forall|k: Seq<char>|
            #![trigger m1[k]]
            m.contains_key(k) && m[k].data is Issue && k != t ==> m1[k].data->Issue_0.parent_id
                == m[k].data->Issue_0.parent_id);
        let rest = cs.drop_first();
        assert(distinct_keys(rest)) by {
            assert(forall|x: int| 0 <= x < rest.len() ==> rest[x] == cs[x + 1]);
        }
        assert forall|i: int| #![trigger rest[i]] 0 <= i < rest.len() implies rest[i].data
            == ChangeDataView::SetParent(parent) && adoptable(m1, rest[i].work_item_id) by {
            assert(rest[i] == cs[i + 1]);
            assert(spec_key(cs[i + 1]) != spec_key(cs[0]));
            assert(cs[i + 1].work_item_id != t);
        }
        lemma_apply_adoptions(m1, o1, rest, parent);
        assert forall|k: Seq<char>| #[trigger]
            m.contains_key(k) && m[k].data is Issue implies apply_seq(
            m,
            o,
            cs,
        ).0[k].data->Issue_0.parent_id == if exists|i: int|
            0 <= i < cs.len() && (#[trigger] cs[i]).work_item_id == k {
            Some(parent)
        } else {
            m[k].data->Issue_0.parent_id
        } by {
            if exists|i: int| 0 <= i < cs.len() && (#[trigger] cs[i]).work_item_id == k {
                let i = choose|i: int| 0 <= i < cs.len() && (#[trigger] cs[i]).work_item_id == k;
                if i == 0 {
                    if exists|j: int| 0 <= j < rest.len() && (#[trigger] rest[j]).work_item_id
                        == k {
                    } else {
                        assert(m1[k].data->Issue_0.parent_id == Some(parent));
                    }
                } else {
                    assert(rest[i - 1].work_item_id == k);
                }
            } else {
                assert(cs[0].work_item_id != k);
                assert(forall|j: int|
                    0 <= j < rest.len() ==> (#[trigger] rest[j]).work_item_id == cs[j + 1].work_item_id);
                if exists|j: int| 0 <= j < rest.len() && (#[trigger] rest[j]).work_item_id == k {
                    let j = choose|j: int|
                        0 <= j < rest.len() && (#[trigger] rest[j]).work_item_id == k;
                    assert(cs[j + 1].work_item_id == k);
                    assert(false);
                }
            }
        }
    }
}

/// Adopting tracked issues is idempotent: applying the derived changes and
/// deriving again yields no further changes.  `cs` is the derived batch in
/// any ledger order.
pub proof fn lemma_convert_idempotent(
    m: Map<Seq<char>, WorkItemView>,
    o: Map<Seq<char>, WorkItemView>,
    cs: Seq<ChangeView>,
    parent: Seq<char>,
)
    requires
        distinct_keys(cs),
        changes_map(cs) == convert_spec(m, parent),
    ensures
        convert_spec(apply_seq(m, o, cs).0, parent) =~= Map::<(Seq<char>, ChangeKind), ChangeView>::empty(),
{
    let m2 = apply_seq(m, o, cs).0;
    if m.contains_key(parent) && m[parent].data is Issue {
        let ts = m[parent].data->Issue_0.tracked_issues->Loaded_0;
        assert forall|i: int| #![trigger cs[i]] 0 <= i < cs.len() implies cs[i].data
            == ChangeDataView::SetParent(parent) && adoptable(m, cs[i].work_item_id) by {
            lemma_changes_map_contains_at(cs, i);
            let k = spec_key(cs[i]);
            lemma_convert_fold_membership(Map::empty(), m, parent, ts, k);
            assert(convert_spec(m, parent)[k] == cs[i]);
            assert(cs[i] == adoption_change(k.0, parent));
        }
        lemma_apply_adoptions(m, o, cs, parent);
        if m2.contains_key(parent) && m2[parent].data is Issue {
            let ts2 = m2[parent].data->Issue_0.tracked_issues->Loaded_0;
            assert(ts2 == ts);
            assert forall|k: (Seq<char>, ChangeKind)| #[trigger]
                convert_spec(m2, parent).contains_key(k) implies false by {
                lemma_convert_fold_membership(Map::empty(), m2, parent, ts2, k);
                assert(k.1 is SetParent && ts2.contains(k.0) && adoptable(m2, k.0));
                // The id was adoptable before, so its change is in the
                // batch, so its parent edge is now set: a contradiction.
                assert(m.contains_key(k.0));
                assert(adoptable(m, k.0)) by {
                    if m[k.0].data is Issue {
                        if m[k.0].data->Issue_0.parent_id is None {
                        } else {
                            assert(m2[k.0].data->Issue_0.parent_id == if exists|i: int|
                                0 <= i < cs.len() && (#[trigger] cs[i]).work_item_id == k.0 {
                                Some(parent)
                            } else {
                                m[k.0].data->Issue_0.parent_id
                            });
                            assert(false);
                        }
                    } else {
                        assert(false);
                    }
                }
                lemma_convert_fold_membership(
                    Map::empty(),
                    m,
                    parent,
                    ts,
                    (k.0, ChangeKind::SetParent),
                );
                assert(convert_spec(m, parent).contains_key((k.0, ChangeKind::SetParent)));
                lemma_changes_map_dom(cs, (k.0, ChangeKind::SetParent));
                let i = choose|i: int|
                    0 <= i < cs.len() && spec_key(cs[i]) == (k.0, ChangeKind::SetParent);
                assert(cs[i].work_item_id == k.0);
                assert(m2[k.0].data->Issue_0.parent_id == Some(parent));
            }
        } else {
            assert forall|k: (Seq<char>, ChangeKind)| #[trigger]
                convert_spec(m2, parent).contains_key(k) implies false by {}
        }
    } else {
        assert(changes_map(cs) =~= Map::<(Seq<char>, ChangeKind), ChangeView>::empty());
        assert(cs.len() == 0) by {
            if cs.len() > 0 {
                lemma_changes_map_contains_at(cs, 0);
                assert(false);
            }
        }
        assert(cs =~= Seq::<ChangeView>::empty());
        assert(m2 == m);
    }
}

} // verus!
