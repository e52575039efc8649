//! The hierarchy sanitizer.
//!
//! A pure derivation of corrective edits from the entity tree and the
//! field catalog, in two passes.  A flat pass over every entity emits a
//! status change for closed entities whose status field is not "Closed",
//! and an issue-type change for issues whose "kind" field marks them as
//! bugs while their issue type disagrees.  A tree pass walks depth-first
//! from each root, carrying the nearest ancestor's epic down: an entity
//! with a blank epic inherits it; a non-blank disagreeing epic is left
//! untouched (sanitization never silently overwrites an explicit human
//! choice).  A child id absent from the fetched set yields an
//! add-to-project change instead.  Propagation simply stops along
//! reference cycles: the walk is budgeted, and no cycle detection is
//! attempted, by design.

use vstd::prelude::*;

use crate::changes::Change;
use crate::changes::ChangeData;
use crate::changes::ChangeDataView;
use crate::changes::ChangeKind;
use crate::changes::ChangeView;
use crate::changes::Changes;
use crate::delay_load::DelayLoadView;
use crate::fields::spec_option_id;
use crate::fields::Fields;
use crate::ids::clone_opt_option_id;
use crate::ids::opt_option_id_eq;
use crate::ids::opt_option_id_view;
use crate::ids::FieldOptionId;
use crate::ids::WorkItemId;
use crate::work_item::closed_state;
use crate::work_item::WorkItem;
use crate::work_item::WorkItemData;
use crate::work_item::WorkItemView;
use crate::work_items::spec_roots;
use crate::work_items::WorkItems;
use crate::work_items::WorkItemsView;

verus! {

/// The ledger key type.
pub type LedgerKey = (Seq<char>, ChangeKind);

/// The ledger map type.
pub type Ledger = Map<LedgerKey, ChangeView>;

/// Whether the flat pass owes the entity a status change: it is known to
/// be closed and its status field is not the given "Closed" option.
pub open spec fn needs_status_change(w: WorkItemView, closed_id: Option<Seq<char>>) -> bool {
    closed_state(w.data) == DelayLoadView::<bool>::Loaded(true) && w.project_item.status
        != closed_id
}

/// Whether the flat pass owes the issue an issue-type change: its "kind"
/// field marks it as a bug while its issue type disagrees.
pub open spec fn needs_bug_change(w: WorkItemView, bug_id: Option<Seq<char>>) -> bool {
    w.data is Issue && w.project_item.kind == DelayLoadView::<Option<Seq<char>>>::Loaded(bug_id)
        && w.data->Issue_0.issue_type != DelayLoadView::<Option<Seq<char>>>::Loaded(
        Some("Bug"@),
    )
}

/// What the flat pass adds to the ledger for one entity.
pub open spec fn flat_step(
    led: Ledger,
    w: WorkItemView,
    closed_id: Option<Seq<char>>,
    bug_id: Option<Seq<char>>,
) -> Ledger {
    let led1 = if needs_status_change(w, closed_id) {
        led.insert(
            (w.id, ChangeKind::Status),
            ChangeView { work_item_id: w.id, data: ChangeDataView::Status(closed_id) },
        )
    } else {
        led
    };
    if needs_bug_change(w, bug_id) {
        led1.insert(
            (w.id, ChangeKind::IssueType),
            ChangeView { work_item_id: w.id, data: ChangeDataView::IssueType(Some("Bug"@)) },
        )
    } else {
        led1
    }
}

/// The flat pass over every stored entity, in storage order.
pub open spec fn flat_pass(
    led: Ledger,
    vs: Seq<WorkItemView>,
    closed_id: Option<Seq<char>>,
    bug_id: Option<Seq<char>>,
) -> Ledger
    decreases vs.len(),
{
    if vs.len() == 0 {
        led
    } else {
        flat_pass(flat_step(led, vs[0], closed_id, bug_id), vs.drop_first(), closed_id, bug_id)
    }
}

/// The tree pass at one entity: a missing entity yields an add-to-project
/// change; a blank epic that disagrees with an inherited one is corrected;
/// children inherit the nearest ancestor's epic.  The budget bounds the
/// walk, so propagation stops along reference cycles.
pub open spec fn hier_item(
    led: Ledger,
    m: Map<Seq<char>, WorkItemView>,
    id: Seq<char>,
    epic: Option<Seq<char>>,
    fuel: nat,
) -> Ledger
    decreases fuel, 0int,
{
    if fuel == 0 {
        led
    } else if !m.contains_key(id) {
        led.insert(
            (id, ChangeKind::AddToProject),
            ChangeView { work_item_id: id, data: ChangeDataView::AddToProject },
        )
    } else {
        let w = m[id];
        let led1 = if epic is Some && w.project_item.epic != epic && w.project_item.epic is None {
            led.insert(
                (id, ChangeKind::Epic),
                ChangeView { work_item_id: id, data: ChangeDataView::Epic(epic) },
            )
        } else {
            led
        };
        let inherited = if epic is Some {
            epic
        } else {
            w.project_item.epic
        };
        if w.data is Issue {
            hier_children(led1, m, w.data->Issue_0.sub_issues, inherited, (fuel - 1) as nat)
        } else {
            led1
        }
    }
}

/// The tree pass over a child list, left to right.
pub open spec fn hier_children(
    led: Ledger,
    m: Map<Seq<char>, WorkItemView>,
    ids: Seq<Seq<char>>,
    epic: Option<Seq<char>>,
    fuel: nat,
) -> Ledger
    decreases fuel, ids.len() + 1,
{
    if ids.len() == 0 {
        led
    } else {
        hier_children(hier_item(led, m, ids[0], epic, fuel), m, ids.drop_first(), epic, fuel)
    }
}

/// The sanitizer's result: the flat pass over every entity, then the tree
/// pass from every root, with a budget that covers any acyclic walk.
pub open spec fn spec_sanitize(
    vs: Seq<WorkItemView>,
    v: WorkItemsView,
    closed_id: Option<Seq<char>>,
    bug_id: Option<Seq<char>>,
) -> Ledger {
    hier_children(
        flat_pass(Map::empty(), vs, closed_id, bug_id),
        v.map,
        spec_roots(v),
        None,
        walk_fuel(vs.len()),
    )
}

/// The walk budget: one more than the number of stored entities, which
/// covers any acyclic walk, capped at the machine's limit.
pub open spec fn walk_fuel(n: nat) -> nat {
    if n + 1 <= usize::MAX {
        (n + 1) as nat
    } else {
        usize::MAX as nat
    }
}

/// Whether the sanitizer may read every field it needs: each entity's
/// closed state is known, and each issue's kind and issue type are
/// fetched.
pub open spec fn sanitize_ready(m: Map<Seq<char>, WorkItemView>) -> bool {
    forall|k: Seq<char>| #[trigger]
        m.contains_key(k) ==> closed_state(m[k].data) is Loaded && (m[k].data is Issue
            ==> m[k].project_item.kind is Loaded && m[k].data->Issue_0.issue_type is Loaded)
}

// ---------------------------------------------------------------------------
// Exec
// ---------------------------------------------------------------------------

impl WorkItems {
    /// The tree pass at one entity.
    fn hier_visit(&self, changes: &mut Changes, id: &WorkItemId, epic: &Option<FieldOptionId>, fuel: usize)
        ensures
            final(changes)@ == hier_item(
                old(changes)@,
                self@.map,
                id@,
                opt_option_id_view(*epic),
                fuel as nat,
            ),
        decreases fuel,
    {
        if fuel == 0 {
            return ;
        }
        let ghost m = self@.map;
        let ghost ev = opt_option_id_view(*epic);
        match self.get(id) {
            None => {
                changes.add(Change { work_item_id: id.clone(), data: ChangeData::AddToProject });
            },
            Some(item) => {
                if epic.is_some() && !opt_option_id_eq(&item.project_item.epic, epic)
                    && item.project_item.epic.is_none() {
                    changes.add(
                        Change {
                            work_item_id: id.clone(),
                            data: ChangeData::Epic(clone_opt_option_id(epic)),
                        },
                    );
                }
                let inherited: Option<FieldOptionId> = if epic.is_some() {
                    clone_opt_option_id(epic)
                } else {
                    clone_opt_option_id(&item.project_item.epic)
                };
                let ghost led1 = changes@;
                let ghost iv = if ev is Some {
                    ev
                } else {
                    m[id@].project_item.epic
                };
                assert(opt_option_id_view(inherited) == iv);
                if let WorkItemData::Issue(issue) = &item.data {
                    let ghost subs = m[id@].data->Issue_0.sub_issues;
                    let mut j: usize = 0;
                    proof {
                        assert(subs.take(0) =~= Seq::<Seq<char>>::empty());
                    }
                    while j < issue.sub_issues.len()
                        invariant
                            m == self@.map,
                            j <= issue.sub_issues.len(),
                            subs.len() == issue.sub_issues.len(),
                            forall|x: int| 0 <= x < subs.len() ==> subs[x] == issue.sub_issues@[x]@,
                            iv == opt_option_id_view(inherited),
                            fuel >= 1,
                            changes@ == hier_children(
                                led1,
                                m,
                                subs.take(j as int),
                                iv,
                                (fuel - 1) as nat,
                            ),
                        decreases issue.sub_issues.len() - j,
                    {
                        let child = &issue.sub_issues[j];
                        self.hier_visit(changes, child, &inherited, fuel - 1);
                        proof {
                            assert(subs.take(j + 1 as int) =~= subs.take(j as int).push(
                                subs[j as int],
                            ));
                            lemma_hier_children_snoc(
                                led1,
                                m,
                                subs.take(j as int),
                                subs[j as int],
                                iv,
                                (fuel - 1) as nat,
                            );
                        }
                        j += 1;
                    }
                    proof {
                        assert(subs.take(issue.sub_issues.len() as int) =~= subs);
                    }
                }
            },
        }
    }

    /// Derives the corrective edits for the whole tree: status fixes for
    /// closed entities, issue-type fixes for bugs, epic inheritance down
    /// the hierarchy, and add-to-project changes for children missing from
    /// the fetched set.  Purely a function of the store and the catalog;
    /// the result is a fresh ledger.
    pub fn sanitize(&self, fields: &Fields) -> (r: Changes)
        requires
            sanitize_ready(self@.map),
        ensures
            r@ == spec_sanitize(
                self.store_views(),
                self@,
                spec_option_id(fields@.status.options, "Closed"@),
                spec_option_id(fields@.kind.options, "Bug"@),
            ),
    {
        let ghost m = self@.map;
        let closed_option_id: Option<FieldOptionId> = match fields.status.option_id(Some("Closed"))
        {
            Some(x) => Some(x.clone()),
            None => None,
        };
        let bug_kind_id: Option<FieldOptionId> = match fields.kind.option_id(Some("Bug")) {
            Some(x) => Some(x.clone()),
            None => None,
        };
        let ghost cid = spec_option_id(fields@.status.options, "Closed"@);
        let ghost bid = spec_option_id(fields@.kind.options, "Bug"@);
        assert(opt_option_id_view(closed_option_id) == cid);
        assert(opt_option_id_view(bug_kind_id) == bid);

        let mut changes = Changes::new();
        let items = self.items();
        let ghost vs = self.store_views();
        let mut i: usize = 0;
        proof {
            assert(vs.take(0) =~= Seq::<WorkItemView>::empty());
        }
        while i < items.len()
            invariant
                i <= items.len(),
                items@.map_values(|w: WorkItem| w@) == vs,
                m == self@.map,
                crate::work_items::items_map(vs) == m,
                crate::work_items::distinct_ids(vs),
                sanitize_ready(m),
                vs.len() == items.len(),
                opt_option_id_view(closed_option_id) == cid,
                opt_option_id_view(bug_kind_id) == bid,
                changes@ == flat_pass(Map::empty(), vs.take(i as int), cid, bid),
            decreases items.len() - i,
        {
            let item = &items[i];
            assert(item@ == vs[i as int]);
            proof {
                crate::work_items::lemma_items_map_contains_at(vs, i as int);
                assert(m.contains_key(vs[i as int].id));
            }
            let ghost led_before = changes@;

            // Closed entities should have their status set to "Closed".
            let is_closed = item.is_closed();
            if *is_closed.expect_loaded() && !opt_option_id_eq(
                &item.project_item.status,
                &closed_option_id,
            ) {
                changes.add(
                    Change {
                        work_item_id: item.id.clone(),
                        data: ChangeData::Status(clone_opt_option_id(&closed_option_id)),
                    },
                );
            }

            // Issues whose kind marks them as bugs should have the bug
            // issue type.
            if let WorkItemData::Issue(issue) = &item.data {
                let kind = item.project_item.kind.expect_loaded();
                let type_is_bug = match issue.issue_type.expect_loaded() {
                    Some(t) => crate::fields::str_eq_string("Bug", t),
                    None => false,
                };
                if opt_option_id_eq(kind, &bug_kind_id) && !type_is_bug {
                    changes.add(
                        Change {
                            work_item_id: item.id.clone(),
                            data: ChangeData::IssueType(Some(String::from_str("Bug"))),
                        },
                    );
                }
            }
            proof {
                assert(changes@ =~= flat_step(led_before, vs[i as int], cid, bid));
                assert(vs.take(i + 1 as int) =~= vs.take(i as int).push(vs[i as int]));
                lemma_flat_pass_snoc(Map::empty(), vs.take(i as int), vs[i as int], cid, bid);
            }
            i += 1;
        }
        proof {
            assert(vs.take(items.len() as int) =~= vs);
        }

        // Tree pass: inherit epics down from each root.
        let roots = self.get_roots();
        let ghost rv = spec_roots(self@);
        let ghost led0 = changes@;
        let fuel: usize = if items.len() < usize::MAX {
            items.len() + 1
        } else {
            usize::MAX
        };
        assert(fuel as nat == walk_fuel(vs.len()));
        let no_epic: Option<FieldOptionId> = None;
        let mut k: usize = 0;
        proof {
            assert(rv.take(0) =~= Seq::<Seq<char>>::empty());
        }
        while k < roots.len()
            invariant
                k <= roots.len(),
                rv.len() == roots.len(),
                forall|x: int| 0 <= x < rv.len() ==> rv[x] == roots@[x]@,
                m == self@.map,
                no_epic is None,
                changes@ == hier_children(led0, m, rv.take(k as int), None, fuel as nat),
            decreases roots.len() - k,
        {
            self.hier_visit(&mut changes, &roots[k], &no_epic, fuel);
            proof {
                assert(rv.take(k + 1 as int) =~= rv.take(k as int).push(rv[k as int]));
                lemma_hier_children_snoc(led0, m, rv.take(k as int), rv[k as int], None, fuel as nat);
            }
            k += 1;
        }
        proof {
            assert(rv.take(roots.len() as int) =~= rv);
        }
        changes
    }
}

proof fn lemma_flat_pass_snoc(
    led: Ledger,
    vs: Seq<WorkItemView>,
    w: WorkItemView,
    cid: Option<Seq<char>>,
    bid: Option<Seq<char>>,
)
    ensures
        flat_pass(led, vs.push(w), cid, bid) == flat_step(flat_pass(led, vs, cid, bid), w, cid, bid),
    decreases vs.len(),
{
    if vs.len() == 0 {
        assert(vs.push(w)[0] == w);
        assert(vs.push(w).drop_first() =~= Seq::<WorkItemView>::empty());
        assert(flat_pass(led, vs.push(w), cid, bid) == flat_pass(
            flat_step(led, w, cid, bid),
            vs.push(w).drop_first(),
            cid,
            bid,
        ));
        assert(flat_pass(led, vs, cid, bid) == led);
    } else {
        assert(vs.push(w)[0] == vs[0]);
        assert(vs.push(w).drop_first() =~= vs.drop_first().push(w));
        assert(flat_pass(led, vs.push(w), cid, bid) == flat_pass(
            flat_step(led, vs[0], cid, bid),
            vs.drop_first().push(w),
            cid,
            bid,
        ));
        assert(flat_pass(led, vs, cid, bid) == flat_pass(
            flat_step(led, vs[0], cid, bid),
            vs.drop_first(),
            cid,
            bid,
        ));
        lemma_flat_pass_snoc(flat_step(led, vs[0], cid, bid), vs.drop_first(), w, cid, bid);
    }
}

proof fn lemma_hier_children_snoc(
    led: Ledger,
    m: Map<Seq<char>, WorkItemView>,
    ids: Seq<Seq<char>>,
    x: Seq<char>,
    epic: Option<Seq<char>>,
    fuel: nat,
)
    ensures
        hier_children(led, m, ids.push(x), epic, fuel) == hier_item(
            hier_children(led, m, ids, epic, fuel),
            m,
            x,
            epic,
            fuel,
        ),
    decreases ids.len(),
{
    if ids.len() == 0 {
        assert(ids.push(x)[0] == x);
        assert(ids.push(x).drop_first() =~= Seq::<Seq<char>>::empty());
        assert(hier_children(led, m, ids.push(x), epic, fuel) == hier_children(
            hier_item(led, m, x, epic, fuel),
            m,
            ids.push(x).drop_first(),
            epic,
            fuel,
        ));
        assert(hier_children(led, m, ids, epic, fuel) == led);
    } else {
        assert(ids.push(x)[0] == ids[0]);
        assert(ids.push(x).drop_first() =~= ids.drop_first().push(x));
        assert(hier_children(led, m, ids.push(x), epic, fuel) == hier_children(
            hier_item(led, m, ids[0], epic, fuel),
            m,
            ids.drop_first().push(x),
            epic,
            fuel,
        ));
        assert(hier_children(led, m, ids, epic, fuel) == hier_children(
            hier_item(led, m, ids[0], epic, fuel),
            m,
            ids.drop_first(),
            epic,
            fuel,
        ));
        lemma_hier_children_snoc(hier_item(led, m, ids[0], epic, fuel), m, ids.drop_first(), x, epic, fuel);
    }
}

// ---------------------------------------------------------------------------
// Laws of the sanitizer
// ---------------------------------------------------------------------------

/// The flat pass only ever adds status and issue-type changes.
proof fn lemma_flat_pass_kinds(
    led: Ledger,
    vs: Seq<WorkItemView>,
    cid: Option<Seq<char>>,
    bid: Option<Seq<char>>,
    k: LedgerKey,
)
    requires
        !(k.1 is Status),
        !(k.1 is IssueType),
    ensures
        flat_pass(led, vs, cid, bid).contains_key(k) <==> led.contains_key(k),
        led.contains_key(k) ==> flat_pass(led, vs, cid, bid)[k] == led[k],
    decreases vs.len(),
{
    if vs.len() > 0 {
        lemma_flat_pass_kinds(flat_step(led, vs[0], cid, bid), vs.drop_first(), cid, bid, k);
    }
}

/// The tree pass only ever adds epic and add-to-project changes, and an
/// epic change only for a stored entity whose own epic is blank.
proof fn lemma_hier_item_kinds(
    led: Ledger,
    m: Map<Seq<char>, WorkItemView>,
    id: Seq<char>,
    epic: Option<Seq<char>>,
    fuel: nat,
    k: LedgerKey,
)
    ensures
        !(k.1 is Epic) && !(k.1 is AddToProject) ==> (hier_item(led, m, id, epic, fuel).contains_key(
            k,
        ) <==> led.contains_key(k)) && (led.contains_key(k) ==> hier_item(led, m, id, epic, fuel)[k]
            == led[k]),
        k.1 is Epic && hier_item(led, m, id, epic, fuel).contains_key(k) && !led.contains_key(k)
            ==> m.contains_key(k.0) && m[k.0].project_item.epic is None,
    decreases fuel, 0int,
{
    if fuel == 0 {
    } else if !m.contains_key(id) {
    } else {
        let w = m[id];
        let led1 = if epic is Some && w.project_item.epic != epic && w.project_item.epic is None {
            led.insert(
                (id, ChangeKind::Epic),
                ChangeView { work_item_id: id, data: ChangeDataView::Epic(epic) },
            )
        } else {
            led
        };
        let inherited = if epic is Some {
            epic
        } else {
            w.project_item.epic
        };
        if w.data is Issue {
            lemma_hier_children_kinds(
                led1,
                m,
                w.data->Issue_0.sub_issues,
                inherited,
                (fuel - 1) as nat,
                k,
            );
        }
    }
}

proof fn lemma_hier_children_kinds(
    led: Ledger,
    m: Map<Seq<char>, WorkItemView>,
    ids: Seq<Seq<char>>,
    epic: Option<Seq<char>>,
    fuel: nat,
    k: LedgerKey,
)
    ensures
        !(k.1 is Epic) && !(k.1 is AddToProject) ==> (hier_children(
            led,
            m,
            ids,
            epic,
            fuel,
        ).contains_key(k) <==> led.contains_key(k)) && (led.contains_key(k) ==> hier_children(
            led,
            m,
            ids,
            epic,
            fuel,
        )[k] == led[k]),
        k.1 is Epic && hier_children(led, m, ids, epic, fuel).contains_key(k) && !led.contains_key(
            k,
        ) ==> m.contains_key(k.0) && m[k.0].project_item.epic is None,
    decreases fuel, ids.len() + 1,
{
    if ids.len() > 0 {
        lemma_hier_item_kinds(led, m, ids[0], epic, fuel, k);
        lemma_hier_children_kinds(
            hier_item(led, m, ids[0], epic, fuel),
            m,
            ids.drop_first(),
            epic,
            fuel,
            k,
        );
    }
}

/// The sanitizer never overwrites a non-blank epic value, even when an
/// ancestor disagrees: every epic change it emits targets an entity whose
/// own epic is blank.
pub proof fn lemma_sanitize_never_overwrites_epic(
    vs: Seq<WorkItemView>,
    v: WorkItemsView,
    cid: Option<Seq<char>>,
    bid: Option<Seq<char>>,
    k: Seq<char>,
)
    requires
        spec_sanitize(vs, v, cid, bid).contains_key((k, ChangeKind::Epic)),
    ensures
        v.map.contains_key(k),
        v.map[k].project_item.epic is None,
{
    let flat = flat_pass(Map::empty(), vs, cid, bid);
    lemma_flat_pass_kinds(Map::empty(), vs, cid, bid, (k, ChangeKind::Epic));
    assert(!flat.contains_key((k, ChangeKind::Epic)));
    lemma_hier_children_kinds(
        flat,
        v.map,
        spec_roots(v),
        None,
        walk_fuel(vs.len()),
        (k, ChangeKind::Epic),
    );
}

/// Whether the flat pass owes the entity a status change, stated over the
/// store map.
pub open spec fn status_change_due(
    m: Map<Seq<char>, WorkItemView>,
    k: Seq<char>,
    cid: Option<Seq<char>>,
) -> bool {
    m.contains_key(k) && needs_status_change(m[k], cid)
}

proof fn lemma_flat_pass_status(
    led: Ledger,
    vs: Seq<WorkItemView>,
    cid: Option<Seq<char>>,
    bid: Option<Seq<char>>,
    k: Seq<char>,
)
    ensures
        flat_pass(led, vs, cid, bid).contains_key((k, ChangeKind::Status)) <==> (led.contains_key(
            (k, ChangeKind::Status),
        ) || exists|i: int| 0 <= i < vs.len() && vs[i].id == k && needs_status_change(vs[i], cid)),
        (exists|i: int| 0 <= i < vs.len() && vs[i].id == k && needs_status_change(vs[i], cid))
            ==> flat_pass(led, vs, cid, bid)[(k, ChangeKind::Status)] == (ChangeView {
            work_item_id: k,
            data: ChangeDataView::Status(cid),
        }),
        !(exists|i: int| 0 <= i < vs.len() && vs[i].id == k && needs_status_change(vs[i], cid))
            && led.contains_key((k, ChangeKind::Status)) ==> flat_pass(led, vs, cid, bid)[(
            k,
            ChangeKind::Status,
        )] == led[(k, ChangeKind::Status)],
    decreases vs.len(),
{
    if vs.len() > 0 {
        let led2 = flat_step(led, vs[0], cid, bid);
        lemma_flat_pass_status(led2, vs.drop_first(), cid, bid, k);
        assert forall|i: int| 0 < i < vs.len() implies vs.drop_first()[i - 1] == vs[i] by {}
        if exists|i: int| 0 <= i < vs.len() && vs[i].id == k && needs_status_change(vs[i], cid) {
            let i = choose|i: int|
                0 <= i < vs.len() && vs[i].id == k && #[trigger] needs_status_change(vs[i], cid);
            if i > 0 {
                assert(vs.drop_first()[i - 1].id == k && needs_status_change(
                    vs.drop_first()[i - 1],
                    cid,
                ));
            }
        }
        if exists|i: int|
            0 <= i < vs.drop_first().len() && vs.drop_first()[i].id == k && needs_status_change(
                vs.drop_first()[i],
                cid,
            ) {
            let i = choose|i: int|
                0 <= i < vs.drop_first().len() && vs.drop_first()[i].id == k
                    && #[trigger] needs_status_change(vs.drop_first()[i], cid);
            assert(vs[i + 1].id == k && needs_status_change(vs[i + 1], cid));
        }
    }
}

/// A closed entity whose status is not "Closed" receives exactly one
/// status change, and it sets the status to "Closed"; an entity that is
/// already "Closed", or not closed, receives none.
pub proof fn lemma_sanitize_closed_status(
    vs: Seq<WorkItemView>,
    v: WorkItemsView,
    cid: Option<Seq<char>>,
    bid: Option<Seq<char>>,
    k: Seq<char>,
)
    requires
        crate::work_items::distinct_ids(vs),
        v.map == crate::work_items::items_map(vs),
    ensures
        spec_sanitize(vs, v, cid, bid).contains_key((k, ChangeKind::Status))
            <==> status_change_due(v.map, k, cid),
        status_change_due(v.map, k, cid) ==> spec_sanitize(vs, v, cid, bid)[(
            k,
            ChangeKind::Status,
        )] == (ChangeView { work_item_id: k, data: ChangeDataView::Status(cid) }),
{
    let flat = flat_pass(Map::empty(), vs, cid, bid);
    lemma_flat_pass_status(Map::empty(), vs, cid, bid, k);
    lemma_hier_children_kinds(
        flat,
        v.map,
        spec_roots(v),
        None,
        walk_fuel(vs.len()),
        (k, ChangeKind::Status),
    );
    if exists|i: int| 0 <= i < vs.len() && vs[i].id == k && needs_status_change(vs[i], cid) {
        let i = choose|i: int|
            0 <= i < vs.len() && #[trigger] vs[i].id == k && needs_status_change(vs[i], cid);
        crate::work_items::lemma_items_map_contains_at(vs, i);
        assert(v.map[k] == vs[i]);
    }
    if status_change_due(v.map, k, cid) {
        crate::work_items::lemma_items_map_dom(vs, k);
        let i = choose|i: int| 0 <= i < vs.len() && vs[i].id == k;
        crate::work_items::lemma_items_map_contains_at(vs, i);
        assert(vs[i] == v.map[k]);
        assert(needs_status_change(vs[i], cid));
    }
}

} // verus!
