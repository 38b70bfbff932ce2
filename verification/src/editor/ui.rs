use crate::editor::selection::{
    after_select_maybe_add, is_entity_bits, lemma_remove_first, remove_first, selected_bits,
    selection_bits, selection_clear, selection_maybe_add, selection_new, selection_replace,
};
use crate::editor::{spawned_name, PrimitiveKind};
use bevy_inspector_egui::bevy_inspector::hierarchy::SelectedEntities;
use vstd::prelude::*;

verus! {

/// What the inspector panel shows: the selected entities, a resource, or an
/// asset. Types and assets are given by keys that the caller hands out, one
/// per `TypeId` and one per asset id, with the name shown for them.
pub enum InspectorSelection {
    Entities,
    Resource(u64, String),
    Asset(u64, String, u64),
}

/// The part of the editor's UI state that its decisions read and change.
pub struct UiState {
    pub selected_entities: SelectedEntities,
    pub selection: InspectorSelection,
    pub pointer_in_viewport: bool,
    pub gizmo_active: bool,
}

impl UiState {
    /// A fresh UI state: nothing selected, the inspector on the selected
    /// entities, the pointer not over the viewport and the gizmo idle.
    pub fn new() -> (r: Self)
        ensures
            selected_bits(r.selected_entities) == Seq::<u64>::empty(),
            r.selection is Entities,
            !r.pointer_in_viewport,
            !r.gizmo_active,
    {
        UiState {
            selected_entities: selection_new(),
            selection: InspectorSelection::Entities,
            pointer_in_viewport: false,
            gizmo_active: false,
        }
    }
}

/// Whether some pointer hits some entity.
pub open spec fn any_hit(hits: Seq<Seq<u64>>) -> bool {
    exists|i: int| 0 <= i < hits.len() && (#[trigger] hits[i]).len() > 0
}

/// The selection after `select_maybe_add` was called on each of `es` in order.
pub open spec fn select_each(s: Seq<u64>, es: Seq<u64>, add: bool) -> Seq<u64>
    decreases es.len(),
{
    if es.len() == 0 {
        s
    } else {
        after_select_maybe_add(select_each(s, es.drop_last(), add), es.last(), add)
    }
}

/// The selection after `select_maybe_add` was called on every hit of every
/// pointer, pointer by pointer.
pub open spec fn select_hits(s: Seq<u64>, hits: Seq<Seq<u64>>, add: bool) -> Seq<u64>
    decreases hits.len(),
{
    if hits.len() == 0 {
        s
    } else {
        select_each(select_hits(s, hits.drop_last(), add), hits.last(), add)
    }
}

/// The selection after one press of the primary button: the hit entities are
/// selected where anything is hit, and the selection is cleared where nothing is.
pub open spec fn after_primary_press(s: Seq<u64>, hits: Seq<Seq<u64>>, add: bool) -> Seq<u64> {
    if any_hit(hits) {
        select_hits(s, hits, add)
    } else {
        Seq::empty()
    }
}

/// The selection after a frame's pointer events: `events[i]` tells whether
/// event `i` is a press of the primary button; other events change nothing.
pub open spec fn after_pointer_events(s: Seq<u64>, events: Seq<bool>, hits: Seq<Seq<u64>>, add: bool) -> Seq<
    u64,
>
    decreases events.len(),
{
    if events.len() == 0 {
        s
    } else {
        let before = after_pointer_events(s, events.drop_last(), hits, add);
        if events.last() {
            after_primary_press(before, hits, add)
        } else {
            before
        }
    }
}

/// Every hit names an entity.
pub open spec fn hits_are_entities(hits: Seq<Seq<u64>>) -> bool {
    forall|i: int, j: int|
        0 <= i < hits.len() && 0 <= j < hits[i].len() ==> is_entity_bits(#[trigger] hits[i][j])
}

/// The pointer picking of one frame. `primary_presses[i]` tells whether the
/// frame's pointer input `i` is a press of the primary button, `hits[p]` gives
/// the entities that pointer `p` is over, and `add` whether Ctrl or Shift is held.
/// Nothing changes while the pointer is outside the viewport or the gizmo is
/// in use; otherwise each press selects the hit entities (toggling them with
/// `add`), or clears the selection where no pointer hits anything.
pub fn handle_pick_events(
    ui_state: &mut UiState,
    primary_presses: &Vec<bool>,
    hits: &Vec<Vec<u64>>,
    add: bool,
)
    requires
        hits_are_entities(hits.deep_view()),
    ensures
        final(ui_state).pointer_in_viewport == old(ui_state).pointer_in_viewport,
        final(ui_state).gizmo_active == old(ui_state).gizmo_active,
        final(ui_state).selection == old(ui_state).selection,
        selected_bits(final(ui_state).selected_entities) == if old(ui_state).pointer_in_viewport
            && !old(ui_state).gizmo_active {
            after_pointer_events(
                selected_bits(old(ui_state).selected_entities),
                primary_presses@,
                hits.deep_view(),
                add,
            )
        } else {
            selected_bits(old(ui_state).selected_entities)
        },
        selected_bits(old(ui_state).selected_entities).no_duplicates() ==> selected_bits(
            final(ui_state).selected_entities,
        ).no_duplicates(),
{
    if !ui_state.pointer_in_viewport || ui_state.gizmo_active {
        return;
    }
    proof {
        if selected_bits(ui_state.selected_entities).no_duplicates() {
            lemma_events_keep_distinct(
                selected_bits(ui_state.selected_entities),
                primary_presses@,
                hits.deep_view(),
                add,
            );
        }
    }
    let ghost s0 = selected_bits(ui_state.selected_entities);
    let ghost hv = hits.deep_view();
    let mut k: usize = 0;
    while k < primary_presses.len()
        invariant
            k <= primary_presses.len(),
            hv == hits.deep_view(),
            hits_are_entities(hv),
            ui_state.pointer_in_viewport == old(ui_state).pointer_in_viewport,
            ui_state.gizmo_active == old(ui_state).gizmo_active,
            ui_state.selection == old(ui_state).selection,
            selected_bits(ui_state.selected_entities) == after_pointer_events(
                s0,
                primary_presses@.take(k as int),
                hv,
                add,
            ),
        decreases primary_presses.len() - k,
    {
        assert(primary_presses@.take(k + 1).drop_last() =~= primary_presses@.take(k as int));
        if !primary_presses[k] {
            k += 1;
            continue;
        }
        let ghost before = selected_bits(ui_state.selected_entities);
        let mut any_hits = false;
        let mut p: usize = 0;
        while p < hits.len()
            invariant
                p <= hits.len(),
                hv == hits.deep_view(),
                any_hits == exists|i: int| 0 <= i < p && (#[trigger] hv[i]).len() > 0,
            decreases hits.len() - p,
        {
            assert(hv[p as int] == hits[p as int]@);
            if hits[p].len() > 0 {
                any_hits = true;
            }
            p += 1;
        }
        if any_hits {
            let mut p: usize = 0;
            while p < hits.len()
                invariant
                    p <= hits.len(),
                    hv == hits.deep_view(),
                    hits_are_entities(hv),
                    ui_state.pointer_in_viewport == old(ui_state).pointer_in_viewport,
                    ui_state.gizmo_active == old(ui_state).gizmo_active,
                    ui_state.selection == old(ui_state).selection,
                    selected_bits(ui_state.selected_entities) == select_hits(before, hv.take(p as int), add),
                decreases hits.len() - p,
            {
                let row = &hits[p];
                assert(hv[p as int] == row@);
                let mut q: usize = 0;
                while q < row.len()
                    invariant
                        q <= row.len(),
                        hv == hits.deep_view(),
                        hits_are_entities(hv),
                        p < hits.len(),
                        hv[p as int] == row@,
                        ui_state.pointer_in_viewport == old(ui_state).pointer_in_viewport,
                        ui_state.gizmo_active == old(ui_state).gizmo_active,
                        ui_state.selection == old(ui_state).selection,
                        selected_bits(ui_state.selected_entities) == select_each(
                            select_hits(before, hv.take(p as int), add),
                            row@.take(q as int),
                            add,
                        ),
                    decreases row.len() - q,
                {
                    assert(is_entity_bits(hv[p as int][q as int]));
                    selection_maybe_add(&mut ui_state.selected_entities, row[q], add);
                    assert(row@.take(q + 1).drop_last() =~= row@.take(q as int));
                    q += 1;
                }
                assert(row@.take(q as int) =~= row@);
                assert(hv.take(p + 1).drop_last() =~= hv.take(p as int));
                p += 1;
            }
            assert(hv.take(p as int) =~= hv);
        } else {
            selection_clear(&mut ui_state.selected_entities);
        }
        k += 1;
    }
    assert(primary_presses@.take(k as int) =~= primary_presses@);
}

/// `select_maybe_add` without Ctrl/Shift, or on an empty selection, leaves the
/// clicked entity selected alone.
pub proof fn lemma_maybe_add_replaces(s: Seq<u64>, e: u64, add: bool)
    requires
        s.len() == 0 || !add,
    ensures
        after_select_maybe_add(s, e, add) == seq![e],
{
}

/// With Ctrl/Shift on a non-empty selection, `select_maybe_add` toggles the
/// clicked entity: it is taken out where it was selected and put last where it
/// was not; every other entity keeps its place in the selection.
pub proof fn lemma_maybe_add_toggles(s: Seq<u64>, e: u64)
    requires
        s.len() > 0,
        s.no_duplicates(),
    ensures
        forall|x: u64|
            x != e ==> (#[trigger] after_select_maybe_add(s, e, true).contains(x) == s.contains(x)),
        after_select_maybe_add(s, e, true).contains(e) == !s.contains(e),
        !s.contains(e) ==> after_select_maybe_add(s, e, true) == s.push(e),
        s.contains(e) ==> after_select_maybe_add(s, e, true).len() == s.len() - 1,
{
    lemma_remove_first(s, e);
    if !s.contains(e) {
        let t = s.push(e);
        assert(t[t.len() - 1] == e);
        assert forall|x: u64| x != e implies (#[trigger] t.contains(x) == s.contains(x)) by {
            if t.contains(x) {
                let k = choose|k: int| 0 <= k < t.len() && t[k] == x;
                assert(s[k] == x);
            }
            if s.contains(x) {
                let k = choose|k: int| 0 <= k < s.len() && s[k] == x;
                assert(t[k] == x);
            }
        }
    }
}

/// Hits are applied one after another: the selection after hits `es` then `e`
/// is `select_maybe_add(e)` applied to the selection after `es`, whatever the
/// selection holds; no hits change nothing.
pub proof fn lemma_select_each_steps(s: Seq<u64>, es: Seq<u64>, e: u64, add: bool)
    ensures
        select_each(s, Seq::empty(), add) == s,
        select_each(s, es.push(e), add) == after_select_maybe_add(select_each(s, es, add), e, add),
        select_each(s, seq![e], add) == after_select_maybe_add(s, e, add),
{
    assert(es.push(e).drop_last() =~= es);
    assert(seq![e].drop_last() =~= Seq::<u64>::empty());
}

/// Pointers are handled one after another: the hits of a further pointer are
/// applied to the selection left by the pointers before it.
pub proof fn lemma_select_hits_steps(s: Seq<u64>, hits: Seq<Seq<u64>>, row: Seq<u64>, add: bool)
    ensures
        select_hits(s, Seq::empty(), add) == s,
        select_hits(s, hits.push(row), add) == select_each(select_hits(s, hits, add), row, add),
{
    assert(hits.push(row).drop_last() =~= hits);
}

/// Some pointer hits something exactly when some pointer's list of hits holds
/// an entity; a further pointer adds its own hits.
pub proof fn lemma_any_hit_steps(hits: Seq<Seq<u64>>, row: Seq<u64>)
    ensures
        !any_hit(Seq::<Seq<u64>>::empty()),
        any_hit(hits.push(row)) == (any_hit(hits) || row.len() > 0),
{
    let h = hits.push(row);
    if any_hit(h) && row.len() == 0 {
        let i = choose|i: int| 0 <= i < h.len() && (#[trigger] h[i]).len() > 0;
        assert(i < hits.len());
        assert(hits[i] == h[i]);
    }
    if any_hit(hits) {
        let i = choose|i: int| 0 <= i < hits.len() && (#[trigger] hits[i]).len() > 0;
        assert(h[i] == hits[i]);
    }
    if row.len() > 0 {
        assert(h[hits.len() as int] == row);
    }
}

/// Pointer events are handled in order: an event that is not a primary press
/// leaves the selection alone, and a primary press selects the hit entities
/// (or clears the selection where nothing is hit).
pub proof fn lemma_pointer_events_steps(
    s: Seq<u64>,
    events: Seq<bool>,
    hits: Seq<Seq<u64>>,
    add: bool,
)
    ensures
        after_pointer_events(s, Seq::empty(), hits, add) == s,
        after_pointer_events(s, events.push(false), hits, add) == after_pointer_events(
            s,
            events,
            hits,
            add,
        ),
        after_pointer_events(s, events.push(true), hits, add) == if any_hit(hits) {
            select_hits(after_pointer_events(s, events, hits, add), hits, add)
        } else {
            Seq::<u64>::empty()
        },
{
    assert(events.push(false).drop_last() =~= events);
    assert(events.push(true).drop_last() =~= events);
}

/// One primary press whose only hit is entity `e` does to the selection
/// exactly what `select_maybe_add(e, add)` does, whatever the selection holds.
pub proof fn lemma_single_hit_press(s: Seq<u64>, e: u64, add: bool)
    ensures
        after_pointer_events(s, seq![true], seq![seq![e]], add) == after_select_maybe_add(s, e, add),
{
    let hits = seq![seq![e]];
    lemma_pointer_events_steps(s, Seq::empty(), hits, add);
    assert(seq![true] =~= Seq::<bool>::empty().push(true));
    assert(hits[0].len() > 0);
    assert(any_hit(hits));
    assert(hits =~= Seq::<Seq<u64>>::empty().push(seq![e]));
    lemma_select_hits_steps(s, Seq::empty(), seq![e], add);
    lemma_select_each_steps(s, Seq::empty(), e, add);
}

/// An entity selected by `select_maybe_add` is never selected twice.
pub proof fn lemma_maybe_add_keeps_distinct(s: Seq<u64>, e: u64, add: bool)
    requires
        s.no_duplicates(),
    ensures
        after_select_maybe_add(s, e, add).no_duplicates(),
{
    if s.len() == 0 || !add {
    } else if s.contains(e) {
        lemma_remove_first(s, e);
    } else {
        let t = s.push(e);
        assert forall|i: int, j: int| 0 <= i < t.len() && 0 <= j < t.len() && i != j implies t[i]
            != t[j] by {
            if i == s.len() {
                assert(t[j] == s[j]);
            } else if j == s.len() {
                assert(t[i] == s[i]);
            }
        }
    }
}

proof fn lemma_select_each_keeps_distinct(s: Seq<u64>, es: Seq<u64>, add: bool)
    requires
        s.no_duplicates(),
    ensures
        select_each(s, es, add).no_duplicates(),
    decreases es.len(),
{
    if es.len() > 0 {
        lemma_select_each_keeps_distinct(s, es.drop_last(), add);
        lemma_maybe_add_keeps_distinct(select_each(s, es.drop_last(), add), es.last(), add);
    }
}

proof fn lemma_select_hits_keeps_distinct(s: Seq<u64>, hits: Seq<Seq<u64>>, add: bool)
    requires
        s.no_duplicates(),
    ensures
        select_hits(s, hits, add).no_duplicates(),
    decreases hits.len(),
{
    if hits.len() > 0 {
        lemma_select_hits_keeps_distinct(s, hits.drop_last(), add);
        lemma_select_each_keeps_distinct(select_hits(s, hits.drop_last(), add), hits.last(), add);
    }
}

/// However the pointer clicks, the selection never holds an entity twice.
pub proof fn lemma_events_keep_distinct(s: Seq<u64>, events: Seq<bool>, hits: Seq<Seq<u64>>, add: bool)
    requires
        s.no_duplicates(),
    ensures
        after_pointer_events(s, events, hits, add).no_duplicates(),
    decreases events.len(),
{
    if events.len() > 0 {
        let before = after_pointer_events(s, events.drop_last(), hits, add);
        lemma_events_keep_distinct(s, events.drop_last(), hits, add);
        if any_hit(hits) {
            lemma_select_hits_keeps_distinct(before, hits, add);
        }
    }
}

/// A press of the primary button where no pointer hits anything clears the selection.
pub proof fn lemma_click_on_nothing_clears(s: Seq<u64>, hits: Seq<Seq<u64>>, add: bool)
    requires
        !any_hit(hits),
    ensures
        after_primary_press(s, hits, add) == Seq::<u64>::empty(),
{
}

/// The last entity hit: the last hit of the last pointer that hits anything.
pub open spec fn last_hit(hits: Seq<Seq<u64>>) -> u64
    decreases hits.len(),
{
    if hits.len() == 0 {
        0
    } else if hits.last().len() > 0 {
        hits.last().last()
    } else {
        last_hit(hits.drop_last())
    }
}

proof fn lemma_select_hits_plain(s: Seq<u64>, hits: Seq<Seq<u64>>)
    ensures
        select_hits(s, hits, false) == if any_hit(hits) {
            seq![last_hit(hits)]
        } else {
            s
        },
    decreases hits.len(),
{
    if hits.len() > 0 {
        let front = hits.drop_last();
        lemma_select_hits_plain(s, front);
        if hits.last().len() > 0 {
            assert(hits[hits.len() - 1].len() > 0);
        } else {
            assert(select_each(select_hits(s, front, false), hits.last(), false) == select_hits(
                s,
                front,
                false,
            ));
            if any_hit(hits) {
                let i = choose|i: int| 0 <= i < hits.len() && (#[trigger] hits[i]).len() > 0;
                assert(i < hits.len() - 1);
                assert(front[i] == hits[i]);
            }
            if any_hit(front) {
                let i = choose|i: int| 0 <= i < front.len() && (#[trigger] front[i]).len() > 0;
                assert(hits[i] == front[i]);
            }
        }
    }
}

/// Without Ctrl or Shift, a press that hits something leaves exactly one
/// entity selected: the last one hit.
pub proof fn lemma_plain_click_selects_last_hit(s: Seq<u64>, hits: Seq<Seq<u64>>)
    requires
        any_hit(hits),
    ensures
        after_primary_press(s, hits, false) == seq![last_hit(hits)],
{
    lemma_select_hits_plain(s, hits);
}

proof fn lemma_remove_first_of_push(s: Seq<u64>, e: u64)
    requires
        !s.contains(e),
    ensures
        remove_first(s.push(e), e) == s,
    decreases s.len(),
{
    if s.len() == 0 {
        assert(s.push(e).drop_first() =~= s);
    } else {
        let t = s.drop_first();
        assert(!t.contains(e)) by {
            if t.contains(e) {
                let k = choose|k: int| 0 <= k < t.len() && t[k] == e;
                assert(s[k + 1] == e);
            }
        }
        lemma_remove_first_of_push(t, e);
        assert(s.push(e).drop_first() =~= t.push(e));
        assert(seq![s[0]] + t =~= s);
    }
}

/// Ctrl-clicking the same entity twice, while something is selected, leaves
/// the same entities selected.
pub proof fn lemma_ctrl_click_twice(s: Seq<u64>, e: u64)
    requires
        s.len() > 0,
        s.no_duplicates(),
    ensures
        after_select_maybe_add(after_select_maybe_add(s, e, true), e, true).to_set() == s.to_set(),
{
    if s.contains(e) {
        lemma_remove_first(s, e);
        let t = remove_first(s, e);
        if t.len() == 0 {
            assert(s.len() == 1);
            assert(s[0] == e);
            assert(s =~= seq![e]);
        } else {
            let u = t.push(e);
            assert(after_select_maybe_add(t, e, true) == u);
            assert(u[u.len() - 1] == e);
            assert forall|x: u64| u.contains(x) implies s.contains(x) by {
                if x != e {
                    let k = choose|k: int| 0 <= k < u.len() && u[k] == x;
                    assert(k < t.len());
                    assert(t[k] == x);
                    assert(t.contains(x));
                }
            }
            assert forall|x: u64| s.contains(x) implies u.contains(x) by {
                if x != e {
                    assert(remove_first(s, e).contains(x));
                    let k = choose|k: int| 0 <= k < t.len() && t[k] == x;
                    assert(u[k] == x);
                }
            }
            assert(u.to_set() =~= s.to_set());
        }
    } else {
        let t = s.push(e);
        assert(t[t.len() - 1] == e);
        assert(t.contains(e));
        lemma_remove_first_of_push(s, e);
    }
}

impl UiState {
    /// The selected entities, in the order in which they were selected.
    pub fn selected(&self) -> (v: Vec<u64>)
        ensures
            v@ == selected_bits(self.selected_entities),
    {
        selection_bits(&self.selected_entities)
    }

    /// A spawned primitive becomes the only selected entity.
    pub fn select_spawned(&mut self, entity: u64)
        requires
            is_entity_bits(entity),
        ensures
            selected_bits(final(self).selected_entities) == seq![entity],
            final(self).selection == old(self).selection,
            final(self).pointer_in_viewport == old(self).pointer_in_viewport,
            final(self).gizmo_active == old(self).gizmo_active,
    {
        selection_replace(&mut self.selected_entities, entity);
    }

    /// After the hierarchy panel is drawn: where it reports a newly selected
    /// entity, the inspector turns to the selected entities.
    pub fn hierarchy_shown(&mut self, newly_selected: bool)
        ensures
            final(self).selection == if newly_selected {
                InspectorSelection::Entities
            } else {
                old(self).selection
            },
            selected_bits(final(self).selected_entities) == selected_bits(
                old(self).selected_entities,
            ),
            final(self).pointer_in_viewport == old(self).pointer_in_viewport,
            final(self).gizmo_active == old(self).gizmo_active,
    {
        if newly_selected {
            self.selection = InspectorSelection::Entities;
        }
    }

    /// The entity the transform gizmo acts on: the selected entity where
    /// exactly one is selected, none otherwise.
    pub fn gizmo_target(&self) -> (target: Option<u64>)
        ensures
            target == if selected_bits(self.selected_entities).len() == 1 {
                Some(selected_bits(self.selected_entities)[0])
            } else {
                None
            },
    {
        let selected = selection_bits(&self.selected_entities);
        if selected.len() == 1 {
            Some(selected[0])
        } else {
            None
        }
    }

    /// What the inspector panel shows for the current selection.
    pub fn inspector_view(&self) -> (view: InspectorView)
        ensures
            match self.selection {
                InspectorSelection::Entities => {
                    let b = selected_bits(self.selected_entities);
                    if b.len() == 1 {
                        view == InspectorView::Entity(b[0])
                    } else {
                        view matches InspectorView::SharedComponents(v) && v@ == b
                    }
                },
                InspectorSelection::Resource(key, name) => {
                    view matches InspectorView::Resource(k, n) && k == key && n@ == name@
                },
                InspectorSelection::Asset(key, name, handle) => {
                    view matches InspectorView::Asset(k, n, h) && k == key && n@ == name@ && h
                        == handle
                },
            },
    {
        match &self.selection {
            InspectorSelection::Entities => {
                let selected = selection_bits(&self.selected_entities);
                if selected.len() == 1 {
                    InspectorView::Entity(selected[0])
                } else {
                    InspectorView::SharedComponents(selected)
                }
            },
            InspectorSelection::Resource(key, name) => InspectorView::Resource(*key, name.clone()),
            InspectorSelection::Asset(key, name, handle) => InspectorView::Asset(
                *key,
                name.clone(),
                *handle,
            ),
        }
    }
}

/// The content of the inspector panel: one entity with its children, the
/// components shared by several (or no) selected entities, a resource, or an asset.
pub enum InspectorView {
    Entity(u64),
    SharedComponents(Vec<u64>),
    Resource(u64, String),
    Asset(u64, String, u64),
}

/// Whether the resource of type key `type_key` is the one the inspector shows.
pub fn is_resource_selected(selection: &InspectorSelection, type_key: u64) -> (r: bool)
    ensures
        r == (selection matches InspectorSelection::Resource(k, _) && k == type_key),
{
    match selection {
        InspectorSelection::Resource(k, _) => *k == type_key,
        _ => false,
    }
}

/// Whether the asset with key `asset_key` is the one the inspector shows.
pub fn is_asset_selected(selection: &InspectorSelection, asset_key: u64) -> (r: bool)
    ensures
        r == (selection matches InspectorSelection::Asset(_, _, h) && h == asset_key),
{
    match selection {
        InspectorSelection::Asset(_, _, h) => *h == asset_key,
        _ => false,
    }
}

/// The tabs of the editor's dock.
#[derive(Clone, Copy, Debug, PartialEq, Eq, Structural)]
pub enum EguiWindow {
    GameView,
    Hierarchy,
    Resources,
    Assets,
    Inspector,
    Palette,
}

/// The title of a tab: the name of its variant.
pub open spec fn window_title(window: EguiWindow) -> Seq<char> {
    match window {
        EguiWindow::GameView => "GameView"@,
        EguiWindow::Hierarchy => "Hierarchy"@,
        EguiWindow::Resources => "Resources"@,
        EguiWindow::Assets => "Assets"@,
        EguiWindow::Inspector => "Inspector"@,
        EguiWindow::Palette => "Palette"@,
    }
}

/// The title shown on a tab.
pub fn title(window: EguiWindow) -> (t: &'static str)
    ensures
        t@ == window_title(window),
{
    match window {
        EguiWindow::GameView => "GameView",
        EguiWindow::Hierarchy => "Hierarchy",
        EguiWindow::Resources => "Resources",
        EguiWindow::Assets => "Assets",
        EguiWindow::Inspector => "Inspector",
        EguiWindow::Palette => "Palette",
    }
}

/// Every tab but the game view paints its background, so the scene shows
/// through the game view.
pub fn clear_background(window: EguiWindow) -> (r: bool)
    ensures
        r == !(window is GameView),
{
    match window {
        EguiWindow::GameView => false,
        _ => true,
    }
}

/// A button of the palette: its label and the primitive it spawns.
pub struct PaletteEntry {
    pub label: &'static str,
    pub kind: PrimitiveKind,
}

/// The label of the palette button for `kind`.
pub open spec fn palette_label(kind: PrimitiveKind) -> Seq<char> {
    match kind {
        PrimitiveKind::Cube => "⬛  Cube"@,
        PrimitiveKind::Sphere => "⬤  Sphere"@,
        PrimitiveKind::Plane => "▬  Plane"@,
        PrimitiveKind::Cylinder => "⬤  Cylinder"@,
    }
}

/// The kinds the palette offers, in order.
pub open spec fn palette_kinds() -> Seq<PrimitiveKind> {
    seq![PrimitiveKind::Cube, PrimitiveKind::Sphere, PrimitiveKind::Plane, PrimitiveKind::Cylinder]
}

/// The palette's buttons, top to bottom: one per kind of primitive.
pub fn palette_entries() -> (entries: Vec<PaletteEntry>)
    ensures
        entries@.len() == palette_kinds().len(),
        forall|i: int|
            0 <= i < entries@.len() ==> (#[trigger] entries@[i]).kind == palette_kinds()[i]
                && entries@[i].label@ == palette_label(palette_kinds()[i]),
{
    let entries = vec![
        PaletteEntry { label: "⬛  Cube", kind: PrimitiveKind::Cube },
        PaletteEntry { label: "⬤  Sphere", kind: PrimitiveKind::Sphere },
        PaletteEntry { label: "▬  Plane", kind: PrimitiveKind::Plane },
        PaletteEntry { label: "⬤  Cylinder", kind: PrimitiveKind::Cylinder },
    ];
    assert(entries@[0].kind == palette_kinds()[0]);
    assert(entries@[1].kind == palette_kinds()[1]);
    assert(entries@[2].kind == palette_kinds()[2]);
    assert(entries@[3].kind == palette_kinds()[3]);
    entries
}

/// Each palette button ends with the name of the primitive it spawns.
pub proof fn lemma_palette_label_names_spawn(kind: PrimitiveKind)
    ensures
        palette_label(kind).len() > spawned_name(kind).len(),
        palette_label(kind).subrange(
            palette_label(kind).len() - spawned_name(kind).len(),
            palette_label(kind).len() as int,
        ) == spawned_name(kind),
{
    reveal_strlit("⬛  Cube");
    reveal_strlit("⬤  Sphere");
    reveal_strlit("▬  Plane");
    reveal_strlit("⬤  Cylinder");
    reveal_strlit("Cube");
    reveal_strlit("Sphere");
    reveal_strlit("Plane");
    reveal_strlit("Cylinder");
    let l = palette_label(kind);
    let n = spawned_name(kind);
    assert(l.subrange(l.len() - n.len(), l.len() as int) =~= n);
}

/// The palette offers every kind of primitive exactly once.
pub proof fn lemma_palette_offers_each_kind_once(kind: PrimitiveKind)
    ensures
        palette_kinds().contains(kind),
        palette_kinds().no_duplicates(),
{
    match kind {
        PrimitiveKind::Cube => assert(palette_kinds()[0] == kind),
        PrimitiveKind::Sphere => assert(palette_kinds()[1] == kind),
        PrimitiveKind::Plane => assert(palette_kinds()[2] == kind),
        PrimitiveKind::Cylinder => assert(palette_kinds()[3] == kind),
    }
}

} // verus!
