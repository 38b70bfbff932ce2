use bevy::ecs::entity::Entity;
use bevy_inspector_egui::bevy_inspector::hierarchy::SelectedEntities;
use vstd::prelude::*;

verus! {

#[verifier::external_type_specification]
#[verifier::external_body]
pub struct ExSelectedEntities(SelectedEntities);

/// What a `SelectedEntities` holds: its entities in order, each given by the
/// bits that `Entity::to_bits` returns for it.
pub uninterp spec fn selected_bits(s: SelectedEntities) -> Seq<u64>;

/// `Entity::from_bits` accepts exactly the bits whose low 32 bits are not zero
/// (the entity index is stored as a non-zero `u32`); the generation takes the
/// high 32 bits unchanged, and `to_bits` gives the same bits back.
pub open spec fn is_entity_bits(bits: u64) -> bool {
    bits % 0x1_0000_0000 != 0
}

/// `s` with the first occurrence of `e` taken out (`s` itself when `e` does not occur).
pub open spec fn remove_first(s: Seq<u64>, e: u64) -> Seq<u64>
    decreases s.len(),
{
    if s.len() == 0 {
        s
    } else if s[0] == e {
        s.drop_first()
    } else {
        seq![s[0]] + remove_first(s.drop_first(), e)
    }
}

/// The selection after `select_maybe_add(e, add)`: an empty selection takes `e`;
/// without `add` the selection becomes `e` alone; with `add` the entity is
/// toggled: taken out where it is selected, put last where it is not.
pub open spec fn after_select_maybe_add(s: Seq<u64>, e: u64, add: bool) -> Seq<u64> {
    if s.len() == 0 || !add {
        seq![e]
    } else if s.contains(e) {
        remove_first(s, e)
    } else {
        s.push(e)
    }
}

/// `SelectedEntities::default()`: a selection that holds no entity.
#[verifier::external_body]
pub(crate) fn selection_new() -> (s: SelectedEntities)
    ensures
        selected_bits(s) == Seq::<u64>::empty(),
{
    SelectedEntities::default()
}

/// `SelectedEntities::select_replace`: the selection becomes the one entity.
/// Not stated: the selection's record of its last action, which only the
/// shift-extend mode of the hierarchy panel reads.
#[verifier::external_body]
pub(crate) fn selection_replace(s: &mut SelectedEntities, bits: u64)
    requires
        is_entity_bits(bits),
    ensures
        selected_bits(*final(s)) == seq![bits],
{
    s.select_replace(Entity::from_bits(bits))
}

/// `SelectedEntities::select_maybe_add`, as `after_select_maybe_add` states it.
/// Not stated: the selection's record of its last action.
#[verifier::external_body]
pub(crate) fn selection_maybe_add(s: &mut SelectedEntities, bits: u64, add: bool)
    requires
        is_entity_bits(bits),
    ensures
        selected_bits(*final(s)) == after_select_maybe_add(selected_bits(*old(s)), bits, add),
{
    s.select_maybe_add(Entity::from_bits(bits), add)
}

/// `SelectedEntities::clear`: no entity stays selected.
/// Not stated: the record of the last action, which `clear` leaves as it was.
#[verifier::external_body]
pub(crate) fn selection_clear(s: &mut SelectedEntities)
    ensures
        selected_bits(*final(s)) == Seq::<u64>::empty(),
{
    s.clear()
}

/// `SelectedEntities::as_slice`, each entity handed out as its `Entity::to_bits`.
#[verifier::external_body]
pub(crate) fn selection_bits(s: &SelectedEntities) -> (v: Vec<u64>)
    ensures
        v@ == selected_bits(*s),
{
    s.as_slice().iter().map(|e| e.to_bits()).collect()
}

/// Taking out the first `e` keeps the rest in order: what remains is a
/// subsequence of `s`, one shorter when `e` occurs.
pub proof fn lemma_remove_first(s: Seq<u64>, e: u64)
    ensures
        s.contains(e) ==> remove_first(s, e).len() == s.len() - 1,
        !s.contains(e) ==> remove_first(s, e) == s,
        forall|x: u64| #[trigger] remove_first(s, e).contains(x) ==> s.contains(x),
        forall|x: u64| x != e && s.contains(x) ==> #[trigger] remove_first(s, e).contains(x),
        s.no_duplicates() ==> remove_first(s, e).no_duplicates(),
        s.no_duplicates() ==> !remove_first(s, e).contains(e),
    decreases s.len(),
{
    if s.len() == 0 {
    } else if s[0] == e {
        assert(forall|x: u64| #[trigger] s.drop_first().contains(x) ==> s.contains(x)) by {
            assert forall|x: u64| #[trigger] s.drop_first().contains(x) implies s.contains(x) by {
                let k = choose|k: int| 0 <= k < s.drop_first().len() && s.drop_first()[k] == x;
                assert(s[k + 1] == x);
            }
        }
        assert forall|x: u64| x != e && s.contains(x) implies #[trigger] s.drop_first().contains(x) by {
            let k = choose|k: int| 0 <= k < s.len() && s[k] == x;
            assert(k != 0);
            assert(s.drop_first()[k - 1] == x);
        }
        if s.no_duplicates() {
            assert(!s.drop_first().contains(e)) by {
                if s.drop_first().contains(e) {
                    let k = choose|k: int| 0 <= k < s.drop_first().len() && s.drop_first()[k] == e;
                    assert(s[k + 1] == s[0]);
                }
            }
        }
    } else {
        let t = s.drop_first();
        lemma_remove_first(t, e);
        let r = remove_first(t, e);
        assert(remove_first(s, e) == seq![s[0]] + r);
        if !s.contains(e) {
            assert(!t.contains(e)) by {
                if t.contains(e) {
                    let k = choose|k: int| 0 <= k < t.len() && t[k] == e;
                    assert(s[k + 1] == e);
                }
            }
            assert(seq![s[0]] + t =~= s);
        }
        if s.contains(e) {
            let k = choose|k: int| 0 <= k < s.len() && s[k] == e;
            assert(k != 0);
            assert(t[k - 1] == e);
        }
        assert forall|x: u64| #[trigger] (seq![s[0]] + r).contains(x) implies s.contains(x) by {
            let k = choose|k: int| 0 <= k < (seq![s[0]] + r).len() && (seq![s[0]] + r)[k] == x;
            if k == 0 {
                assert(s[0] == x);
            } else {
                assert(r[k - 1] == x);
                assert(r.contains(x));
                let m = choose|m: int| 0 <= m < t.len() && t[m] == x;
                assert(s[m + 1] == x);
            }
        }
        assert forall|x: u64| x != e && s.contains(x) implies #[trigger] (seq![s[0]] + r).contains(
            x,
        ) by {
            let k = choose|k: int| 0 <= k < s.len() && s[k] == x;
            if k == 0 {
                assert((seq![s[0]] + r)[0] == x);
            } else {
                assert(t[k - 1] == x);
                assert(r.contains(x));
                let m = choose|m: int| 0 <= m < r.len() && r[m] == x;
                assert((seq![s[0]] + r)[m + 1] == x);
            }
        }
        if s.no_duplicates() {
            assert(t.no_duplicates()) by {
                assert forall|i: int, j: int| 0 <= i < t.len() && 0 <= j < t.len() && i != j implies t[i]
                    != t[j] by {
                    assert(s[i + 1] == t[i] && s[j + 1] == t[j]);
                }
            }
            assert(!r.contains(s[0])) by {
                if r.contains(s[0]) {
                    let m = choose|m: int| 0 <= m < t.len() && t[m] == s[0];
                    assert(s[m + 1] == s[0]);
                }
            }
            let q = seq![s[0]] + r;
            assert forall|i: int, j: int| 0 <= i < q.len() && 0 <= j < q.len() && i != j implies q[i]
                != q[j] by {
                if i == 0 {
                    assert(q[j] == r[j - 1]);
                } else if j == 0 {
                    assert(q[i] == r[i - 1]);
                } else {
                    assert(q[i] == r[i - 1] && q[j] == r[j - 1]);
                }
            }
            assert(!q.contains(e)) by {
                if q.contains(e) {
                    let m = choose|m: int| 0 <= m < q.len() && q[m] == e;
                    if m == 0 {
                    } else {
                        assert(r[m - 1] == e);
                    }
                }
            }
        }
    }
}

} // verus!
