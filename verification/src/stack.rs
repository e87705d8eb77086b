//! Operations on the window list.
//!
//! The list mirrors the server's stacking order of top-level windows,
//! bottom to top; the compositing pass draws it in that order. Windows are
//! addressed by id; the id value 0 is the protocol's `NONE` sentinel and
//! never names a real window.
use vstd::prelude::*;

use crate::window::Window;

verus! {

/// Whether some record in the list carries this id.
pub open spec fn has_id(s: Seq<Window>, id: u32) -> bool {
    exists|j: int| 0 <= j < s.len() && s[j].id == id
}

/// The index of the first record with this id, if any.
pub open spec fn spec_find(s: Seq<Window>, id: u32) -> Option<int>
    decreases s.len(),
{
    if s.len() == 0 {
        None
    } else if s[0].id == id {
        Some(0)
    } else {
        match spec_find(s.drop_first(), id) {
            Some(i) => Some(i + 1),
            None => None,
        }
    }
}

/// No two records share an id.
pub open spec fn unique_ids(s: Seq<Window>) -> bool {
    forall|k: int, l: int| 0 <= k < l < s.len() ==> s[k].id != s[l].id
}

/// The list with every record of this id taken out, order preserved.
pub open spec fn spec_remove_id(s: Seq<Window>, id: u32) -> Seq<Window>
    decreases s.len(),
{
    if s.len() == 0 {
        Seq::empty()
    } else if s.last().id == id {
        spec_remove_id(s.drop_last(), id)
    } else {
        spec_remove_id(s.drop_last(), id).push(s.last())
    }
}

/// The records of this id that `spec_remove_id` takes out, in list order.
pub open spec fn spec_removed(s: Seq<Window>, id: u32) -> Seq<Window>
    decreases s.len(),
{
    if s.len() == 0 {
        Seq::empty()
    } else if s.last().id == id {
        spec_removed(s.drop_last(), id).push(s.last())
    } else {
        spec_removed(s.drop_last(), id)
    }
}

/// The list after a restack request: the record for `window` is pulled out
/// and re-inserted immediately above the record whose id is `above`; when
/// `above` is the `NONE` sentinel or is not present, the record goes to the
/// top. A request for an unknown `window` leaves the list as it is.
pub open spec fn spec_restack(s: Seq<Window>, window: u32, above: u32) -> Seq<Window> {
    match spec_find(s, window) {
        None => s,
        Some(i) => {
            let w = s[i];
            let rest = s.remove(i);
            if above == 0 {
                rest.push(w)
            } else {
                match spec_find(rest, above) {
                    Some(p) => rest.insert(p + 1, w),
                    None => rest.push(w),
                }
            }
        },
    }
}

/// `spec_find` returns the first index holding the id, and `None` exactly
/// when no record holds it.
pub proof fn lemma_find_is_first(s: Seq<Window>, id: u32)
    ensures
        match spec_find(s, id) {
            None => !has_id(s, id),
            Some(i) => 0 <= i < s.len() && s[i].id == id && (forall|j: int|
                0 <= j < i ==> s[j].id != id),
        },
    decreases s.len(),
{
    if s.len() > 0 {
        lemma_find_is_first(s.drop_first(), id);
        if s[0].id != id {
            match spec_find(s.drop_first(), id) {
                None => {
                    assert forall|j: int| 0 <= j < s.len() implies s[j].id != id by {
                        if j > 0 {
                            assert(s.drop_first()[j - 1] == s[j]);
                        }
                    }
                },
                Some(i) => {
                    assert(s.drop_first()[i] == s[i + 1]);
                    assert forall|j: int| 0 <= j < i + 1 implies s[j].id != id by {
                        if j > 0 {
                            assert(s.drop_first()[j - 1] == s[j]);
                        }
                    }
                },
            }
        }
    }
}

/// A record with the id at index `i`, with none before it, pins
/// `spec_find` down to `Some(i)`.
pub proof fn lemma_find_at(s: Seq<Window>, id: u32, i: int)
    requires
        0 <= i < s.len(),
        s[i].id == id,
        forall|j: int| 0 <= j < i ==> s[j].id != id,
    ensures
        spec_find(s, id) == Some(i),
    decreases i,
{
    if i == 0 {
    } else {
        assert(s[0].id != id);
        assert(s.drop_first()[i - 1] == s[i]);
        assert forall|j: int| 0 <= j < i - 1 implies s.drop_first()[j].id != id by {
            assert(s.drop_first()[j] == s[j + 1]);
        }
        lemma_find_at(s.drop_first(), id, i - 1);
    }
}

/// A record with the id exists exactly when `spec_find` finds one.
pub proof fn lemma_has_id_iff_find(s: Seq<Window>, id: u32)
    ensures
        has_id(s, id) <==> spec_find(s, id) is Some,
{
    lemma_find_is_first(s, id);
    if spec_find(s, id) is Some {
        let i = spec_find(s, id)->Some_0;
        assert(s[i].id == id);
    }
}

/// Removing every record of an id leaves none of it behind.
pub proof fn lemma_remove_id_no_id(s: Seq<Window>, id: u32)
    ensures
        !has_id(spec_remove_id(s, id), id),
    decreases s.len(),
{
    if s.len() > 0 {
        lemma_remove_id_no_id(s.drop_last(), id);
        let rem = spec_remove_id(s, id);
        if s.last().id != id {
            let prev = spec_remove_id(s.drop_last(), id);
            assert forall|j: int| 0 <= j < rem.len() implies rem[j].id != id by {
                if j < rem.len() - 1 {
                    assert(rem[j] == prev[j]);
                }
            }
        }
    }
}

/// Removing an id that no record carries changes nothing.
pub proof fn lemma_remove_id_noop(s: Seq<Window>, id: u32)
    requires
        !has_id(s, id),
    ensures
        spec_remove_id(s, id) == s,
    decreases s.len(),
{
    if s.len() > 0 {
        assert(forall|j: int| 0 <= j < s.drop_last().len() ==> s.drop_last()[j] == s[j]);
        lemma_remove_id_noop(s.drop_last(), id);
        assert(s.last().id != id);
        assert(spec_remove_id(s, id) =~= s);
    }
}

/// When no record carries the id, nothing is taken out.
pub proof fn lemma_removed_empty(s: Seq<Window>, id: u32)
    requires
        !has_id(s, id),
    ensures
        spec_removed(s, id) =~= Seq::<Window>::empty(),
    decreases s.len(),
{
    if s.len() > 0 {
        assert(forall|j: int| 0 <= j < s.drop_last().len() ==> s.drop_last()[j] == s[j]);
        lemma_removed_empty(s.drop_last(), id);
        assert(s.last().id != id);
    }
}

/// Every record that survives the removal already stood in the list.
pub proof fn lemma_remove_id_subset(s: Seq<Window>, id: u32)
    ensures
        forall|j: int|
            0 <= j < spec_remove_id(s, id).len() ==> has_id(
                s,
                #[trigger] spec_remove_id(s, id)[j].id,
            ),
    decreases s.len(),
{
    if s.len() > 0 {
        lemma_remove_id_subset(s.drop_last(), id);
        let rem = spec_remove_id(s, id);
        let prev = spec_remove_id(s.drop_last(), id);
        assert forall|j: int| 0 <= j < rem.len() implies has_id(s, rem[j].id) by {
            if s.last().id != id && j == rem.len() - 1 {
                assert(rem[j] == s.last());
                assert(s[s.len() - 1].id == rem[j].id);
            } else {
                assert(rem[j] == prev[j]);
                assert(has_id(s.drop_last(), prev[j].id));
                let k = choose|k: int|
                    0 <= k < s.drop_last().len() && s.drop_last()[k].id == prev[j].id;
                assert(s[k].id == prev[j].id);
            }
        }
    }
}

/// Appending a record with a fresh id keeps ids unique.
pub proof fn lemma_push_unique(s: Seq<Window>, w: Window)
    requires
        unique_ids(s),
        !has_id(s, w.id),
    ensures
        unique_ids(s.push(w)),
{
    let r = s.push(w);
    assert forall|k: int, l: int| 0 <= k < l < r.len() implies r[k].id != r[l].id by {
        if l == r.len() - 1 {
            assert(r[k] == s[k]);
            assert(s[k].id != w.id);
        } else {
            assert(r[k] == s[k] && r[l] == s[l]);
        }
    }
}

/// Removal keeps ids unique.
pub proof fn lemma_remove_id_unique(s: Seq<Window>, id: u32)
    requires
        unique_ids(s),
    ensures
        unique_ids(spec_remove_id(s, id)),
    decreases s.len(),
{
    if s.len() > 0 {
        assert(forall|j: int| 0 <= j < s.drop_last().len() ==> s.drop_last()[j] == s[j]);
        lemma_remove_id_unique(s.drop_last(), id);
        if s.last().id != id {
            lemma_remove_id_subset(s.drop_last(), id);
            let prev = spec_remove_id(s.drop_last(), id);
            assert forall|j: int| 0 <= j < prev.len() implies prev[j].id != s.last().id by {
                assert(has_id(s.drop_last(), prev[j].id));
                let k = choose|k: int|
                    0 <= k < s.drop_last().len() && s.drop_last()[k].id == prev[j].id;
                assert(s[k].id == prev[j].id);
                assert(s[k].id != s[s.len() - 1].id);
            }
            lemma_push_unique(prev, s.last());
        }
    }
}

/// Taking out the record at one index keeps ids unique, takes its id out
/// entirely (under uniqueness), and invents no record.
pub proof fn lemma_remove_index(s: Seq<Window>, i: int)
    requires
        unique_ids(s),
        0 <= i < s.len(),
    ensures
        unique_ids(s.remove(i)),
        !has_id(s.remove(i), s[i].id),
        forall|j: int| 0 <= j < s.remove(i).len() ==> has_id(s, #[trigger] s.remove(i)[j].id),
{
    s.remove_ensures(i);
    let r = s.remove(i);
    assert forall|k: int, l: int| 0 <= k < l < r.len() implies r[k].id != r[l].id by {
        let k2: int = if k < i {
            k
        } else {
            k + 1
        };
        let l2: int = if l < i {
            l
        } else {
            l + 1
        };
        assert(r[k] == s[k2] && r[l] == s[l2]);
    }
    assert forall|j: int| 0 <= j < r.len() implies r[j].id != s[i].id by {
        let j2: int = if j < i {
            j
        } else {
            j + 1
        };
        assert(r[j] == s[j2]);
    }
    assert forall|j: int| 0 <= j < r.len() implies has_id(s, r[j].id) by {
        let j2: int = if j < i {
            j
        } else {
            j + 1
        };
        assert(r[j] == s[j2]);
        assert(s[j2].id == r[j].id);
    }
}

/// Inserting a record with a fresh id keeps ids unique.
pub proof fn lemma_insert_unique(s: Seq<Window>, w: Window, p: int)
    requires
        unique_ids(s),
        !has_id(s, w.id),
        0 <= p <= s.len(),
    ensures
        unique_ids(s.insert(p, w)),
{
    s.insert_ensures(p, w);
    let r = s.insert(p, w);
    assert forall|k: int, l: int| 0 <= k < l < r.len() implies r[k].id != r[l].id by {
        if k == p {
            assert(r[k] == w);
            assert(r[l] == s[l - 1]);
            assert(s[l - 1].id != w.id);
        } else if l == p {
            assert(r[l] == w);
            assert(r[k] == s[k]);
            assert(s[k].id != w.id);
        } else {
            let k2: int = if k < p {
                k
            } else {
                k - 1
            };
            let l2: int = if l < p {
                l
            } else {
                l - 1
            };
            assert(r[k] == s[k2] && r[l] == s[l2]);
        }
    }
}

/// Overwriting a record with one of the same id keeps ids unique.
pub proof fn lemma_update_same_id_unique(s: Seq<Window>, i: int, w: Window)
    requires
        unique_ids(s),
        0 <= i < s.len(),
        w.id == s[i].id,
    ensures
        unique_ids(s.update(i, w)),
{
    let r = s.update(i, w);
    assert forall|k: int, l: int| 0 <= k < l < r.len() implies r[k].id != r[l].id by {
        assert(r[k].id == s[k].id && r[l].id == s[l].id);
    }
}

/// Restacking keeps ids unique: it moves one record without copying it.
pub proof fn lemma_restack_unique(s: Seq<Window>, window: u32, above: u32)
    requires
        unique_ids(s),
    ensures
        unique_ids(spec_restack(s, window, above)),
{
    lemma_find_is_first(s, window);
    match spec_find(s, window) {
        None => {},
        Some(i) => {
            let w = s[i];
            let rest = s.remove(i);
            lemma_remove_index(s, i);
            if above == 0 {
                lemma_push_unique(rest, w);
            } else {
                lemma_find_is_first(rest, above);
                match spec_find(rest, above) {
                    Some(p) => {
                        lemma_insert_unique(rest, w, p + 1);
                    },
                    None => {
                        lemma_push_unique(rest, w);
                    },
                }
            }
        },
    }
}

/// Updating one record in place does not move the first occurrence of its
/// id.
pub proof fn lemma_find_update_same(s: Seq<Window>, id: u32, w: Window)
    requires
        spec_find(s, id) is Some,
        w.id == id,
    ensures
        spec_find(s.update(spec_find(s, id)->Some_0, w), id) == spec_find(s, id),
{
    let i = spec_find(s, id)->Some_0;
    lemma_find_is_first(s, id);
    let r = s.update(i, w);
    assert(r[i].id == id);
    assert forall|j: int| 0 <= j < i implies r[j].id != id by {
        assert(r[j] == s[j]);
    }
    lemma_find_at(r, id, i);
}

/// Finds the first record with this id, scanning from the bottom.
pub fn find_window(list: &Vec<Window>, id: u32) -> (r: Option<usize>)
    ensures
        match r {
            Some(i) => i < list@.len() && list@[i as int].id == id && spec_find(list@, id)
                == Some(i as int),
            None => spec_find(list@, id) is None,
        },
{
    let n = list.len();
    for i in 0..n
        invariant
            n == list@.len(),
            forall|j: int| 0 <= j < i ==> list@[j].id != id,
    {
        if list[i].id == id {
            proof {
                lemma_find_at(list@, id, i as int);
            }
            return Some(i);
        }
    }
    proof {
        lemma_find_is_first(list@, id);
        if spec_find(list@, id) is Some {
            let i = spec_find(list@, id)->Some_0;
            assert(list@[i].id == id);
        }
    }
    None
}

/// Takes every record with this id out of the list and hands them back,
/// in list order, so the caller can release their resources exactly once.
pub fn remove_window(list: &mut Vec<Window>, id: u32) -> (removed: Vec<Window>)
    ensures
        final(list)@ == spec_remove_id(old(list)@, id),
        removed@ == spec_removed(old(list)@, id),
{
    let mut kept: Vec<Window> = Vec::new();
    let mut removed: Vec<Window> = Vec::new();
    let n = list.len();
    for i in 0..n
        invariant
            n == list@.len(),
            list@ == old(list)@,
            kept@ == spec_remove_id(list@.take(i as int), id),
            removed@ == spec_removed(list@.take(i as int), id),
    {
        proof {
            assert(list@.take(i + 1).drop_last() =~= list@.take(i as int));
            assert(list@.take(i + 1).last() == list@[i as int]);
        }
        let w = list[i];
        if w.id != id {
            kept.push(w);
        } else {
            removed.push(w);
        }
    }
    proof {
        assert(list@.take(n as int) =~= list@);
    }
    *list = kept;
    removed
}

/// Moves the record for `window` immediately above the record for `above`,
/// or to the top of the stack when `above` is the `NONE` sentinel or names
/// no record. Unknown `window` ids leave the list untouched.
pub fn restack_window(window: u32, above: u32, list: &mut Vec<Window>)
    ensures
        final(list)@ == spec_restack(old(list)@, window, above),
{
    if let Some(i) = find_window(list, window) {
        let win = list.remove(i);
        if above != 0 {
            if let Some(pos) = find_window(list, above) {
                let n = list.len();
                assert(pos < n);
                list.insert(pos + 1, win);
            } else {
                list.push(win);
            }
        } else {
            list.push(win);
        }
    }
}

} // verus!
