//! Lending host bindings to a script function call: exposing them to the
//! script before the call, and writing the script's changes back afterwards.
//!
//! A lent script value is moved into a cell of the shared store; the script
//! sees a variable holding a handle to that cell. When the call returns, the
//! cell's content goes back to the host and the cell is marked expired, so
//! that closures which captured the handle can no longer reach the host value.

use crate::dynamic::Dynamic;
use crate::func_args::{BorrowedScopeEntry, BorrowedScopeValue};
use crate::scope::Scope;
use crate::state::ActiveBorrowedValue;
use vstd::prelude::*;

verus! {

/// The number of bindings in `entries` that lend script values.
pub open spec fn count_dynamic<'a>(entries: Seq<BorrowedScopeEntry<'a>>) -> nat
    decreases entries.len(),
{
    if entries.len() == 0 {
        0
    } else {
        count_dynamic(entries.drop_last()) + if entries.last().value is Dynamic {
            1nat
        } else {
            0nat
        }
    }
}

/// What lending bindings builds up: the scope, the shared store, the active
/// bindings the script sees, and the handles of the lent script values.
pub struct BindState {
    pub scope: Seq<(String, Dynamic)>,
    pub shared: Seq<Dynamic>,
    pub active: Seq<(String, ActiveBorrowedValue)>,
    pub handles: Seq<Dynamic>,
}

/// Moving a value into the shared store: a value that is already a handle
/// stays as it is; any other value gets a new cell at the end of the store.
pub open spec fn into_shared_spec(v: Dynamic, shared: Seq<Dynamic>) -> (Dynamic, Seq<Dynamic>) {
    match v {
        Dynamic::Shared(_) => (v, shared),
        _ => (Dynamic::Shared(shared.len() as usize), shared.push(v)),
    }
}

/// The position of the active binding named `name`, if any.
pub open spec fn active_index(active: Seq<(String, ActiveBorrowedValue)>, name: Seq<char>) -> Option<int>
    decreases active.len(),
{
    if active.len() == 0 {
        None
    } else if active.last().0@ == name {
        Some(active.len() - 1)
    } else {
        active_index(active.drop_last(), name)
    }
}

/// Making `name` active with the value `v`: as in a map, a binding already
/// active under that name takes the new value in its place; otherwise the
/// binding is added at the end.
pub open spec fn active_insert(
    active: Seq<(String, ActiveBorrowedValue)>,
    name: String,
    v: ActiveBorrowedValue,
) -> Seq<(String, ActiveBorrowedValue)> {
    match active_index(active, name@) {
        Some(i) => active.update(i, (name, v)),
        None => active.push((name, v)),
    }
}

/// A found position is a position of `active`, holding that name.
pub proof fn lemma_active_index_found(active: Seq<(String, ActiveBorrowedValue)>, name: Seq<char>)
    ensures
        active_index(active, name) matches Some(i) ==> 0 <= i < active.len() && active[i].0@ == name,
        active_index(active, name) is None ==> forall|j: int| 0 <= j < active.len() ==> (#[trigger] active[j]).0@ != name,
    decreases active.len(),
{
    if active.len() > 0 {
        let prefix = active.drop_last();
        lemma_active_index_found(prefix, name);
        if active.last().0@ != name {
            if let Some(i) = active_index(prefix, name) {
                assert(prefix[i] == active[i]);
            } else {
                assert forall|j: int| 0 <= j < active.len() implies (#[trigger] active[j]).0@ != name by {
                    if j < prefix.len() {
                        assert(prefix[j] == active[j]);
                    }
                }
            }
        }
    }
}

/// No two active bindings share a name.
pub open spec fn active_names_unique(active: Seq<(String, ActiveBorrowedValue)>) -> bool {
    forall|i: int, j: int| 0 <= i < j < active.len() ==> (#[trigger] active[i]).0@ != (#[trigger] active[j]).0@
}

/// Making a binding active keeps the names unique, and the binding is then
/// found under its name with the new value.
pub proof fn lemma_active_insert(
    active: Seq<(String, ActiveBorrowedValue)>,
    name: String,
    v: ActiveBorrowedValue,
)
    requires
        active_names_unique(active),
    ensures
        active_names_unique(active_insert(active, name, v)),
        active_index(active_insert(active, name, v), name@) matches Some(i)
            && active_insert(active, name, v)[i] == (name, v),
        active.len() <= active_insert(active, name, v).len() <= active.len() + 1,
{
    lemma_active_index_found(active, name@);
    let r = active_insert(active, name, v);
    lemma_active_index_found(r, name@);
    match active_index(active, name@) {
        Some(k) => {
            assert forall|i: int, j: int| 0 <= i < j < r.len() implies (#[trigger] r[i]).0@ != (#[trigger] r[j]).0@ by {
                assert(active[i].0@ != active[j].0@);
            }
            assert(r[k] == (name, v));
            if let Some(m) = active_index(r, name@) {
                if m != k {
                    assert(r[m] == active[m]);
                    if m < k {
                        assert(active[m].0@ != active[k].0@);
                    } else {
                        assert(active[k].0@ != active[m].0@);
                    }
                }
                assert(m == k);
            } else {
                assert(r[k].0@ != name@);
            }
        },
        None => {
            assert forall|i: int, j: int| 0 <= i < j < r.len() implies (#[trigger] r[i]).0@ != (#[trigger] r[j]).0@ by {
                if j < active.len() {
                    assert(active[i].0@ != active[j].0@);
                } else {
                    assert(r[i] == active[i]);
                }
            }
            assert(r.last().0@ == name@);
            assert(r.drop_last() =~= active);
            assert(active_index(r, name@) == Some(active.len() as int));
        },
    }
}

/// Lending one binding whose script value (for a `Dynamic` binding) is `value`.
pub open spec fn bind_step<'a>(st: BindState, e: BorrowedScopeEntry<'a>) -> BindState {
    match e.value {
        BorrowedScopeValue::Dynamic(r) => {
            let (h, sh) = into_shared_spec(*r, st.shared);
            BindState {
                scope: st.scope.push((e.name, h)),
                shared: sh,
                active: active_insert(st.active, e.name, ActiveBorrowedValue::Dynamic(h)),
                handles: st.handles.push(h),
            }
        },
        BorrowedScopeValue::Opaque(p) => BindState {
            active: active_insert(st.active, e.name, ActiveBorrowedValue::Opaque(p)),
            ..st
        },
    }
}

/// Lending all of `entries`, in order.
pub open spec fn bind_all<'a>(entries: Seq<BorrowedScopeEntry<'a>>, st: BindState) -> BindState
    decreases entries.len(),
{
    if entries.len() == 0 {
        st
    } else {
        bind_step(bind_all(entries.drop_last(), st), entries.last())
    }
}

/// The value behind `v`: a handle is followed through the store, from cell
/// to cell, until a value that is not a handle is reached. A handle that leads
/// to no cell, or that is still a handle after `fuel` steps (a cycle of
/// handles), stands for `()`.
pub open spec fn flatten(shared: Seq<Dynamic>, v: Dynamic, fuel: nat) -> Dynamic
    decreases fuel,
{
    match v {
        Dynamic::Shared(id) => if fuel > 0 && id < shared.len() {
            flatten(shared, shared[id as int], (fuel - 1) as nat)
        } else {
            Dynamic::Unit
        },
        _ => v,
    }
}

/// The value behind the handle `h`, read through any nested handles: as many
/// steps as the store has cells reach the end of any chain without a cycle.
pub open spec fn read_cell(shared: Seq<Dynamic>, h: Dynamic) -> Dynamic {
    flatten(shared, h, shared.len())
}

/// The value behind a handle is never a handle.
pub proof fn lemma_flatten_plain(shared: Seq<Dynamic>, v: Dynamic, fuel: nat)
    ensures
        !(flatten(shared, v, fuel) is Shared),
    decreases fuel,
{
    match v {
        Dynamic::Shared(id) => if fuel > 0 && id < shared.len() {
            lemma_flatten_plain(shared, shared[id as int], (fuel - 1) as nat);
        },
        _ => {},
    }
}

/// The store with the cell `h` refers to (if any) marked as the expired binding `name`.
pub open spec fn expire_cell(shared: Seq<Dynamic>, h: Dynamic, name: String) -> Seq<Dynamic> {
    match h {
        Dynamic::Shared(id) => if id < shared.len() {
            shared.update(id as int, Dynamic::ExpiredBinding(name))
        } else {
            shared
        },
        _ => shared,
    }
}

/// Writing back all of `entries` in order, the `k`-th lent script value
/// through `handles[k]`: the values that go back to the host, and the store
/// afterwards.
pub open spec fn write_back_all<'a>(
    entries: Seq<BorrowedScopeEntry<'a>>,
    handles: Seq<Dynamic>,
    shared: Seq<Dynamic>,
) -> (Seq<Dynamic>, Seq<Dynamic>)
    decreases entries.len(),
{
    if entries.len() == 0 {
        (Seq::empty(), shared)
    } else {
        let (vals, st) = write_back_all(entries.drop_last(), handles, shared);
        let e = entries.last();
        if e.value is Dynamic {
            let h = handles[vals.len() as int];
            (vals.push(read_cell(st, h)), expire_cell(st, h, e.name))
        } else {
            (vals, st)
        }
    }
}

/// The bindings `after` are the bindings `before` with the same names and
/// kinds, and the same opaque values.
pub open spec fn same_bindings<'a>(
    before: Seq<BorrowedScopeEntry<'a>>,
    after: Seq<BorrowedScopeEntry<'a>>,
) -> bool {
    &&& after.len() == before.len()
    &&& forall|i: int| 0 <= i < before.len() ==> (#[trigger] after[i]).name == before[i].name
    &&& forall|i: int|
        0 <= i < before.len() && (#[trigger] before[i]).value is Opaque ==> after[i].value
            == before[i].value
    &&& forall|i: int|
        0 <= i < before.len() && (#[trigger] before[i]).value is Dynamic ==> after[i].value is Dynamic
}

/// The number of lent script values never exceeds the number of bindings.
proof fn lemma_count_dynamic_bound<'a>(entries: Seq<BorrowedScopeEntry<'a>>)
    ensures
        count_dynamic(entries) <= entries.len(),
    decreases entries.len(),
{
    if entries.len() > 0 {
        lemma_count_dynamic_bound(entries.drop_last());
    }
}

/// Counting over one more binding.
proof fn lemma_count_dynamic_step<'a>(entries: Seq<BorrowedScopeEntry<'a>>, i: int)
    requires
        0 <= i < entries.len(),
    ensures
        count_dynamic(entries.subrange(0, i + 1)) == count_dynamic(entries.subrange(0, i)) + if entries[i].value is Dynamic {
            1nat
        } else {
            0nat
        },
{
    assert(entries.subrange(0, i + 1).drop_last() =~= entries.subrange(0, i));
}

/// Counting over a prefix never exceeds counting over the whole.
proof fn lemma_count_dynamic_mono<'a>(entries: Seq<BorrowedScopeEntry<'a>>, i: int)
    requires
        0 <= i <= entries.len(),
    ensures
        count_dynamic(entries.subrange(0, i)) <= count_dynamic(entries),
    decreases entries.len() - i,
{
    if i < entries.len() {
        lemma_count_dynamic_step(entries, i);
        lemma_count_dynamic_mono(entries, i + 1);
    } else {
        assert(entries.subrange(0, i) =~= entries);
    }
}

/// Counting over a shorter prefix gives no more; strictly less when a lent
/// script value sits between the two ends.
pub(crate) proof fn lemma_count_prefix_mono<'a>(entries: Seq<BorrowedScopeEntry<'a>>, j: int, i: int)
    requires
        0 <= j <= i <= entries.len(),
    ensures
        count_dynamic(entries.subrange(0, j)) <= count_dynamic(entries.subrange(0, i)),
        j < i && entries[j].value is Dynamic ==> count_dynamic(entries.subrange(0, j)) < count_dynamic(
            entries.subrange(0, i),
        ),
    decreases i - j,
{
    if j < i {
        lemma_count_dynamic_step(entries, i - 1);
        lemma_count_prefix_mono(entries, j, i - 1);
    }
}

/// Lending adds one handle per lent script value.
pub(crate) proof fn lemma_bind_handles_len<'a>(entries: Seq<BorrowedScopeEntry<'a>>, st: BindState)
    ensures
        bind_all(entries, st).handles.len() == st.handles.len() + count_dynamic(entries),
        bind_all(entries, st).scope.len() == st.scope.len() + count_dynamic(entries),
    decreases entries.len(),
{
    if entries.len() > 0 {
        lemma_bind_handles_len(entries.drop_last(), st);
    }
}

/// Lending only adds variables after the ones already in the scope.
pub(crate) proof fn lemma_bind_scope_prefix<'a>(entries: Seq<BorrowedScopeEntry<'a>>, st: BindState)
    ensures
        bind_all(entries, st).scope.len() >= st.scope.len(),
        bind_all(entries, st).scope.subrange(0, st.scope.len() as int) == st.scope,
    decreases entries.len(),
{
    if entries.len() > 0 {
        lemma_bind_scope_prefix(entries.drop_last(), st);
        let prev = bind_all(entries.drop_last(), st);
        assert(bind_all(entries, st).scope.subrange(0, st.scope.len() as int) =~= prev.scope.subrange(
            0,
            st.scope.len() as int,
        ));
    } else {
        assert(st.scope.subrange(0, st.scope.len() as int) =~= st.scope);
    }
}

/// Lending makes each binding active under its name, the names staying unique:
/// at most one new active binding per binding, and at least one in all when
/// anything is lent.
pub(crate) proof fn lemma_bind_active_len<'a>(entries: Seq<BorrowedScopeEntry<'a>>, st: BindState)
    requires
        active_names_unique(st.active),
    ensures
        active_names_unique(bind_all(entries, st).active),
        st.active.len() <= bind_all(entries, st).active.len() <= st.active.len() + entries.len(),
        entries.len() > 0 ==> bind_all(entries, st).active.len() > 0,
        entries.len() >= count_dynamic(entries),
    decreases entries.len(),
{
    if entries.len() > 0 {
        lemma_bind_active_len(entries.drop_last(), st);
        let prev = bind_all(entries.drop_last(), st);
        let e = entries.last();
        match e.value {
            BorrowedScopeValue::Dynamic(r) => {
                let (h, sh) = into_shared_spec(*r, prev.shared);
                lemma_active_insert(prev.active, e.name, ActiveBorrowedValue::Dynamic(h));
            },
            BorrowedScopeValue::Opaque(p) => {
                lemma_active_insert(prev.active, e.name, ActiveBorrowedValue::Opaque(p));
            },
        }
    }
}

/// Making a binding active leaves every other active name active.
proof fn lemma_active_insert_keeps(
    active: Seq<(String, ActiveBorrowedValue)>,
    name: String,
    v: ActiveBorrowedValue,
    n: Seq<char>,
)
    requires
        active_index(active, n) is Some,
    ensures
        active_index(active_insert(active, name, v), n) is Some,
{
    let r = active_insert(active, name, v);
    lemma_active_index_found(active, n);
    lemma_active_index_found(active, name@);
    lemma_active_index_found(r, n);
    let k = active_index(active, n)->Some_0;
    if active_index(r, n) is None {
        match active_index(active, name@) {
            Some(m) => {
                if m == k {
                    assert(r[k].0@ == name@);
                } else {
                    assert(r[k] == active[k]);
                }
            },
            None => {
                assert(r[k] == active[k]);
            },
        }
    }
}

/// While a call runs, the names it lent are each active exactly once: no two
/// active bindings share a name, and every lent binding's name is found among
/// them (holding the value of the last binding lent under that name).
pub proof fn lemma_lent_names_active_once<'a>(entries: Seq<BorrowedScopeEntry<'a>>, st: BindState)
    requires
        active_names_unique(st.active),
    ensures
        active_names_unique(bind_all(entries, st).active),
        forall|i: int| 0 <= i < entries.len() ==> active_index(bind_all(entries, st).active, (#[trigger] entries[i]).name@) is Some,
    decreases entries.len(),
{
    lemma_bind_active_len(entries, st);
    if entries.len() > 0 {
        let prefix = entries.drop_last();
        lemma_lent_names_active_once(prefix, st);
        let prev = bind_all(prefix, st);
        let e = entries.last();
        let v = match e.value {
            BorrowedScopeValue::Dynamic(r) => ActiveBorrowedValue::Dynamic(into_shared_spec(*r, prev.shared).0),
            BorrowedScopeValue::Opaque(p) => ActiveBorrowedValue::Opaque(p),
        };
        assert(bind_all(entries, st).active == active_insert(prev.active, e.name, v));
        lemma_active_insert(prev.active, e.name, v);
        assert forall|i: int| 0 <= i < entries.len() implies active_index(bind_all(entries, st).active, (#[trigger] entries[i]).name@) is Some by {
            if i < prefix.len() {
                assert(prefix[i] == entries[i]);
                lemma_active_insert_keeps(prev.active, e.name, v, entries[i].name@);
            }
        }
    }
}

/// Each position of `active_insert(active, name, v)` holds the new binding or
/// what `active` held there.
proof fn lemma_active_insert_shape(
    active: Seq<(String, ActiveBorrowedValue)>,
    name: String,
    v: ActiveBorrowedValue,
)
    ensures
        forall|k: int|
            0 <= k < active_insert(active, name, v).len() ==> #[trigger] active_insert(active, name, v)[k]
                == (name, v) || (k < active.len() && active_insert(active, name, v)[k] == active[k]),
{
    lemma_active_index_found(active, name@);
}

/// The lending invariant: from `st0` (nothing lent yet), the scope grows by one
/// variable per lent script value holding that value's handle, and every
/// active script binding holds the handle of a variable added under its name.
pub open spec fn shares_handles(st0: BindState, st: BindState) -> bool {
    &&& st.scope.len() == st0.scope.len() + st.handles.len()
    &&& forall|c: int| 0 <= c < st.handles.len() ==> (#[trigger] st.scope[st0.scope.len() + c]).1 == st.handles[c]
    &&& forall|k: int|
        0 <= k < st.active.len() && (#[trigger] st.active[k]).1 is Dynamic ==> exists|c: int|
            0 <= c < st.handles.len() && st.active[k].1 == ActiveBorrowedValue::Dynamic(
                #[trigger] st.handles[c],
            ) && st.scope[st0.scope.len() + c].0@ == st.active[k].0@
}

proof fn lemma_bind_shares_handles<'a>(entries: Seq<BorrowedScopeEntry<'a>>, st0: BindState)
    requires
        st0.handles.len() == 0,
        st0.active.len() == 0,
    ensures
        shares_handles(st0, bind_all(entries, st0)),
    decreases entries.len(),
{
    if entries.len() > 0 {
        let prefix = entries.drop_last();
        lemma_bind_shares_handles(prefix, st0);
        let prev = bind_all(prefix, st0);
        let st = bind_all(entries, st0);
        let e = entries.last();
        let base = st0.scope.len();
        match e.value {
            BorrowedScopeValue::Dynamic(r) => {
                let h = into_shared_spec(*r, prev.shared).0;
                let v = ActiveBorrowedValue::Dynamic(h);
                lemma_active_insert_shape(prev.active, e.name, v);
                assert(st.scope == prev.scope.push((e.name, h)));
                assert(st.handles == prev.handles.push(h));
                assert(st.active == active_insert(prev.active, e.name, v));
                assert forall|c: int| 0 <= c < st.handles.len() implies (#[trigger] st.scope[base + c]).1 == st.handles[c] by {
                    if c < prev.handles.len() {
                        assert(st.scope[base + c] == prev.scope[base + c]);
                    }
                }
                assert forall|k: int|
                    0 <= k < st.active.len() && (#[trigger] st.active[k]).1 is Dynamic implies exists|c: int|
                        0 <= c < st.handles.len() && st.active[k].1 == ActiveBorrowedValue::Dynamic(
                            #[trigger] st.handles[c],
                        ) && st.scope[base + c].0@ == st.active[k].0@ by {
                    if st.active[k] == (e.name, v) {
                        let c = prev.handles.len() as int;
                        assert(st.handles[c] == h);
                        assert(st.scope[base + c] == (e.name, h));
                    } else {
                        assert(st.active[k] == prev.active[k]);
                        let c = choose|c: int|
                            0 <= c < prev.handles.len() && prev.active[k].1 == ActiveBorrowedValue::Dynamic(
                                #[trigger] prev.handles[c],
                            ) && prev.scope[base + c].0@ == prev.active[k].0@;
                        assert(st.handles[c] == prev.handles[c]);
                        assert(st.scope[base + c] == prev.scope[base + c]);
                    }
                }
            },
            BorrowedScopeValue::Opaque(p) => {
                let v = ActiveBorrowedValue::Opaque(p);
                lemma_active_insert_shape(prev.active, e.name, v);
                assert(st.active == active_insert(prev.active, e.name, v));
                assert forall|k: int|
                    0 <= k < st.active.len() && (#[trigger] st.active[k]).1 is Dynamic implies exists|c: int|
                        0 <= c < st.handles.len() && st.active[k].1 == ActiveBorrowedValue::Dynamic(
                            #[trigger] st.handles[c],
                        ) && st.scope[base + c].0@ == st.active[k].0@ by {
                    assert(st.active[k] == prev.active[k]);
                }
            },
        }
    }
}

/// Lending shares each script value between the scope and the active bindings:
/// the script values lent become, in order, the variables added after the
/// caller's scope, each holding the handle of its cell; and every active binding
/// of a script value holds the handle of a variable added under its name, so a
/// native function that works through the active binding reaches the same
/// cell as the script variable.
pub proof fn lemma_lent_values_share_handles<'a>(
    entries: Seq<BorrowedScopeEntry<'a>>,
    scope: Seq<(String, Dynamic)>,
    shared: Seq<Dynamic>,
)
    ensures
        ({
            let st = bind_all(entries, BindState { scope, shared, active: Seq::empty(), handles: Seq::empty() });
            &&& st.scope.len() == scope.len() + st.handles.len()
            &&& forall|c: int| 0 <= c < st.handles.len() ==> (#[trigger] st.scope[scope.len() + c]).1 == st.handles[c]
            &&& forall|k: int|
                0 <= k < st.active.len() && (#[trigger] st.active[k]).1 is Dynamic ==> exists|c: int|
                    0 <= c < st.handles.len() && st.active[k].1 == ActiveBorrowedValue::Dynamic(
                        #[trigger] st.handles[c],
                    ) && st.scope[scope.len() + c].0@ == st.active[k].0@
        }),
{
    lemma_bind_shares_handles(entries, BindState { scope, shared, active: Seq::empty(), handles: Seq::empty() });
}

/// Make `name` active with the value `v` (see [`active_insert`]).
fn insert_active(active: &mut Vec<(String, ActiveBorrowedValue)>, name: String, v: ActiveBorrowedValue)
    ensures
        final(active)@ == active_insert(old(active)@, name, v),
{
    let mut i: usize = active.len();
    assert(active@.subrange(0, i as int) =~= active@);
    while i > 0
        invariant
            i <= active@.len(),
            active@ == old(active)@,
            active_index(active@, name@) == active_index(active@.subrange(0, i as int), name@),
        decreases i,
    {
        let ghost prefix = active@.subrange(0, i as int);
        assert(prefix.drop_last() =~= active@.subrange(0, i - 1));
        if active[i - 1].0 == name {
            assert(prefix.last() == active@[i - 1]);
            assert(active_index(prefix, name@) == Some(i - 1));
            active.set(i - 1, (name, v));
            return;
        }
        i -= 1;
    }
    assert(active@.subrange(0, 0) =~= Seq::<(String, ActiveBorrowedValue)>::empty());
    active.push((name, v));
}

/// Counting and writing back only look at the bindings' names and kinds.
pub(crate) proof fn lemma_same_bindings_agree<'a>(
    a: Seq<BorrowedScopeEntry<'a>>,
    b: Seq<BorrowedScopeEntry<'a>>,
    handles: Seq<Dynamic>,
    shared: Seq<Dynamic>,
)
    requires
        same_bindings(a, b),
    ensures
        count_dynamic(a) == count_dynamic(b),
        write_back_all(a, handles, shared) == write_back_all(b, handles, shared),
    decreases a.len(),
{
    if a.len() > 0 {
        let n = a.len() - 1;
        assert(same_bindings(a.drop_last(), b.drop_last())) by {
            assert forall|i: int| 0 <= i < a.drop_last().len() implies (#[trigger] b.drop_last()[i]).name
                == a.drop_last()[i].name by {
                assert(b[i].name == a[i].name);
            }
            assert forall|i: int|
                0 <= i < a.drop_last().len() && (#[trigger] a.drop_last()[i]).value is Opaque implies b.drop_last()[i].value
                    == a.drop_last()[i].value by {
                assert(a[i].value is Opaque);
            }
            assert forall|i: int|
                0 <= i < a.drop_last().len() && (#[trigger] a.drop_last()[i]).value is Dynamic implies b.drop_last()[i].value is Dynamic by {
                assert(a[i].value is Dynamic);
            }
        }
        lemma_same_bindings_agree(a.drop_last(), b.drop_last(), handles, shared);
        assert(b[n].name == a[n].name);
        if a[n].value is Dynamic {
            assert(b[n].value is Dynamic);
        } else {
            assert(b[n].value == a[n].value);
        }
    }
}

/// Prefixes of bindings with the same names and kinds have the same names and kinds.
pub(crate) proof fn lemma_same_bindings_prefix<'a>(
    a: Seq<BorrowedScopeEntry<'a>>,
    b: Seq<BorrowedScopeEntry<'a>>,
    n: int,
)
    requires
        same_bindings(a, b),
        0 <= n <= a.len(),
    ensures
        same_bindings(a.subrange(0, n), b.subrange(0, n)),
{
    assert forall|i: int| 0 <= i < n implies (#[trigger] b.subrange(0, n)[i]).name == a.subrange(0, n)[i].name by {
        assert(b[i].name == a[i].name);
    }
    assert forall|i: int|
        0 <= i < n && (#[trigger] a.subrange(0, n)[i]).value is Opaque implies b.subrange(0, n)[i].value
            == a.subrange(0, n)[i].value by {
        assert(a[i].value is Opaque);
    }
    assert forall|i: int|
        0 <= i < n && (#[trigger] a.subrange(0, n)[i]).value is Dynamic implies b.subrange(0, n)[i].value is Dynamic by {
        assert(a[i].value is Dynamic);
    }
}

/// Writing back never hands a host a handle: every value read back is the
/// value behind its binding's handle.
pub proof fn lemma_write_back_never_handle<'a>(
    entries: Seq<BorrowedScopeEntry<'a>>,
    handles: Seq<Dynamic>,
    shared: Seq<Dynamic>,
)
    ensures
        forall|k: int|
            0 <= k < write_back_all(entries, handles, shared).0.len() ==> !(
            #[trigger] write_back_all(entries, handles, shared).0[k] is Shared),
    decreases entries.len(),
{
    if entries.len() > 0 {
        lemma_write_back_never_handle(entries.drop_last(), handles, shared);
        let (vals, st) = write_back_all(entries.drop_last(), handles, shared);
        if entries.last().value is Dynamic {
            let h = handles[vals.len() as int];
            lemma_flatten_plain(st, h, st.len());
            assert forall|k: int| 0 <= k < vals.len() + 1 implies !(#[trigger] vals.push(read_cell(st, h))[k] is Shared) by {
                if k < vals.len() {
                    assert(vals.push(read_cell(st, h))[k] == vals[k]);
                }
            }
        }
    }
}

pub(crate) proof fn lemma_write_back_len<'a>(
    entries: Seq<BorrowedScopeEntry<'a>>,
    handles: Seq<Dynamic>,
    shared: Seq<Dynamic>,
)
    ensures
        write_back_all(entries, handles, shared).0.len() == count_dynamic(entries),
    decreases entries.len(),
{
    if entries.len() > 0 {
        lemma_write_back_len(entries.drop_last(), handles, shared);
    }
}

/// The script values that `entries` lend, in order.
pub open spec fn lent_values<'a>(entries: Seq<BorrowedScopeEntry<'a>>) -> Seq<Dynamic>
    decreases entries.len(),
{
    if entries.len() == 0 {
        Seq::empty()
    } else {
        let prev = lent_values(entries.drop_last());
        match entries.last().value {
            BorrowedScopeValue::Dynamic(r) => prev.push(*r),
            BorrowedScopeValue::Opaque(_) => prev,
        }
    }
}

/// The names of the bindings that lend script values, in order.
pub open spec fn lent_names<'a>(entries: Seq<BorrowedScopeEntry<'a>>) -> Seq<String>
    decreases entries.len(),
{
    if entries.len() == 0 {
        Seq::empty()
    } else {
        let prev = lent_names(entries.drop_last());
        if entries.last().value is Dynamic {
            prev.push(entries.last().name)
        } else {
            prev
        }
    }
}

/// The store `s` with the cells from `base` on marked as the expired bindings `names`, in order.
pub open spec fn expired_cells(s: Seq<Dynamic>, base: int, names: Seq<String>) -> Seq<Dynamic> {
    Seq::new(
        s.len(),
        |i: int|
            if base <= i < base + names.len() {
                Dynamic::ExpiredBinding(names[i - base])
            } else {
                s[i]
            },
    )
}

/// Does no binding of `entries` lend a value that is already a handle?
pub open spec fn lends_plain_values<'a>(entries: Seq<BorrowedScopeEntry<'a>>) -> bool {
    forall|i: int|
        0 <= i < entries.len() && (#[trigger] entries[i]).value is Dynamic ==> !(*entries[i].value->Dynamic_0 is Shared)
}

/// Lending plain values lends no handle.
proof fn lemma_lent_values_plain<'a>(entries: Seq<BorrowedScopeEntry<'a>>)
    requires
        lends_plain_values(entries),
    ensures
        forall|k: int| 0 <= k < lent_values(entries).len() ==> !(#[trigger] lent_values(entries)[k] is Shared),
    decreases entries.len(),
{
    if entries.len() > 0 {
        let prefix = entries.drop_last();
        assert(lends_plain_values(prefix)) by {
            assert forall|i: int|
                0 <= i < prefix.len() && (#[trigger] prefix[i]).value is Dynamic implies !(
                *prefix[i].value->Dynamic_0 is Shared) by {
                assert(entries[i] == prefix[i]);
            }
        }
        lemma_lent_values_plain(prefix);
        assert(entries[entries.len() - 1] == entries.last());
    }
}

proof fn lemma_lent_lens<'a>(entries: Seq<BorrowedScopeEntry<'a>>)
    ensures
        lent_values(entries).len() == count_dynamic(entries),
        lent_names(entries).len() == count_dynamic(entries),
    decreases entries.len(),
{
    if entries.len() > 0 {
        lemma_lent_lens(entries.drop_last());
    }
}

/// Lending plain values puts each into a new cell at the end of the store, in order.
proof fn lemma_bind_plain<'a>(entries: Seq<BorrowedScopeEntry<'a>>, st: BindState)
    requires
        lends_plain_values(entries),
    ensures
        bind_all(entries, st).shared == st.shared + lent_values(entries),
        bind_all(entries, st).handles == st.handles + Seq::new(
            count_dynamic(entries),
            |k: int| Dynamic::Shared((st.shared.len() + k) as usize),
        ),
    decreases entries.len(),
{
    lemma_lent_lens(entries);
    if entries.len() > 0 {
        let prefix = entries.drop_last();
        assert(lends_plain_values(prefix)) by {
            assert forall|i: int|
                0 <= i < prefix.len() && (#[trigger] prefix[i]).value is Dynamic implies !(
                *prefix[i].value->Dynamic_0 is Shared) by {
                assert(entries[i] == prefix[i]);
            }
        }
        lemma_bind_plain(prefix, st);
        lemma_lent_lens(prefix);
        let last = entries.last();
        if last.value is Dynamic {
            assert(entries[entries.len() - 1] == last);
            assert(bind_all(entries, st).shared =~= st.shared + lent_values(entries));
            assert(bind_all(entries, st).handles =~= st.handles + Seq::new(
                count_dynamic(entries),
                |k: int| Dynamic::Shared((st.shared.len() + k) as usize),
            ));
        } else {
            assert(bind_all(entries, st).handles =~= st.handles + Seq::new(
                count_dynamic(entries),
                |k: int| Dynamic::Shared((st.shared.len() + k) as usize),
            ));
        }
    }
}

/// Writing back through handles to consecutive cells from `base` on gives
/// back the cells' contents and expires those cells.
proof fn lemma_write_back_consecutive<'a>(
    entries: Seq<BorrowedScopeEntry<'a>>,
    handles: Seq<Dynamic>,
    s: Seq<Dynamic>,
    base: int,
)
    requires
        0 <= base,
        base + count_dynamic(entries) <= s.len(),
        s.len() <= usize::MAX + 1,
        handles.len() >= count_dynamic(entries),
        forall|k: int|
            0 <= k < count_dynamic(entries) ==> #[trigger] handles[k] == Dynamic::Shared(
                (base + k) as usize,
            ),
    ensures
        (forall|k: int| base <= k < base + count_dynamic(entries) ==> !(#[trigger] s[k] is Shared))
            ==> write_back_all(entries, handles, s).0 == s.subrange(base, base + count_dynamic(entries)),
        write_back_all(entries, handles, s).1 == expired_cells(s, base, lent_names(entries)),
    decreases entries.len(),
{
    lemma_lent_lens(entries);
    if entries.len() == 0 {
        assert(s.subrange(base, base) =~= Seq::<Dynamic>::empty());
        assert(expired_cells(s, base, lent_names(entries)) =~= s);
    } else {
        let prefix = entries.drop_last();
        lemma_lent_lens(prefix);
        lemma_write_back_len(prefix, handles, s);
        lemma_write_back_consecutive(prefix, handles, s, base);
        let c = count_dynamic(prefix);
        let (vals, st) = write_back_all(prefix, handles, s);
        if entries.last().value is Dynamic {
            let h = handles[c as int];
            assert(h == Dynamic::Shared((base + c) as usize));
            assert(st[base + c] == s[base + c]);
            if forall|k: int| base <= k < base + count_dynamic(entries) ==> !(#[trigger] s[k] is Shared) {
                assert(!(s[base + c] is Shared));
                assert(st.len() == s.len());
                assert(((base + c) as usize) as int == base + c);
                assert(flatten(st, st[base + c], (st.len() - 1) as nat) == st[base + c]);
                assert(read_cell(st, h) == s[base + c]);
                assert(write_back_all(entries, handles, s).0 =~= s.subrange(
                    base,
                    base + count_dynamic(entries),
                ));
            }
            assert(write_back_all(entries, handles, s).1 =~= expired_cells(
                s,
                base,
                lent_names(entries),
            ));
        } else {
            assert(lent_names(entries) == lent_names(prefix));
        }
    }
}

/// Lending host values that are not handles to a call, and writing them back
/// from the store the script left (which keeps at least the cells the call
/// created): every cell the call created ends up expired under its binding's
/// name, and each host gets back what the script left in its binding's cell
/// when that is not itself a handle. In particular, a binding the script
/// leaves alone comes back unchanged.
pub proof fn lemma_lend_and_return<'a>(
    entries: Seq<BorrowedScopeEntry<'a>>,
    scope: Seq<(String, Dynamic)>,
    shared: Seq<Dynamic>,
    left: Seq<Dynamic>,
)
    requires
        lends_plain_values(entries),
        shared.len() + count_dynamic(entries) <= left.len() <= usize::MAX + 1,
    ensures
        ({
            let st = bind_all(
                entries,
                BindState { scope, shared, active: Seq::empty(), handles: Seq::empty() },
            );
            let (vals, store) = write_back_all(entries, st.handles, left);
            &&& (forall|k: int|
                shared.len() <= k < shared.len() + count_dynamic(entries) ==> !(#[trigger] left[k] is Shared))
                ==> vals == left.subrange(shared.len() as int, (shared.len() + count_dynamic(entries)) as int)
            &&& store == expired_cells(left, shared.len() as int, lent_names(entries))
        }),
        ({
            let st = bind_all(
                entries,
                BindState { scope, shared, active: Seq::empty(), handles: Seq::empty() },
            );
            write_back_all(entries, st.handles, st.shared).0 == lent_values(entries)
        }),
{
    let init = BindState { scope, shared, active: Seq::empty(), handles: Seq::empty() };
    lemma_bind_plain(entries, init);
    lemma_lent_lens(entries);
    let st = bind_all(entries, init);
    assert(st.handles =~= Seq::new(
        count_dynamic(entries),
        |k: int| Dynamic::Shared((shared.len() + k) as usize),
    ));
    lemma_write_back_consecutive(entries, st.handles, left, shared.len() as int);
    if st.shared.len() <= usize::MAX + 1 {
        lemma_lent_values_plain(entries);
        assert forall|k: int| shared.len() <= k < shared.len() + count_dynamic(entries) implies !(
        #[trigger] st.shared[k] is Shared) by {
            assert(st.shared[k] == lent_values(entries)[k - shared.len()]);
        }
        lemma_write_back_consecutive(entries, st.handles, st.shared, shared.len() as int);
        assert(st.shared.subrange(shared.len() as int, (shared.len() + count_dynamic(entries)) as int)
            =~= lent_values(entries));
    }
}

/// The number of bindings that lend script values.
pub(crate) fn count_dynamic_bindings<'a>(entries: &Vec<BorrowedScopeEntry<'a>>) -> (n: usize)
    ensures
        n == count_dynamic(entries@),
{
    let mut n: usize = 0;
    let mut i: usize = 0;
    while i < entries.len()
        invariant
            i <= entries@.len(),
            n == count_dynamic(entries@.subrange(0, i as int)),
            n <= i,
        decreases entries@.len() - i,
    {
        proof {
            lemma_count_dynamic_step(entries@, i as int);
        }
        if entries[i].is_dynamic() {
            n += 1;
        }
        i += 1;
    }
    assert(entries@.subrange(0, i as int) =~= entries@);
    n
}

/// Move a value into the shared store, returning its handle.
pub(crate) fn into_shared(shared: &mut Vec<Dynamic>, value: Dynamic) -> (h: Dynamic)
    ensures
        (h, final(shared)@) == into_shared_spec(value, old(shared)@),
{
    if value.is_shared() {
        value
    } else {
        let id = shared.len();
        shared.push(value);
        Dynamic::Shared(id)
    }
}

/// The value behind the handle `h`, read through any nested handles.
pub(crate) fn read_shared(shared: &Vec<Dynamic>, h: &Dynamic) -> (v: Dynamic)
    ensures
        v == read_cell(shared@, *h),
{
    let mut cur = h.duplicate();
    let mut fuel: usize = shared.len();
    loop
        invariant
            fuel <= shared@.len(),
            flatten(shared@, cur, fuel as nat) == read_cell(shared@, *h),
        decreases fuel,
    {
        let next = match &cur {
            Dynamic::Shared(id) => Some(*id),
            _ => None,
        };
        match next {
            Some(id) => {
                if fuel > 0 && id < shared.len() {
                    cur = shared[id].duplicate();
                    fuel -= 1;
                } else {
                    return Dynamic::Unit;
                }
            },
            None => {
                return cur;
            },
        }
    }
}

/// Mark the cell `h` refers to (if any) as the expired binding `name`.
pub(crate) fn expire_shared(shared: &mut Vec<Dynamic>, h: &Dynamic, name: String)
    ensures
        final(shared)@ == expire_cell(old(shared)@, *h, name),
{
    match h {
        Dynamic::Shared(id) => if *id < shared.len() {
            shared.set(*id, Dynamic::make_expired_borrowed_binding(name));
        },
        _ => {},
    }
}

/// Lend the bindings: each lent script value is moved out of the host (which
/// is left holding `()`) into the shared store and exposed in the scope under
/// the binding's name. Returns the active bindings and the handles of the lent
/// script values, in order.
pub(crate) fn bind_borrowed<'a>(
    entries: &mut Vec<BorrowedScopeEntry<'a>>,
    scope: &mut Scope,
    shared: &mut Vec<Dynamic>,
) -> (r: (Vec<(String, ActiveBorrowedValue)>, Vec<Dynamic>))
    ensures
        ({
            let st = bind_all(
                old(entries)@,
                BindState {
                    scope: old(scope)@,
                    shared: old(shared)@,
                    active: Seq::empty(),
                    handles: Seq::empty(),
                },
            );
            &&& final(scope)@ == st.scope
            &&& final(shared)@ == st.shared
            &&& r.0@ == st.active
            &&& r.1@ == st.handles
        }),
        same_bindings(old(entries)@, final(entries)@),
        forall|i: int|
            0 <= i < old(entries)@.len() && (#[trigger] old(entries)@[i]).value is Dynamic
                ==> *final(entries)@[i].value->Dynamic_0 == Dynamic::Unit,
        forall|i: int|
            0 <= i < old(entries)@.len() && (#[trigger] old(entries)@[i]).value is Dynamic
                ==> *final(final(entries)@[i].value->Dynamic_0) == *final(old(entries)@[i].value->Dynamic_0),
{
    let ghost init = BindState {
        scope: scope@,
        shared: shared@,
        active: Seq::empty(),
        handles: Seq::empty(),
    };
    let mut active: Vec<(String, ActiveBorrowedValue)> = Vec::new();
    let mut handles: Vec<Dynamic> = Vec::new();
    let mut i: usize = 0;
    assert(old(entries)@.subrange(0, 0) =~= Seq::<BorrowedScopeEntry<'a>>::empty());
    while i < entries.len()
        invariant
            i <= entries@.len(),
            entries@.len() == old(entries)@.len(),
            same_bindings(old(entries)@, entries@),
            forall|j: int|
                0 <= j < i && (#[trigger] old(entries)@[j]).value is Dynamic
                    ==> *entries@[j].value->Dynamic_0 == Dynamic::Unit,
            forall|j: int| i <= j < entries@.len() ==> #[trigger] entries@[j] == old(entries)@[j],
            forall|j: int|
                0 <= j < old(entries)@.len() && (#[trigger] old(entries)@[j]).value is Dynamic
                    ==> *final(entries@[j].value->Dynamic_0) == *final(old(entries)@[j].value->Dynamic_0),
            ({
                let st = bind_all(old(entries)@.subrange(0, i as int), init);
                &&& scope@ == st.scope
                &&& shared@ == st.shared
                &&& active@ == st.active
                &&& handles@ == st.handles
            }),
        decreases entries@.len() - i,
    {
        assert(old(entries)@.subrange(0, i + 1).drop_last() =~= old(entries)@.subrange(
            0,
            i as int,
        ));
        let name = entries[i].name.clone();
        let entry = &mut entries[i];
        match &mut entry.value {
            BorrowedScopeValue::Dynamic(v) => {
                let value = (**v).take();
                let h = into_shared(shared, value);
                scope.push_dynamic(name.clone(), h.duplicate());
                insert_active(&mut active, name, ActiveBorrowedValue::Dynamic(h.duplicate()));
                handles.push(h);
            },
            BorrowedScopeValue::Opaque(p) => {
                insert_active(&mut active, name, ActiveBorrowedValue::Opaque(*p));
            },
        }
        i += 1;
    }
    assert(old(entries)@.subrange(0, i as int) =~= old(entries)@);
    (active, handles)
}

/// Write the lent script values back: the `k`-th one gets the content of the
/// cell `handles[k]` refers to, and that cell is marked expired.
pub(crate) fn write_back_borrowed<'a>(
    entries: &mut Vec<BorrowedScopeEntry<'a>>,
    handles: &Vec<Dynamic>,
    shared: &mut Vec<Dynamic>,
)
    requires
        handles@.len() == count_dynamic(old(entries)@),
    ensures
        ({
            let (vals, st) = write_back_all(old(entries)@, handles@, old(shared)@);
            &&& final(shared)@ == st
            &&& forall|i: int|
                0 <= i < old(entries)@.len() && (#[trigger] old(entries)@[i]).value is Dynamic
                    ==> *final(entries)@[i].value->Dynamic_0 == vals[count_dynamic(
                    old(entries)@.subrange(0, i),
                ) as int]
        }),
        same_bindings(old(entries)@, final(entries)@),
        forall|i: int|
            0 <= i < old(entries)@.len() && (#[trigger] old(entries)@[i]).value is Dynamic
                ==> *final(final(entries)@[i].value->Dynamic_0) == *final(old(entries)@[i].value->Dynamic_0),
{
    let ghost orig_shared = shared@;
    let ghost ents = old(entries)@;
    let mut k: usize = 0;
    let mut i: usize = 0;
    assert(ents.subrange(0, 0) =~= Seq::<BorrowedScopeEntry<'a>>::empty());
    proof {
        lemma_count_dynamic_bound(ents);
    }
    while i < entries.len()
        invariant
            i <= entries@.len(),
            entries@.len() == ents.len(),
            ents == old(entries)@,
            handles@.len() == count_dynamic(ents),
            same_bindings(ents, entries@),
            k == count_dynamic(ents.subrange(0, i as int)),
            forall|j: int| i <= j < entries@.len() ==> #[trigger] entries@[j] == ents[j],
            forall|j: int|
                0 <= j < ents.len() && (#[trigger] ents[j]).value is Dynamic
                    ==> *final(entries@[j].value->Dynamic_0) == *final(ents[j].value->Dynamic_0),
            ({
                let (vals, st) = write_back_all(ents.subrange(0, i as int), handles@, orig_shared);
                &&& shared@ == st
                &&& vals.len() == k
                &&& forall|j: int|
                    0 <= j < i && (#[trigger] ents[j]).value is Dynamic
                        ==> *entries@[j].value->Dynamic_0 == vals[count_dynamic(
                        ents.subrange(0, j),
                    ) as int]
            }),
        decreases entries@.len() - i,
    {
        proof {
            lemma_count_dynamic_step(ents, i as int);
            lemma_write_back_len(ents.subrange(0, i as int), handles@, orig_shared);
            lemma_count_dynamic_bound(ents.subrange(0, i as int));
            lemma_count_dynamic_mono(ents, i + 1);
            assert forall|j: int| 0 <= j < i && (#[trigger] ents[j]).value is Dynamic implies count_dynamic(ents.subrange(0, j)) < k by {
                lemma_count_prefix_mono(ents, j, i as int);
            }
        }
        assert(ents.subrange(0, i + 1).drop_last() =~= ents.subrange(0, i as int));
        let ghost prev = write_back_all(ents.subrange(0, i as int), handles@, orig_shared);
        let name = entries[i].name.clone();
        let entry = &mut entries[i];
        match &mut entry.value {
            BorrowedScopeValue::Dynamic(v) => {
                let h = &handles[k];
                let nv = read_shared(shared, h);
                **v = nv;
                expire_shared(shared, h, name);
                k += 1;
            },
            BorrowedScopeValue::Opaque(_) => {},
        }
        i += 1;
    }
    assert(ents.subrange(0, i as int) =~= ents);
}

} // verus!
