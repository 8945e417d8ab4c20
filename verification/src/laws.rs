use vstd::prelude::*;

use crate::builder::{
    spec_abort, spec_begin, spec_bind, spec_build, spec_end, spec_set, spec_set_docstring,
    BuilderError, BuilderModel, ScopeModel,
};
use crate::namespace::{index_of_name, lemma_index_of_name_determined, lemma_index_of_name_props,
    lookup, NamespaceModel, NsVal};

verus! {

/// Binding a name makes its value the one reachable under that name.
pub proof fn lemma_bind_lookup(entries: Seq<(Seq<char>, NsVal)>, name: Seq<char>, v: NsVal)
    ensures
        lookup(spec_bind(entries, name, v), name) == Some(v),
{
    lemma_index_of_name_props(entries, name);
    let i = index_of_name(entries, name);
    let bound = spec_bind(entries, name, v);
    if i < entries.len() {
        assert forall|j: int| 0 <= j < i implies bound[j].0 != name by {
            assert(bound[j] == entries[j]);
        }
        lemma_index_of_name_determined(bound, name, i);
    } else {
        assert forall|j: int| 0 <= j < entries.len() implies bound[j].0 != name by {
            assert(bound[j] == entries[j]);
        }
        lemma_index_of_name_determined(bound, name, entries.len() as int);
    }
}

/// Binding a name leaves every other name reaching exactly what it did.
pub proof fn lemma_bind_lookup_other(
    entries: Seq<(Seq<char>, NsVal)>,
    name: Seq<char>,
    v: NsVal,
    other: Seq<char>,
)
    requires
        other != name,
    ensures
        lookup(spec_bind(entries, name, v), other) == lookup(entries, other),
{
    lemma_index_of_name_props(entries, name);
    lemma_index_of_name_props(entries, other);
    let i = index_of_name(entries, name);
    let k = index_of_name(entries, other);
    let bound = spec_bind(entries, name, v);
    assert forall|j: int| 0 <= j < entries.len() implies bound[j].0 == entries[j].0 by {
        if i < entries.len() && j == i {
            assert(bound[j].0 == name);
        } else {
            assert(bound[j] == entries[j]);
        }
    }
    if k < entries.len() {
        assert forall|j: int| 0 <= j < k implies bound[j].0 != other by {
            assert(bound[j].0 == entries[j].0);
        }
        lemma_index_of_name_determined(bound, other, k);
        assert(bound[k].1 == entries[k].1);
    } else {
        assert forall|j: int| 0 <= j < bound.len() implies bound[j].0 != other by {
            if j < entries.len() {
                assert(bound[j].0 == entries[j].0);
            } else {
                assert(bound[j].0 == name);
            }
        }
        lemma_index_of_name_determined(bound, other, bound.len() as int);
    }
}

/// Finalizing is one-shot: after a successful finalize, finalizing again and
/// every binding, scope or documentation operation fail with the same
/// "consumed" error, and the builder's state no longer changes.
pub proof fn lemma_builder_one_shot(
    m: BuilderModel,
    token: u64,
    name: Seq<char>,
    v: NsVal,
    sub_name: Seq<char>,
    doc: Seq<char>,
)
    requires
        spec_build(m).1 is Ok,
    ensures
        spec_build(spec_build(m).0).1 == Result::<NamespaceModel, BuilderError>::Err(
            BuilderError::Consumed,
        ),
        spec_build(spec_build(m).0).0 == spec_build(m).0,
        spec_set(spec_build(m).0, token, name, v).1 == Result::<(), BuilderError>::Err(
            BuilderError::Consumed,
        ),
        spec_set(spec_build(m).0, token, name, v).0 == spec_build(m).0,
        spec_begin(spec_build(m).0, token, sub_name).1 == Result::<u64, BuilderError>::Err(
            BuilderError::Consumed,
        ),
        spec_end(spec_build(m).0, token).1 == Result::<(), BuilderError>::Err(
            BuilderError::Consumed,
        ),
        spec_abort(spec_build(m).0, token).1 == Result::<(), BuilderError>::Err(
            BuilderError::Consumed,
        ),
        spec_set_docstring(spec_build(m).0, doc).1 == Result::<(), BuilderError>::Err(
            BuilderError::Consumed,
        ),
{
}

/// Last write wins: binding the same name twice in one builder succeeds both
/// times, and after finalizing only the second value is reachable under the
/// name.
pub proof fn lemma_last_write_wins(
    m: BuilderModel,
    token: u64,
    name: Seq<char>,
    v1: NsVal,
    v2: NsVal,
)
    requires
        !m.consumed,
        m.scopes.len() == 1,
        m.scopes.last().token == token,
    ensures
        spec_set(m, token, name, v1).1 is Ok,
        spec_set(spec_set(m, token, name, v1).0, token, name, v2).1 is Ok,
        spec_build(spec_set(spec_set(m, token, name, v1).0, token, name, v2).0).1 is Ok,
        lookup(
            spec_build(
                spec_set(spec_set(m, token, name, v1).0, token, name, v2).0,
            ).1->Ok_0.bindings,
            name,
        ) == Some(v2),
{
    lemma_bind_lookup(spec_bind(m.scopes.last().entries, name, v1), name, v2);
    assert(spec_set(m, token, name, v1).0.scopes.last().entries == spec_bind(
        m.scopes.last().entries,
        name,
        v1,
    ));
}

/// The builder after one nested scope was opened under `sub_name`.
pub open spec fn after_begin(m: BuilderModel, token: u64, sub_name: Seq<char>) -> BuilderModel {
    spec_begin(m, token, sub_name).0
}

/// The handle issued for that nested scope.
pub open spec fn child_token(m: BuilderModel, token: u64, sub_name: Seq<char>) -> u64 {
    spec_begin(m, token, sub_name).1->Ok_0
}

/// The builder after `inner_name` was bound inside the nested scope.
pub open spec fn after_inner_set(
    m: BuilderModel,
    token: u64,
    sub_name: Seq<char>,
    inner_name: Seq<char>,
    v: NsVal,
) -> BuilderModel {
    spec_set(after_begin(m, token, sub_name), child_token(m, token, sub_name), inner_name, v).0
}

/// The builder after the nested scope was committed back into its parent.
pub open spec fn after_commit(
    m: BuilderModel,
    token: u64,
    sub_name: Seq<char>,
    inner_name: Seq<char>,
    v: NsVal,
) -> BuilderModel {
    spec_end(
        after_inner_set(m, token, sub_name, inner_name, v),
        child_token(m, token, sub_name),
    ).0
}

/// Scoped nested-namespace isolation: populating a nested sub-namespace and
/// committing it binds, at the enclosing level, nothing but the
/// sub-namespace's own name. A name bound inside reaches exactly what it did
/// before at the enclosing level, and is reachable only through the
/// sub-namespace, which holds it as an immutable value. While the nested
/// scope is open, the enclosing scope's handle is stale, so the parent cannot
/// be touched from inside the callback's dynamic extent.
pub proof fn lemma_nested_scope_isolation(
    m: BuilderModel,
    token: u64,
    sub_name: Seq<char>,
    inner_name: Seq<char>,
    v: NsVal,
)
    requires
        m.inv(),
        !m.consumed,
        m.scopes.last().token == token,
        m.next_token < u64::MAX,
        inner_name != sub_name,
    ensures
        spec_begin(m, token, sub_name).1 == Result::<u64, BuilderError>::Ok(
            child_token(m, token, sub_name),
        ),
        child_token(m, token, sub_name) != token,
        spec_set(after_begin(m, token, sub_name), token, inner_name, v).1 == Result::<
            (),
            BuilderError,
        >::Err(BuilderError::StaleScope),
        spec_set(
            after_begin(m, token, sub_name),
            child_token(m, token, sub_name),
            inner_name,
            v,
        ).1 is Ok,
        spec_end(
            after_inner_set(m, token, sub_name, inner_name, v),
            child_token(m, token, sub_name),
        ).1 is Ok,
        after_commit(m, token, sub_name, inner_name, v).scopes.last().entries == spec_bind(
            m.scopes.last().entries,
            sub_name,
            NsVal::Sub(seq![(inner_name, v)]),
        ),
        lookup(after_commit(m, token, sub_name, inner_name, v).scopes.last().entries, inner_name)
            == lookup(m.scopes.last().entries, inner_name),
        lookup(after_commit(m, token, sub_name, inner_name, v).scopes.last().entries, sub_name)
            == Some(NsVal::Sub(seq![(inner_name, v)])),
{
    let m1 = after_begin(m, token, sub_name);
    let t2 = child_token(m, token, sub_name);
    assert(m.scopes.last().token < m.next_token);
    assert(m1.scopes.last() == ScopeModel {
        name: sub_name,
        token: m.next_token,
        entries: Seq::empty(),
    });
    let child_entries = spec_bind(Seq::empty(), inner_name, v);
    assert(child_entries =~= seq![(inner_name, v)]);
    let m2 = after_inner_set(m, token, sub_name, inner_name, v);
    assert(m2.scopes.last().entries == child_entries);
    assert(m2.scopes.len() == m.scopes.len() + 1);
    assert(m2.scopes[m2.scopes.len() - 2] == m.scopes.last());
    let m3 = after_commit(m, token, sub_name, inner_name, v);
    assert(m3.scopes.last() == ScopeModel {
        entries: spec_bind(m.scopes.last().entries, sub_name, NsVal::Sub(child_entries)),
        ..m.scopes.last()
    });
    lemma_bind_lookup_other(m.scopes.last().entries, sub_name, NsVal::Sub(child_entries), inner_name);
    lemma_bind_lookup(m.scopes.last().entries, sub_name, NsVal::Sub(child_entries));
}

} // verus!
