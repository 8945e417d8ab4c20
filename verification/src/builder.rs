use vstd::prelude::*;
use vstd::string::StringExecFns;

use crate::extension::LibraryExtension;
use crate::namespace::{
    bindings_of, index_of_name, lemma_bindings_of_props, lemma_index_of_name_determined,
    lemma_index_of_name_props, lookup, Binding, Namespace, NamespaceModel, NamespaceValue, NsVal,
};
use crate::value::GuestValue;

verus! {

/// Why a builder operation was refused.
#[derive(Clone, Copy, Debug, PartialEq, Eq, Structural)]
pub enum BuilderError {
    /// The builder was already finalized; it is single-use.
    Consumed,
    /// The scope handle does not belong to the innermost open scope: either
    /// its sub-namespace was already committed or given up, or a younger
    /// scope is still open. A handle never becomes valid again.
    StaleScope,
    /// No nested scope is open, so there is nothing to commit or give up.
    NoOpenScope,
    /// A nested scope is still open, so the builder cannot be finalized yet.
    UnclosedScope,
    /// The supply of fresh scope handles is spent; no further nested scope
    /// can be opened on this builder.
    HandlesExhausted,
}

/// Model of one open scope: the name the scope will be committed under (the
/// root scope carries the empty name), the handle that identifies it, and
/// the bindings made in it so far.
#[verifier::ext_equal]
pub struct ScopeModel {
    pub name: Seq<char>,
    pub token: u64,
    pub entries: Seq<(Seq<char>, NsVal)>,
}

/// Model of a namespace builder: whether it was consumed, the stack of open
/// scopes, innermost last (the root scope at the bottom), the next fresh
/// scope handle, and what it records for the evaluator.
#[verifier::ext_equal]
pub struct BuilderModel {
    pub consumed: bool,
    pub scopes: Seq<ScopeModel>,
    pub next_token: u64,
    pub standard: bool,
    pub extensions: Seq<LibraryExtension>,
    pub docstring: Option<Seq<char>>,
}

impl BuilderModel {
    /// A builder is sound while its root scope stands (until consumed) and
    /// every open scope's handle is older than the next fresh one, so a fresh
    /// handle never collides with a live scope.
    pub open spec fn inv(self) -> bool {
        &&& (!self.consumed ==> self.scopes.len() >= 1)
        &&& forall|i: int|
            0 <= i < self.scopes.len() ==> #[trigger] self.scopes[i].token < self.next_token
    }
}

/// The model a fresh builder starts from.
pub open spec fn initial_model(standard: bool, extensions: Seq<LibraryExtension>) -> BuilderModel {
    BuilderModel {
        consumed: false,
        scopes: seq![
            ScopeModel { name: Seq::empty(), token: 0, entries: Seq::empty() },
        ],
        next_token: 1,
        standard,
        extensions,
        docstring: None,
    }
}

/// Binding a name in a list of bindings: the first binding of the name is
/// replaced in place, keeping its position, and a new name goes to the end.
/// Last write wins; there is never a duplicate-name error.
pub open spec fn spec_bind(
    entries: Seq<(Seq<char>, NsVal)>,
    name: Seq<char>,
    v: NsVal,
) -> Seq<(Seq<char>, NsVal)> {
    let i = index_of_name(entries, name);
    if i < entries.len() {
        entries.update(i, (name, v))
    } else {
        entries.push((name, v))
    }
}

/// Binding a name to a value: valid only while the builder is unconsumed and
/// the handle names the innermost open scope; then the binding is made there.
pub open spec fn spec_set(m: BuilderModel, token: u64, name: Seq<char>, v: NsVal) -> (
    BuilderModel,
    Result<(), BuilderError>,
) {
    if m.consumed {
        (m, Result::Err(BuilderError::Consumed))
    } else if m.scopes.last().token != token {
        (m, Result::Err(BuilderError::StaleScope))
    } else {
        let top = m.scopes.last();
        (
            BuilderModel {
                scopes: m.scopes.update(
                    m.scopes.len() - 1,
                    ScopeModel { entries: spec_bind(top.entries, name, v), ..top },
                ),
                ..m
            },
            Result::Ok(()),
        )
    }
}

/// Opening a nested scope: a fresh handle is issued for it and it becomes the
/// innermost scope; until it is committed or given up, the enclosing scope's
/// handle is stale.
pub open spec fn spec_begin(m: BuilderModel, token: u64, name: Seq<char>) -> (
    BuilderModel,
    Result<u64, BuilderError>,
) {
    if m.consumed {
        (m, Result::Err(BuilderError::Consumed))
    } else if m.scopes.last().token != token {
        (m, Result::Err(BuilderError::StaleScope))
    } else if m.next_token == u64::MAX {
        (m, Result::Err(BuilderError::HandlesExhausted))
    } else {
        (
            BuilderModel {
                scopes: m.scopes.push(
                    ScopeModel { name, token: m.next_token, entries: Seq::empty() },
                ),
                next_token: (m.next_token + 1) as u64,
                ..m
            },
            Result::Ok(m.next_token),
        )
    }
}

/// Committing the innermost scope: it is removed, its handle goes stale for
/// good, and the enclosing scope gains its bindings as an immutable nested
/// sub-namespace under the scope's name.
pub open spec fn spec_end(m: BuilderModel, token: u64) -> (
    BuilderModel,
    Result<(), BuilderError>,
) {
    if m.consumed {
        (m, Result::Err(BuilderError::Consumed))
    } else if m.scopes.last().token != token {
        (m, Result::Err(BuilderError::StaleScope))
    } else if m.scopes.len() == 1 {
        (m, Result::Err(BuilderError::NoOpenScope))
    } else {
        let child = m.scopes.last();
        let parent = m.scopes[m.scopes.len() - 2];
        (
            BuilderModel {
                scopes: m.scopes.drop_last().update(
                    m.scopes.len() - 2,
                    ScopeModel {
                        entries: spec_bind(parent.entries, child.name, NsVal::Sub(child.entries)),
                        ..parent
                    },
                ),
                ..m
            },
            Result::Ok(()),
        )
    }
}

/// Giving up the innermost scope after its populating callback failed: the
/// scope is discarded, and the enclosing scope is left exactly as it was, no
/// new child, still building.
pub open spec fn spec_abort(m: BuilderModel, token: u64) -> (
    BuilderModel,
    Result<(), BuilderError>,
) {
    if m.consumed {
        (m, Result::Err(BuilderError::Consumed))
    } else if m.scopes.last().token != token {
        (m, Result::Err(BuilderError::StaleScope))
    } else if m.scopes.len() == 1 {
        (m, Result::Err(BuilderError::NoOpenScope))
    } else {
        (BuilderModel { scopes: m.scopes.drop_last(), ..m }, Result::Ok(()))
    }
}

/// Attaching a documentation string to the namespace under construction.
pub open spec fn spec_set_docstring(m: BuilderModel, doc: Seq<char>) -> (
    BuilderModel,
    Result<(), BuilderError>,
) {
    if m.consumed {
        (m, Result::Err(BuilderError::Consumed))
    } else {
        (BuilderModel { docstring: Some(doc), ..m }, Result::Ok(()))
    }
}

/// Finalizing the builder: the one transition from Building to Consumed. It
/// is refused on a consumed builder and while a nested scope is still open;
/// otherwise the root scope's bindings become the namespace and the builder
/// is consumed for good.
pub open spec fn spec_build(m: BuilderModel) -> (
    BuilderModel,
    Result<NamespaceModel, BuilderError>,
) {
    if m.consumed {
        (m, Result::Err(BuilderError::Consumed))
    } else if m.scopes.len() != 1 {
        (m, Result::Err(BuilderError::UnclosedScope))
    } else {
        (
            BuilderModel { consumed: true, scopes: Seq::empty(), ..m },
            Result::Ok(
                NamespaceModel {
                    bindings: m.scopes[0].entries,
                    standard: m.standard,
                    extensions: m.extensions,
                    docstring: m.docstring,
                },
            ),
        )
    }
}

/// One open scope of a builder.
struct Scope {
    name: String,
    token: u64,
    entries: Vec<Binding>,
}

impl View for Scope {
    type V = ScopeModel;

    closed spec fn view(&self) -> ScopeModel {
        ScopeModel { name: self.name@, token: self.token, entries: bindings_of(self.entries@) }
    }
}

/// A mutable, single-owner, single-use staging object that accumulates
/// name-to-value bindings, optionally grouped into nested scoped
/// sub-namespaces, and finalizes them into an immutable `Namespace`.
///
/// Every binding operation takes a scope handle. The builder starts with its
/// root scope open under `root_token`; opening a nested scope issues a fresh
/// handle and makes the enclosing handle stale until the nested scope is
/// committed or given up, and a spent handle never works again. This puts a
/// runtime guard where a borrow could otherwise outlive its scope.
pub struct NamespaceBuilder {
    consumed: bool,
    scopes: Vec<Scope>,
    next_token: u64,
    standard: bool,
    extensions: Vec<LibraryExtension>,
    docstring: Option<String>,
}

impl View for NamespaceBuilder {
    type V = BuilderModel;

    closed spec fn view(&self) -> BuilderModel {
        BuilderModel {
            consumed: self.consumed,
            scopes: self.scopes@.map_values(|s: Scope| s@),
            next_token: self.next_token,
            standard: self.standard,
            extensions: self.extensions@,
            docstring: match self.docstring {
                Option::Some(ref s) => Option::Some(s@),
                Option::None => Option::None,
            },
        }
    }
}

impl NamespaceBuilder {
    /// The handle of the root scope.
    pub fn root_token(&self) -> (r: u64)
        ensures
            r == 0u64,
    {
        0
    }

    fn with_flags(standard: bool, extensions: Vec<LibraryExtension>) -> (r: NamespaceBuilder)
        ensures
            r@ == initial_model(standard, extensions@),
            r@.inv(),
    {
        let mut scopes: Vec<Scope> = Vec::new();
        scopes.push(Scope { name: String::new(), token: 0, entries: Vec::new() });
        let r = NamespaceBuilder {
            consumed: false,
            scopes,
            next_token: 1,
            standard,
            extensions,
            docstring: None,
        };
        proof {
            assert(r@.scopes =~= initial_model(standard, extensions@).scopes);
            assert(r@ =~= initial_model(standard, extensions@));
        }
        r
    }

    /// A fresh builder with no standard library and no extensions.
    pub fn new() -> (r: NamespaceBuilder)
        ensures
            r@ == initial_model(false, Seq::<LibraryExtension>::empty()),
            r@.inv(),
    {
        Self::with_flags(false, Vec::new())
    }

    /// A fresh builder carrying the evaluator's standard library.
    pub fn standard() -> (r: NamespaceBuilder)
        ensures
            r@ == initial_model(true, Seq::<LibraryExtension>::empty()),
            r@.inv(),
    {
        Self::with_flags(true, Vec::new())
    }

    /// A fresh builder carrying the standard library extended by the given
    /// extensions, in the order given.
    pub fn extended_by(extensions: Vec<LibraryExtension>) -> (r: NamespaceBuilder)
        ensures
            r@ == initial_model(true, extensions@),
            r@.inv(),
    {
        Self::with_flags(true, extensions)
    }

    /// Binds `name` to a guest value in the scope the handle names. A second
    /// binding of the same name replaces the first, keeping its position.
    pub fn set(&mut self, token: u64, name: &str, value: GuestValue) -> (r: Result<
        (),
        BuilderError,
    >)
        requires
            old(self)@.inv(),
        ensures
            final(self)@.inv(),
            final(self)@ == spec_set(old(self)@, token, name@, NsVal::Leaf(value@)).0,
            r == spec_set(old(self)@, token, name@, NsVal::Leaf(value@)).1,
    {
        self.bind(token, String::from_str(name), NamespaceValue::Leaf(value))
    }

    /// Binds a name to a value in the scope the handle names.
    fn bind(&mut self, token: u64, name: String, value: NamespaceValue) -> (r: Result<
        (),
        BuilderError,
    >)
        requires
            old(self)@.inv(),
        ensures
            final(self)@.inv(),
            final(self)@ == spec_set(old(self)@, token, name@, value@).0,
            r == spec_set(old(self)@, token, name@, value@).1,
    {
        if self.consumed {
            return Err(BuilderError::Consumed);
        }
        let ghost m = self@;
        let n = self.scopes.len();
        if self.scopes[n - 1].token != token {
            proof {
                assert(m.scopes.last() == self.scopes@[n - 1]@);
            }
            return Err(BuilderError::StaleScope);
        }
        let mut top = match self.scopes.pop() {
            Some(s) => s,
            None => {
                proof {
                    assert(false);
                }
                return Err(BuilderError::Consumed);
            },
        };
        bind_into(&mut top.entries, name, value);
        self.scopes.push(top);
        proof {
            let want = spec_set(m, token, name@, value@).0;
            assert(self@.scopes =~= want.scopes);
            assert(self@ =~= want);
        }
        Ok(())
    }

    /// Opens a nested sub-namespace scope under `name` inside the scope the
    /// handle names, and returns the fresh handle of the nested scope. Until
    /// the nested scope is committed or given up, the enclosing handle is
    /// stale.
    pub fn begin_struct(&mut self, token: u64, name: &str) -> (r: Result<u64, BuilderError>)
        requires
            old(self)@.inv(),
        ensures
            final(self)@.inv(),
            final(self)@ == spec_begin(old(self)@, token, name@).0,
            r == spec_begin(old(self)@, token, name@).1,
    {
        if self.consumed {
            return Err(BuilderError::Consumed);
        }
        let ghost m = self@;
        let n = self.scopes.len();
        if self.scopes[n - 1].token != token {
            proof {
                assert(m.scopes.last() == self.scopes@[n - 1]@);
            }
            return Err(BuilderError::StaleScope);
        }
        if self.next_token == u64::MAX {
            return Err(BuilderError::HandlesExhausted);
        }
        let fresh = self.next_token;
        self.scopes.push(Scope { name: String::from_str(name), token: fresh, entries: Vec::new() });
        self.next_token = self.next_token + 1;
        proof {
            let want = spec_begin(m, token, name@).0;
            assert(self@.scopes =~= want.scopes);
            assert(self@ =~= want);
        }
        Ok(fresh)
    }

    /// Commits the innermost nested scope: the enclosing scope gains its
    /// bindings as an immutable nested sub-namespace, and the handle goes
    /// stale for good.
    pub fn end_struct(&mut self, token: u64) -> (r: Result<(), BuilderError>)
        requires
            old(self)@.inv(),
        ensures
            final(self)@.inv(),
            final(self)@ == spec_end(old(self)@, token).0,
            r == spec_end(old(self)@, token).1,
    {
        if self.consumed {
            return Err(BuilderError::Consumed);
        }
        let ghost m = self@;
        let n = self.scopes.len();
        if self.scopes[n - 1].token != token {
            proof {
                assert(m.scopes.last() == self.scopes@[n - 1]@);
            }
            return Err(BuilderError::StaleScope);
        }
        if n == 1 {
            return Err(BuilderError::NoOpenScope);
        }
        let child = match self.scopes.pop() {
            Some(s) => s,
            None => {
                proof {
                    assert(false);
                }
                return Err(BuilderError::Consumed);
            },
        };
        let mut parent = match self.scopes.pop() {
            Some(s) => s,
            None => {
                proof {
                    assert(false);
                }
                return Err(BuilderError::Consumed);
            },
        };
        proof {
            assert(m.scopes.last() == child@);
            assert(m.scopes[m.scopes.len() - 2] == parent@);
        }
        bind_into(&mut parent.entries, child.name, NamespaceValue::Sub(child.entries));
        self.scopes.push(parent);
        proof {
            let want = spec_end(m, token).0;
            assert(self@.scopes =~= want.scopes);
            assert(self@ =~= want);
        }
        Ok(())
    }

    /// Gives up the innermost nested scope after its populating callback
    /// failed: the enclosing scope is left exactly as it was, no new child,
    /// still building.
    pub fn abort_struct(&mut self, token: u64) -> (r: Result<(), BuilderError>)
        requires
            old(self)@.inv(),
        ensures
            final(self)@.inv(),
            final(self)@ == spec_abort(old(self)@, token).0,
            r == spec_abort(old(self)@, token).1,
    {
        if self.consumed {
            return Err(BuilderError::Consumed);
        }
        let ghost m = self@;
        let n = self.scopes.len();
        if self.scopes[n - 1].token != token {
            proof {
                assert(m.scopes.last() == self.scopes@[n - 1]@);
            }
            return Err(BuilderError::StaleScope);
        }
        if n == 1 {
            return Err(BuilderError::NoOpenScope);
        }
        let _discarded = self.scopes.pop();
        proof {
            let want = spec_abort(m, token).0;
            assert(self@.scopes =~= want.scopes);
            assert(self@ =~= want);
        }
        Ok(())
    }

    /// Attaches a documentation string to the namespace under construction.
    pub fn set_docstring(&mut self, doc: &str) -> (r: Result<(), BuilderError>)
        requires
            old(self)@.inv(),
        ensures
            final(self)@.inv(),
            final(self)@ == spec_set_docstring(old(self)@, doc@).0,
            r == spec_set_docstring(old(self)@, doc@).1,
    {
        if self.consumed {
            return Err(BuilderError::Consumed);
        }
        self.docstring = Some(String::from_str(doc));
        Ok(())
    }

    /// Finalizes the builder into an immutable namespace. This is one-shot:
    /// it consumes the builder, and every later operation on it, this one
    /// included, fails with `Consumed`.
    pub fn build(&mut self) -> (r: Result<Namespace, BuilderError>)
        requires
            old(self)@.inv(),
        ensures
            final(self)@.inv(),
            final(self)@ == spec_build(old(self)@).0,
            (match r {
                Ok(ns) => Result::<NamespaceModel, BuilderError>::Ok(ns@),
                Err(e) => Result::Err(e),
            }) == spec_build(old(self)@).1,
    {
        if self.consumed {
            return Err(BuilderError::Consumed);
        }
        let ghost m = self@;
        if self.scopes.len() != 1 {
            return Err(BuilderError::UnclosedScope);
        }
        let root = match self.scopes.pop() {
            Some(s) => s,
            None => {
                proof {
                    assert(false);
                }
                return Err(BuilderError::Consumed);
            },
        };
        proof {
            assert(m.scopes[0] == root@);
        }
        self.consumed = true;
        let extensions = copy_extensions(&self.extensions);
        let docstring = match &self.docstring {
            Some(s) => Some(s.clone()),
            None => None,
        };
        let ns = Namespace { entries: root.entries, standard: self.standard, extensions, docstring };
        proof {
            let want = spec_build(m).0;
            assert(self@.scopes =~= want.scopes);
            assert(self@ =~= want);
            assert(ns@ =~= spec_build(m).1->Ok_0);
        }
        Ok(ns)
    }
}

/// Copies a selection of extensions.
fn copy_extensions(v: &Vec<LibraryExtension>) -> (r: Vec<LibraryExtension>)
    ensures
        r@ == v@,
{
    let mut out: Vec<LibraryExtension> = Vec::new();
    let mut i: usize = 0;
    while i < v.len()
        invariant
            i <= v@.len(),
            out@ =~= v@.take(i as int),
        decreases v@.len() - i,
    {
        out.push(v[i]);
        proof {
            assert(out@ =~= v@.take(i as int + 1));
        }
        i = i + 1;
    }
    proof {
        assert(v@.take(v@.len() as int) =~= v@);
    }
    out
}

/// Binds a name in a list of bindings, as `spec_bind` lays down: the first
/// binding of the name is replaced in place, a new name goes to the end.
#[verifier::loop_isolation(false)]
fn bind_into(entries: &mut Vec<Binding>, name: String, value: NamespaceValue)
    ensures
        bindings_of(final(entries)@) == spec_bind(bindings_of(old(entries)@), name@, value@),
{
    proof {
        lemma_bindings_of_props(entries@);
    }
    let ghost bs = bindings_of(old(entries)@);
    let mut i: usize = 0;
    while i < entries.len()
        invariant
            i <= entries@.len(),
            entries@ == old(entries)@,
            forall|j: int| 0 <= j < i ==> #[trigger] bs[j].0 != name@,
        decreases entries@.len() - i,
    {
        if entries[i].name == name {
            proof {
                lemma_index_of_name_determined(bs, name@, i as int);
            }
            let slot = &mut entries[i];
            *slot = Binding { name, value };
            proof {
                lemma_bindings_of_update(old(entries)@, i as int, entries@[i as int]);
                assert(entries@ == old(entries)@.update(i as int, entries@[i as int]));
            }
            return;
        }
        i = i + 1;
    }
    proof {
        lemma_index_of_name_determined(bs, name@, entries@.len() as int);
    }
    entries.push(Binding { name, value });
    proof {
        lemma_bindings_of_push(old(entries)@, Binding { name: name, value: value });
    }
}

/// Rebinding one position models as updating that position.
proof fn lemma_bindings_of_update(s: Seq<Binding>, i: int, b: Binding)
    requires
        0 <= i < s.len(),
    ensures
        bindings_of(s.update(i, b)) == bindings_of(s).update(i, b@),
    decreases s,
{
    lemma_bindings_of_props(s);
    lemma_bindings_of_props(s.update(i, b));
    assert forall|j: int| 0 <= j < s.len() implies bindings_of(s.update(i, b))[j] == bindings_of(
        s,
    ).update(i, b@)[j] by {
        if j == i {
            assert(s.update(i, b)[j] == b);
        } else {
            assert(s.update(i, b)[j] == s[j]);
        }
    }
    assert(bindings_of(s.update(i, b)) =~= bindings_of(s).update(i, b@));
}

/// Binding at the end models as pushing.
proof fn lemma_bindings_of_push(s: Seq<Binding>, b: Binding)
    ensures
        bindings_of(s.push(b)) == bindings_of(s).push(b@),
{
    assert(s.push(b).drop_last() =~= s);
    assert(s.push(b).last() == b);
}

} // verus!
