use vstd::prelude::*;

use crate::extension::LibraryExtension;
use crate::value::{guest_val_of, GuestVal, GuestValue};

verus! {

/// Model of one namespace slot: either a plain guest value, or a nested
/// read-only sub-namespace, itself a list of named slots.
#[verifier::ext_equal]
pub enum NsVal {
    Leaf(GuestVal),
    Sub(Seq<(Seq<char>, NsVal)>),
}

/// A value installed in a namespace: a guest value bound directly, or a
/// nested sub-namespace of further bindings.
#[derive(Debug, PartialEq, Eq)]
pub enum NamespaceValue {
    Leaf(GuestValue),
    Sub(Vec<Binding>),
}

/// One name-to-value binding of a namespace.
#[derive(Debug, PartialEq, Eq)]
pub struct Binding {
    pub name: String,
    pub value: NamespaceValue,
}

/// Model of a sequence of bindings, in order.
pub open spec fn bindings_of(s: Seq<Binding>) -> Seq<(Seq<char>, NsVal)>
    decreases s,
{
    if s.len() == 0 {
        Seq::empty()
    } else {
        bindings_of(s.drop_last()).push((s.last().name@, ns_val_of(s.last().value)))
    }
}

/// Model of a namespace slot.
pub open spec fn ns_val_of(v: NamespaceValue) -> NsVal
    decreases v,
{
    match v {
        NamespaceValue::Leaf(g) => NsVal::Leaf(guest_val_of(g)),
        NamespaceValue::Sub(bs) => NsVal::Sub(bindings_of(bs@)),
    }
}

impl View for NamespaceValue {
    type V = NsVal;

    open spec fn view(&self) -> NsVal {
        ns_val_of(*self)
    }
}

impl View for Binding {
    type V = (Seq<char>, NsVal);

    open spec fn view(&self) -> (Seq<char>, NsVal) {
        (self.name@, ns_val_of(self.value))
    }
}

/// `bindings_of` models each binding at its own index.
pub proof fn lemma_bindings_of_props(s: Seq<Binding>)
    ensures
        bindings_of(s).len() == s.len(),
        forall|i: int| 0 <= i < s.len() ==> #[trigger] bindings_of(s)[i] == s[i]@,
    decreases s,
{
    if s.len() > 0 {
        lemma_bindings_of_props(s.drop_last());
    }
}

/// The index of the first binding of `name`, or the length when `name` is
/// not bound.
pub open spec fn index_of_name(entries: Seq<(Seq<char>, NsVal)>, name: Seq<char>) -> int
    decreases entries,
{
    if entries.len() == 0 {
        0
    } else if entries.first().0 == name {
        0
    } else {
        1 + index_of_name(entries.drop_first(), name)
    }
}

/// What the first binding of a name determines.
pub proof fn lemma_index_of_name_props(entries: Seq<(Seq<char>, NsVal)>, name: Seq<char>)
    ensures
        0 <= index_of_name(entries, name) <= entries.len(),
        index_of_name(entries, name) < entries.len() ==> entries[index_of_name(entries, name)].0
            == name,
        forall|j: int| 0 <= j < index_of_name(entries, name) ==> entries[j].0 != name,
    decreases entries,
{
    if entries.len() > 0 && entries.first().0 != name {
        lemma_index_of_name_props(entries.drop_first(), name);
        let rest = entries.drop_first();
        let i = index_of_name(entries, name);
        assert(i == 1 + index_of_name(rest, name));
        if i < entries.len() {
            assert(entries[i] == rest[i - 1]);
        }
        assert forall|j: int| 0 <= j < i implies entries[j].0 != name by {
            if j > 0 {
                assert(entries[j] == rest[j - 1]);
            }
        }
    }
}

/// A position that carries the name, with no earlier binding of it, is the
/// first binding of the name.
pub proof fn lemma_index_of_name_determined(
    entries: Seq<(Seq<char>, NsVal)>,
    name: Seq<char>,
    k: int,
)
    requires
        0 <= k <= entries.len(),
        k < entries.len() ==> entries[k].0 == name,
        k == entries.len() ==> forall|j: int| 0 <= j < entries.len() ==> entries[j].0 != name,
        forall|j: int| 0 <= j < k ==> entries[j].0 != name,
    ensures
        index_of_name(entries, name) == k,
    decreases entries,
{
    if entries.len() > 0 && entries.first().0 != name {
        let rest = entries.drop_first();
        assert forall|j: int| 0 <= j < k - 1 implies rest[j].0 != name by {
            assert(rest[j] == entries[j + 1]);
        }
        if k == entries.len() {
            assert forall|j: int| 0 <= j < rest.len() implies rest[j].0 != name by {
                assert(rest[j] == entries[j + 1]);
            }
        } else if k > 0 {
            assert(rest[k - 1] == entries[k]);
        }
        lemma_index_of_name_determined(rest, name, k - 1);
    }
}

/// The value reachable under a name: the one at the name's first binding.
/// Rebinding replaces in place, so a namespace built by this crate never
/// carries a second binding of the same name behind the first.
pub open spec fn lookup(entries: Seq<(Seq<char>, NsVal)>, name: Seq<char>) -> Option<NsVal> {
    let i = index_of_name(entries, name);
    if i < entries.len() {
        Some(entries[i].1)
    } else {
        None
    }
}

/// Model of a finalized namespace: its bindings in insertion order, the
/// standard-library choice and extension selection recorded for the
/// evaluator, and the optional documentation string.
#[verifier::ext_equal]
pub struct NamespaceModel {
    pub bindings: Seq<(Seq<char>, NsVal)>,
    pub standard: bool,
    pub extensions: Seq<LibraryExtension>,
    pub docstring: Option<Seq<char>>,
}

/// An immutable mapping from unique names to guest values, optionally
/// organized into a tree of named sub-namespaces, as guest script evaluation
/// consumes it. Built by a `NamespaceBuilder`; never mutated afterwards.
#[derive(Debug, PartialEq, Eq)]
pub struct Namespace {
    pub entries: Vec<Binding>,
    pub standard: bool,
    pub extensions: Vec<LibraryExtension>,
    pub docstring: Option<String>,
}

impl View for Namespace {
    type V = NamespaceModel;

    open spec fn view(&self) -> NamespaceModel {
        NamespaceModel {
            bindings: bindings_of(self.entries@),
            standard: self.standard,
            extensions: self.extensions@,
            docstring: match self.docstring {
                Option::Some(ref s) => Option::Some(s@),
                Option::None => Option::None,
            },
        }
    }
}

impl Namespace {
    /// An empty namespace with no standard library and no extensions.
    pub fn new() -> (r: Namespace)
        ensures
            r@.bindings == Seq::<(Seq<char>, NsVal)>::empty(),
            r@.standard == false,
            r@.extensions == Seq::<LibraryExtension>::empty(),
            r@.docstring is None,
    {
        Namespace {
            entries: Vec::new(),
            standard: false,
            extensions: Vec::new(),
            docstring: None,
        }
    }

    /// A namespace carrying the evaluator's standard library and nothing
    /// else.
    pub fn standard() -> (r: Namespace)
        ensures
            r@.bindings == Seq::<(Seq<char>, NsVal)>::empty(),
            r@.standard == true,
            r@.extensions == Seq::<LibraryExtension>::empty(),
            r@.docstring is None,
    {
        Namespace {
            entries: Vec::new(),
            standard: true,
            extensions: Vec::new(),
            docstring: None,
        }
    }

    /// A namespace carrying the standard library extended by the given
    /// extensions, in the order given.
    pub fn extended_by(extensions: Vec<LibraryExtension>) -> (r: Namespace)
        ensures
            r@.bindings == Seq::<(Seq<char>, NsVal)>::empty(),
            r@.standard == true,
            r@.extensions == extensions@,
            r@.docstring is None,
    {
        Namespace {
            entries: Vec::new(),
            standard: true,
            extensions,
            docstring: None,
        }
    }

    /// How many names are bound at the top level.
    pub fn len(&self) -> (r: usize)
        ensures
            r == self@.bindings.len(),
    {
        proof {
            lemma_bindings_of_props(self.entries@);
        }
        self.entries.len()
    }

    /// The value reachable under a name at the top level, if the name is
    /// bound.
    #[verifier::loop_isolation(false)]
    pub fn get(&self, name: &str) -> (r: Option<&NamespaceValue>)
        ensures
            (match r {
                Some(v) => Option::Some(v@),
                None => Option::None,
            }) == lookup(self@.bindings, name@),
    {
        let wanted = String::from_str(name);
        let ghost bs = bindings_of(self.entries@);
        proof {
            lemma_bindings_of_props(self.entries@);
        }
        let mut i: usize = 0;
        while i < self.entries.len()
            invariant
                i <= self.entries@.len(),
                forall|j: int| 0 <= j < i ==> #[trigger] bs[j].0 != name@,
            decreases self.entries@.len() - i,
        {
            if self.entries[i].name == wanted {
                proof {
                    lemma_index_of_name_determined(bs, name@, i as int);
                }
                return Some(&self.entries[i].value);
            }
            i = i + 1;
        }
        proof {
            lemma_index_of_name_determined(bs, name@, self.entries@.len() as int);
        }
        None
    }

    /// The optional documentation string attached when the namespace was
    /// built.
    pub fn docstring(&self) -> (r: Option<&String>)
        ensures
            (match r {
                Some(s) => Option::Some(s@),
                None => Option::None,
            }) == self@.docstring,
    {
        match &self.docstring {
            Some(s) => Some(s),
            None => None,
        }
    }

    /// Whether the namespace carries the evaluator's standard library.
    pub fn has_standard(&self) -> (r: bool)
        ensures
            r == self@.standard,
    {
        self.standard
    }

    /// The extensions selected for this namespace, in selection order.
    pub fn extensions(&self) -> (r: &Vec<LibraryExtension>)
        ensures
            r@ == self@.extensions,
    {
        &self.extensions
    }

    /// A lazy, forward-only walk over the bound names, in insertion order.
    pub fn names(&self) -> (r: NamesIter<'_>)
        ensures
            r.ns == self,
            r.index == 0,
    {
        NamesIter { ns: self, index: 0 }
    }

    /// A lazy, forward-only walk over the bindings, in insertion order.
    pub fn items(&self) -> (r: ItemsIter<'_>)
        ensures
            r.ns == self,
            r.index == 0,
    {
        ItemsIter { ns: self, index: 0 }
    }

    /// A human-readable description: one line per top-level name, in
    /// insertion order.
    #[verifier::loop_isolation(false)]
    pub fn describe(&self) -> (r: String)
        ensures
            r@ == describe_of(self@.bindings),
    {
        proof {
            lemma_bindings_of_props(self.entries@);
        }
        let ghost bs = bindings_of(self.entries@);
        let mut out = String::new();
        let mut i: usize = 0;
        while i < self.entries.len()
            invariant
                i <= self.entries@.len(),
                out@ == describe_of(bs.take(i as int)),
            decreases self.entries@.len() - i,
        {
            out.append(self.entries[i].name.as_str());
            out.append("\n");
            proof {
                let prefix = bs.take(i as int + 1);
                assert(prefix.drop_last() =~= bs.take(i as int));
                assert(prefix.last() == bs[i as int]);
                assert(out@ =~= describe_of(prefix));
            }
            i = i + 1;
        }
        proof {
            assert(bs.take(bs.len() as int) =~= bs);
        }
        out
    }
}

/// The description of a namespace: each top-level name followed by a line
/// break, in insertion order.
pub open spec fn describe_of(entries: Seq<(Seq<char>, NsVal)>) -> Seq<char>
    decreases entries,
{
    if entries.len() == 0 {
        Seq::empty()
    } else {
        describe_of(entries.drop_last()) + entries.last().0 + "\n"@
    }
}

/// A forward-only walk over a namespace's names. Reading it never changes
/// the namespace.
pub struct NamesIter<'a> {
    pub ns: &'a Namespace,
    pub index: usize,
}

impl<'a> NamesIter<'a> {
    /// The next name, or nothing once every name has been seen.
    pub fn next(&mut self) -> (r: Option<&'a String>)
        ensures
            final(self).ns == old(self).ns,
            (match r {
                Some(s) => old(self).index < old(self).ns@.bindings.len() && final(self).index
                    == old(self).index + 1 && s@ == old(self).ns@.bindings[
                    old(self).index as int].0,
                None => old(self).index >= old(self).ns@.bindings.len() && final(self).index
                    == old(self).index,
            }),
    {
        proof {
            lemma_bindings_of_props(self.ns.entries@);
        }
        if self.index < self.ns.entries.len() {
            let r = Some(&self.ns.entries[self.index].name);
            self.index = self.index + 1;
            r
        } else {
            None
        }
    }
}

/// A forward-only walk over a namespace's bindings. Reading it never changes
/// the namespace.
pub struct ItemsIter<'a> {
    pub ns: &'a Namespace,
    pub index: usize,
}

impl<'a> ItemsIter<'a> {
    /// The next binding, or nothing once every binding has been seen.
    pub fn next(&mut self) -> (r: Option<(&'a String, &'a NamespaceValue)>)
        ensures
            final(self).ns == old(self).ns,
            (match r {
                Some(p) => old(self).index < old(self).ns@.bindings.len() && final(self).index
                    == old(self).index + 1 && (p.0@, p.1@) == old(self).ns@.bindings[
                    old(self).index as int],
                None => old(self).index >= old(self).ns@.bindings.len() && final(self).index
                    == old(self).index,
            }),
    {
        proof {
            lemma_bindings_of_props(self.ns.entries@);
        }
        if self.index < self.ns.entries.len() {
            let b = &self.ns.entries[self.index];
            self.index = self.index + 1;
            Some((&b.name, &b.value))
        } else {
            None
        }
    }
}

} // verus!
