use vstd::prelude::*;

verus! {

/// The optional named bundles of extra built-in bindings that the guest
/// evaluator offers beyond its standard library. A namespace builder records
/// which of these were selected; the evaluator installs the corresponding
/// bindings when the namespace is put to use.
#[derive(Clone, Copy, Debug, PartialEq, Eq, Hash, Structural)]
pub enum LibraryExtension {
    /// Support for the `struct` type and the `struct()` constructor.
    StructType,
    /// Support for the `record` type, `record()` and `field()`.
    RecordType,
    /// Support for the `enum` type and the `enum()` constructor.
    EnumType,
    /// A function `map(f, xs)` applying `f` to each element of `xs`.
    MapEach,
    /// A function `filter(f, xs)` keeping the elements on which `f` holds.
    Filter,
    /// Partial application: `partial(f, *args, **kwargs)`.
    Partial,
    /// A function `debug(x)` showing an internal representation of a value.
    Debug,
    /// A function `print(x)` printing to the standard error stream.
    Print,
    /// A function `pprint(x)` pretty-printing to the standard error stream.
    Pprint,
    /// A function `breakpoint()` dropping into an evaluation prompt.
    Breakpoint,
    /// A function `json()` generating JSON for a module.
    Json,
    /// Typing helpers such as `typing.All` and `typing.Callable`.
    Typing,
    /// Utilities exposing evaluator internals; not for production use.
    Internal,
    /// A function `call_stack()` returning a rendering of the call stack.
    CallStack,
}

impl LibraryExtension {
    /// The stable numeric code of each extension, used as its hash value on
    /// the host side.
    pub open spec fn code_spec(self) -> u64 {
        match self {
            LibraryExtension::StructType => 0,
            LibraryExtension::RecordType => 1,
            LibraryExtension::EnumType => 2,
            LibraryExtension::MapEach => 3,
            LibraryExtension::Filter => 4,
            LibraryExtension::Partial => 5,
            LibraryExtension::Debug => 6,
            LibraryExtension::Print => 7,
            LibraryExtension::Pprint => 8,
            LibraryExtension::Breakpoint => 9,
            LibraryExtension::Json => 10,
            LibraryExtension::Typing => 11,
            LibraryExtension::Internal => 12,
            LibraryExtension::CallStack => 13,
        }
    }

    /// Numeric code of the extension; doubles as its host-side hash value.
    pub fn code(&self) -> (r: u64)
        ensures
            r == self.code_spec(),
    {
        match self {
            LibraryExtension::StructType => 0,
            LibraryExtension::RecordType => 1,
            LibraryExtension::EnumType => 2,
            LibraryExtension::MapEach => 3,
            LibraryExtension::Filter => 4,
            LibraryExtension::Partial => 5,
            LibraryExtension::Debug => 6,
            LibraryExtension::Print => 7,
            LibraryExtension::Pprint => 8,
            LibraryExtension::Breakpoint => 9,
            LibraryExtension::Json => 10,
            LibraryExtension::Typing => 11,
            LibraryExtension::Internal => 12,
            LibraryExtension::CallStack => 13,
        }
    }

    /// Structural equality, the meaning of `==` between two extensions.
    pub fn same_as(&self, other: &LibraryExtension) -> (r: bool)
        ensures
            r == (*self == *other),
    {
        self.code() == other.code()
    }
}

/// Distinct extensions have distinct codes, so the code is a faithful
/// host-side hash: equal codes mean equal extensions.
pub proof fn lemma_code_injective(a: LibraryExtension, b: LibraryExtension)
    ensures
        a.code_spec() == b.code_spec() <==> a == b,
{
}

/// Collects a caller-supplied selection of extensions, in order. Each slot
/// holds the extension the caller's item stood for, or nothing where the item
/// was no extension; the first such item fails the whole selection, and the
/// error reports its position.
#[verifier::loop_isolation(false)]
pub fn collect_extensions(items: Vec<Option<LibraryExtension>>) -> (r: Result<
    Vec<LibraryExtension>,
    usize,
>)
    ensures
        (r is Ok) <==> (forall|i: int| 0 <= i < items@.len() ==> #[trigger] items@[i] is Some),
        r matches Ok(v) ==> v@.len() == items@.len() && (forall|i: int|
            0 <= i < items@.len() ==> #[trigger] v@[i] == items@[i]->0),
        r matches Err(k) ==> k < items@.len() && items@[k as int] is None && (forall|j: int|
            0 <= j < k ==> #[trigger] items@[j] is Some),
{
    let mut out: Vec<LibraryExtension> = Vec::new();
    let mut i: usize = 0;
    while i < items.len()
        invariant
            i <= items@.len(),
            out@.len() == i,
            forall|j: int| 0 <= j < i ==> #[trigger] items@[j] is Some,
            forall|j: int| 0 <= j < i ==> #[trigger] out@[j] == items@[j]->0,
        decreases items@.len() - i,
    {
        match &items[i] {
            Some(x) => {
                out.push(*x);
            },
            None => {
                return Err(i);
            },
        }
        i = i + 1;
    }
    Ok(out)
}

} // verus!
