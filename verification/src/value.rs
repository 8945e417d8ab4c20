use vstd::prelude::*;

verus! {

/// Mathematical model of a host-runtime value, as far as the bridge reads it:
/// the primitive kinds it maps by value, sequences it maps element-wise, and
/// an opaque remainder identified only by its reference-counted handle.
#[verifier::ext_equal]
pub enum HostVal {
    /// The host's "absence" value.
    Absent,
    Bool(bool),
    Int(int),
    Str(Seq<char>),
    List(Seq<HostVal>),
    /// A host object with no direct guest equivalent; the `nat` identifies
    /// the underlying host object, so two `Opaque` values with the same
    /// identity are handles to the same object.
    Opaque(nat),
}

/// Mathematical model of a guest-evaluator value: the primitive and container
/// kinds the bridge translates structurally, the Foreign Object Adapter kind
/// wrapping a host object handle, and evaluator-internal kinds that have no
/// host representation.
#[verifier::ext_equal]
pub enum GuestVal {
    /// The guest's "absence" value.
    Absent,
    Bool(bool),
    Int(int),
    Str(Seq<char>),
    List(Seq<GuestVal>),
    /// A Foreign Object Adapter: a guest value that forwards every protocol
    /// operation to the host object identified by the handle.
    Foreign(nat),
    /// A guest-native value produced inside the evaluator (a script-defined
    /// function, or a kind added by an evaluator extension) that the bridge
    /// cannot translate into a host value.
    Internal(nat),
}

/// A host-runtime value as the bridge holds it.
#[derive(Debug, PartialEq, Eq)]
pub enum HostValue {
    Absent,
    Bool(bool),
    Int(i64),
    Str(String),
    List(Vec<HostValue>),
    Opaque(u64),
}

/// A guest-evaluator value as the bridge holds it.
#[derive(Debug, PartialEq, Eq)]
pub enum GuestValue {
    Absent,
    Bool(bool),
    Int(i64),
    Str(String),
    List(Vec<GuestValue>),
    Foreign(u64),
    Internal(u64),
}

/// Model of a sequence of host values, element-wise.
pub open spec fn host_seq_of(s: Seq<HostValue>) -> Seq<HostVal>
    decreases s,
{
    if s.len() == 0 {
        Seq::empty()
    } else {
        host_seq_of(s.drop_last()).push(host_val_of(s.last()))
    }
}

/// Model of a host value.
pub open spec fn host_val_of(v: HostValue) -> HostVal
    decreases v,
{
    match v {
        HostValue::Absent => HostVal::Absent,
        HostValue::Bool(b) => HostVal::Bool(b),
        HostValue::Int(i) => HostVal::Int(i as int),
        HostValue::Str(s) => HostVal::Str(s@),
        HostValue::List(xs) => HostVal::List(host_seq_of(xs@)),
        HostValue::Opaque(h) => HostVal::Opaque(h as nat),
    }
}

/// Model of a sequence of guest values, element-wise.
pub open spec fn guest_seq_of(s: Seq<GuestValue>) -> Seq<GuestVal>
    decreases s,
{
    if s.len() == 0 {
        Seq::empty()
    } else {
        guest_seq_of(s.drop_last()).push(guest_val_of(s.last()))
    }
}

/// Model of a guest value.
pub open spec fn guest_val_of(v: GuestValue) -> GuestVal
    decreases v,
{
    match v {
        GuestValue::Absent => GuestVal::Absent,
        GuestValue::Bool(b) => GuestVal::Bool(b),
        GuestValue::Int(i) => GuestVal::Int(i as int),
        GuestValue::Str(s) => GuestVal::Str(s@),
        GuestValue::List(xs) => GuestVal::List(guest_seq_of(xs@)),
        GuestValue::Foreign(h) => GuestVal::Foreign(h as nat),
        GuestValue::Internal(h) => GuestVal::Internal(h as nat),
    }
}

impl View for HostValue {
    type V = HostVal;

    open spec fn view(&self) -> HostVal {
        host_val_of(*self)
    }
}

impl View for GuestValue {
    type V = GuestVal;

    open spec fn view(&self) -> GuestVal {
        guest_val_of(*self)
    }
}

/// The model of a host sequence keeps its length.
pub proof fn lemma_host_seq_of_len(s: Seq<HostValue>)
    ensures
        host_seq_of(s).len() == s.len(),
    decreases s,
{
    if s.len() > 0 {
        lemma_host_seq_of_len(s.drop_last());
    }
}

/// Each element of a guest sequence is modelled at its own index.
pub proof fn lemma_guest_seq_of_index(s: Seq<GuestValue>, i: int)
    requires
        0 <= i < s.len(),
    ensures
        guest_seq_of(s).len() == s.len(),
        guest_seq_of(s)[i] == guest_val_of(s[i]),
    decreases s,
{
    if i < s.len() - 1 {
        lemma_guest_seq_of_index(s.drop_last(), i);
    } else {
        lemma_guest_seq_of_len(s.drop_last());
    }
}

/// A copy of a guest value, equal to the original in the model.
#[verifier::loop_isolation(false)]
pub fn copy_guest_value(v: &GuestValue) -> (r: GuestValue)
    ensures
        r@ == v@,
    decreases *v,
{
    match v {
        GuestValue::Absent => GuestValue::Absent,
        GuestValue::Bool(b) => GuestValue::Bool(*b),
        GuestValue::Int(i) => GuestValue::Int(*i),
        GuestValue::Str(s) => GuestValue::Str(s.clone()),
        GuestValue::Foreign(id) => GuestValue::Foreign(*id),
        GuestValue::Internal(id) => GuestValue::Internal(*id),
        GuestValue::List(xs) => {
            let mut out: Vec<GuestValue> = Vec::new();
            let mut i: usize = 0;
            while i < xs.len()
                invariant
                    i <= xs.len(),
                    out@.len() == i,
                    forall|j: int| 0 <= j < i ==> #[trigger] out@[j]@ == xs@[j]@,
                decreases xs.len() - i,
            {
                proof {
                    assert(decreases_to!(*v => (*v)->List_0));
                    assert((*v)->List_0 == *xs);
                    assert(decreases_to!(*xs => xs@[i as int]));
                }
                let c = copy_guest_value(&xs[i]);
                out.push(c);
                i = i + 1;
            }
            proof {
                lemma_guest_seq_pointwise(xs@, out@);
            }
            GuestValue::List(out)
        },
    }
}

/// Two guest sequences whose elements share a model share a model.
proof fn lemma_guest_seq_pointwise(a: Seq<GuestValue>, b: Seq<GuestValue>)
    requires
        b.len() == a.len(),
        forall|j: int| 0 <= j < a.len() ==> #[trigger] b[j]@ == a[j]@,
    ensures
        guest_seq_of(b) == guest_seq_of(a),
    decreases a,
{
    if a.len() > 0 {
        assert(forall|j: int| 0 <= j < a.len() - 1 ==> #[trigger] b.drop_last()[j]@
            == a.drop_last()[j]@);
        lemma_guest_seq_pointwise(a.drop_last(), b.drop_last());
        assert(b[a.len() - 1]@ == a[a.len() - 1]@);
    }
}

/// The model of a guest sequence keeps its length.
pub proof fn lemma_guest_seq_of_len(s: Seq<GuestValue>)
    ensures
        guest_seq_of(s).len() == s.len(),
    decreases s,
{
    if s.len() > 0 {
        lemma_guest_seq_of_len(s.drop_last());
    }
}

} // verus!
