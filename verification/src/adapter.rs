use vstd::prelude::*;
use vstd::string::StringExecFns;

use crate::convert::{g2h, g2h_seq, guest_to_host, h2g, host_to_guest};
use crate::convert::{lemma_g2h_seq_none, lemma_pointwise_g2h};
use crate::errors::{AdapterOp, GuestErr, GuestError, HostError};
use crate::value::{guest_seq_of, host_seq_of, host_val_of, GuestVal, GuestValue, HostVal, HostValue};

verus! {

/// An ordering verdict, as the guest value protocol reports one.
#[derive(Clone, Copy, Debug, PartialEq, Eq, Structural)]
pub enum GuestOrdering {
    Less,
    Equal,
    Greater,
}

/// A named (keyword) argument of a guest invocation.
#[derive(Debug, PartialEq, Eq)]
pub struct GuestNamedArg {
    pub name: String,
    pub value: GuestValue,
}

impl View for GuestNamedArg {
    type V = (Seq<char>, GuestVal);

    open spec fn view(&self) -> (Seq<char>, GuestVal) {
        (self.name@, self.value@)
    }
}

/// A named (keyword) argument of a host call.
#[derive(Debug, PartialEq, Eq)]
pub struct HostNamedArg {
    pub name: String,
    pub value: HostValue,
}

impl View for HostNamedArg {
    type V = (Seq<char>, HostVal);

    open spec fn view(&self) -> (Seq<char>, HostVal) {
        (self.name@, self.value@)
    }
}

/// The model of a sequence of named guest arguments.
pub open spec fn guest_named_seq(s: Seq<GuestNamedArg>) -> Seq<(Seq<char>, GuestVal)> {
    s.map_values(|a: GuestNamedArg| a@)
}

/// The model of a sequence of named host arguments.
pub open spec fn host_named_seq(s: Seq<HostNamedArg>) -> Seq<(Seq<char>, HostVal)> {
    s.map_values(|a: HostNamedArg| a@)
}

/// What the guest-to-host mapper makes of a sequence of named arguments: the
/// names kept as they are, the values translated, or nothing if any value has
/// no host form.
pub open spec fn g2h_named(s: Seq<(Seq<char>, GuestVal)>) -> Option<Seq<(Seq<char>, HostVal)>>
    decreases s,
{
    if s.len() == 0 {
        Some(Seq::empty())
    } else {
        match (g2h_named(s.drop_last()), g2h(s.last().1)) {
            (Some(ys), Some(y)) => Some(ys.push((s.last().0, y))),
            _ => None,
        }
    }
}

/// `g2h_named` succeeds exactly when every value does.
pub proof fn lemma_g2h_named_props(s: Seq<(Seq<char>, GuestVal)>)
    ensures
        (g2h_named(s) is Some) <==> (forall|i: int|
            0 <= i < s.len() ==> #[trigger] g2h(s[i].1) is Some),
    decreases s,
{
    if s.len() > 0 {
        lemma_g2h_named_props(s.drop_last());
        assert(s[s.len() - 1] == s.last());
        if forall|i: int| 0 <= i < s.len() ==> #[trigger] g2h(s[i].1) is Some {
            assert forall|i: int| 0 <= i < s.drop_last().len() implies #[trigger] g2h(
                s.drop_last()[i].1,
            ) is Some by {
                assert(s.drop_last()[i] == s[i]);
            }
            assert(g2h_named(s.drop_last()) is Some);
            assert(g2h_named(s) is Some);
        }
        if g2h_named(s) is Some {
            assert(g2h_named(s.drop_last()) is Some && g2h(s.last().1) is Some);
            assert forall|i: int| 0 <= i < s.len() implies #[trigger] g2h(s[i].1) is Some by {
                if i < s.len() - 1 {
                    assert(s[i] == s.drop_last()[i]);
                    assert(g2h(s.drop_last()[i].1) is Some);
                }
            }
        }
    }
}

/// If one named value has no host form, the whole argument list has none.
proof fn lemma_g2h_named_none(s: Seq<(Seq<char>, GuestVal)>, i: int)
    requires
        0 <= i < s.len(),
        g2h(s[i].1) is None,
    ensures
        g2h_named(s) is None,
{
    lemma_g2h_named_props(s);
}

/// If a host argument list is the pointwise guest-to-host image of a guest
/// argument list, names kept, it is the image of that list as a whole.
proof fn lemma_pointwise_g2h_named(gs: Seq<GuestNamedArg>, hs: Seq<HostNamedArg>)
    requires
        hs.len() == gs.len(),
        forall|j: int| 0 <= j < gs.len() ==> #[trigger] g2h(gs[j].value@) == Some(hs[j].value@),
        forall|j: int| 0 <= j < gs.len() ==> #[trigger] hs[j].name@ == gs[j].name@,
    ensures
        g2h_named(guest_named_seq(gs)) == Some(host_named_seq(hs)),
    decreases gs,
{
    if gs.len() == 0 {
        assert(guest_named_seq(gs) =~= Seq::<(Seq<char>, GuestVal)>::empty());
        assert(g2h_named(guest_named_seq(gs))->Some_0 =~= host_named_seq(hs));
    } else {
        lemma_pointwise_g2h_named(gs.drop_last(), hs.drop_last());
        let gseq = guest_named_seq(gs);
        assert(gseq.drop_last() =~= guest_named_seq(gs.drop_last()));
        assert(gseq.last() == gs[gs.len() - 1]@);
        assert(g2h(gseq.last().1) == Some(hs[hs.len() - 1].value@));
        assert(g2h_named(gseq)->Some_0 =~= host_named_seq(hs));
    }
}

/// The arguments of a host call, ready for the host: the positional values
/// in order, and the named values with their names, or no named table at all
/// when the invocation had no named arguments.
#[derive(Debug, PartialEq, Eq)]
pub struct PreparedCall {
    pub positional: Vec<HostValue>,
    pub named: Option<Vec<HostNamedArg>>,
}

impl View for PreparedCall {
    type V = (Seq<HostVal>, Option<Seq<(Seq<char>, HostVal)>>);

    open spec fn view(&self) -> (Seq<HostVal>, Option<Seq<(Seq<char>, HostVal)>>) {
        (
            host_seq_of(self.positional@),
            match self.named {
                Option::None => Option::None,
                Option::Some(v) => Option::Some(host_named_seq(v@)),
            },
        )
    }
}

/// Truthiness of a host object as the guest sees it: the host's own verdict,
/// or truthy when the host probe fails, since the guest protocol offers no
/// error channel for truthiness.
pub open spec fn spec_truthiness(outcome: Result<bool, HostError>) -> bool {
    match outcome {
        Result::Ok(b) => b,
        Result::Err(_) => true,
    }
}

/// The guest hash of a host object: exactly the hash the host reports, or a
/// guest-level delegation error when the host cannot hash the object.
pub open spec fn spec_hash(outcome: Result<i64, HostError>) -> Result<i64, GuestErr> {
    match outcome {
        Result::Ok(h) => Result::Ok(h),
        Result::Err(e) => Result::Err(GuestErr::Delegation { op: AdapterOp::Hash, message: e@ }),
    }
}

/// A boolean verdict delegated to the host (equality, membership): the host's
/// own verdict, or a guest-level delegation error tagged with the operation.
pub open spec fn spec_verdict(op: AdapterOp, outcome: Result<bool, HostError>) -> Result<
    bool,
    GuestErr,
> {
    match outcome {
        Result::Ok(b) => Result::Ok(b),
        Result::Err(e) => Result::Err(GuestErr::Delegation { op, message: e@ }),
    }
}

/// An ordering verdict delegated to the host, or a delegation error.
pub open spec fn spec_ordering(outcome: Result<GuestOrdering, HostError>) -> Result<
    GuestOrdering,
    GuestErr,
> {
    match outcome {
        Result::Ok(o) => Result::Ok(o),
        Result::Err(e) => Result::Err(
            GuestErr::Delegation { op: AdapterOp::Ordering, message: e@ },
        ),
    }
}

/// The guest length of a host object: the host's length, truncated into the
/// guest protocol's length type, or a delegation error.
pub open spec fn spec_length(outcome: Result<usize, HostError>) -> Result<i32, GuestErr> {
    match outcome {
        Result::Ok(n) => Result::Ok(n as i32),
        Result::Err(e) => Result::Err(GuestErr::Delegation { op: AdapterOp::Length, message: e@ }),
    }
}

/// An attribute read delegated to the host: the value converted back into a
/// guest value, or "attribute absent" when the host read fails, since the
/// guest protocol's attribute-read hook has no error channel.
pub open spec fn spec_attr_read(outcome: Result<HostValue, HostError>) -> Option<GuestVal> {
    match outcome {
        Result::Ok(h) => Option::Some(h2g(h@)),
        Result::Err(_) => Option::None,
    }
}

/// An attribute-existence probe delegated to the host: the host's verdict, or
/// "absent" when the probe fails, since this hook has no error channel either.
pub open spec fn spec_attr_exists(outcome: Result<bool, HostError>) -> bool {
    match outcome {
        Result::Ok(b) => b,
        Result::Err(_) => false,
    }
}

/// An attribute write delegated to the host: success, or a guest-level
/// delegation error; this hook does have an error channel, so a host failure
/// is propagated, never defaulted.
pub open spec fn spec_attr_write(outcome: Result<(), HostError>) -> Result<(), GuestErr> {
    match outcome {
        Result::Ok(_) => Result::Ok(()),
        Result::Err(e) => Result::Err(
            GuestErr::Delegation { op: AdapterOp::AttrWrite, message: e@ },
        ),
    }
}

/// The result of a host call made on behalf of a guest invocation: the host's
/// return value converted into a guest value, or a delegation error.
pub open spec fn spec_call_result(outcome: Result<HostValue, HostError>) -> Result<
    GuestVal,
    GuestErr,
> {
    match outcome {
        Result::Ok(h) => Result::Ok(h2g(h@)),
        Result::Err(e) => Result::Err(
            GuestErr::Delegation { op: AdapterOp::Invocation, message: e@ },
        ),
    }
}

/// The guest arguments of an invocation, as they arrive from the evaluator:
/// either unpacked, or the evaluator's complaint that they cannot be.
pub open spec fn positions_view(p: Result<Vec<GuestValue>, String>) -> Result<
    Seq<GuestVal>,
    Seq<char>,
> {
    match p {
        Result::Ok(v) => Result::Ok(guest_seq_of(v@)),
        Result::Err(m) => Result::Err(m@),
    }
}

/// The named guest arguments of an invocation, as they arrive.
pub open spec fn named_args_view(p: Result<Vec<GuestNamedArg>, String>) -> Result<
    Seq<(Seq<char>, GuestVal)>,
    Seq<char>,
> {
    match p {
        Result::Ok(v) => Result::Ok(guest_named_seq(v@)),
        Result::Err(m) => Result::Err(m@),
    }
}

/// The message prefix put before the evaluator's complaint when positional
/// arguments cannot be unpacked.
pub open spec fn positional_unpack_prefix() -> Seq<char> {
    "failed to unpack guest positional arguments: "@
}

/// The message prefix put before the evaluator's complaint when named
/// arguments cannot be unpacked.
pub open spec fn named_unpack_prefix() -> Seq<char> {
    "failed to unpack guest named arguments: "@
}

/// How a guest invocation's arguments become the arguments of a host call.
/// An argument list that cannot be unpacked is an argument-shape error: the
/// host call is never attempted, and the error says whether the positional or
/// the named side was at fault. A value with no host form is a conversion
/// error. Otherwise every positional value is translated in order, every
/// named value is translated with its name kept, and an invocation without
/// named arguments hands the host no named table at all.
pub open spec fn spec_prepare(
    positions: Result<Seq<GuestVal>, Seq<char>>,
    named: Result<Seq<(Seq<char>, GuestVal)>, Seq<char>>,
) -> Result<(Seq<HostVal>, Option<Seq<(Seq<char>, HostVal)>>), GuestErr> {
    match positions {
        Result::Err(m) => Result::Err(
            GuestErr::ArgShape { positional: true, message: positional_unpack_prefix() + m },
        ),
        Result::Ok(ps) => match g2h_seq(ps) {
            Option::None => Result::Err(GuestErr::Unrepresentable),
            Option::Some(hs) => match named {
                Result::Err(m) => Result::Err(
                    GuestErr::ArgShape { positional: false, message: named_unpack_prefix() + m },
                ),
                Result::Ok(ns) => match g2h_named(ns) {
                    Option::None => Result::Err(GuestErr::Unrepresentable),
                    Option::Some(hns) => Result::Ok(
                        (hs, if ns.len() == 0 { Option::None } else { Option::Some(hns) }),
                    ),
                },
            },
        },
    }
}

/// A Foreign Object Adapter: the guest value that stands for one opaque host
/// object. It owns nothing but the object's reference-counted handle; every
/// guest protocol operation is decided from the host's answer alone, by the
/// functions below, so the adapter's own identity never enters any verdict.
#[derive(Clone, Copy, Debug, PartialEq, Eq, Structural)]
pub struct ForeignAdapter {
    pub handle: u64,
}

impl ForeignAdapter {
    /// Wraps a host object's handle.
    pub fn wrap(handle: u64) -> (r: ForeignAdapter)
        ensures
            r.handle == handle,
    {
        ForeignAdapter { handle }
    }

    /// The guest value this adapter is.
    pub fn to_guest_value(&self) -> (r: GuestValue)
        ensures
            r@ == GuestVal::Foreign(self.handle as nat),
    {
        GuestValue::Foreign(self.handle)
    }

    /// Freezing an adapter is a no-op that keeps the same host handle: a
    /// frozen guest value wrapping a host object therefore still observes
    /// host-side mutation of that object. This is a deliberate relaxation of
    /// the freeze invariant, not an oversight.
    pub fn freeze(self) -> (r: ForeignAdapter)
        ensures
            r == self,
    {
        self
    }

    /// Truthiness, defaulting to truthy when the host probe fails.
    pub fn to_bool(&self, outcome: Result<bool, HostError>) -> (r: bool)
        ensures
            r == spec_truthiness(outcome),
    {
        match outcome {
            Ok(b) => b,
            Err(_) => true,
        }
    }

    /// The hash value to write for this adapter: exactly the host's hash.
    pub fn write_hash(&self, outcome: Result<i64, HostError>) -> (r: Result<i64, GuestError>)
        ensures
            (match r {
                Ok(h) => Result::<i64, GuestErr>::Ok(h),
                Err(e) => Result::Err(e@),
            }) == spec_hash(outcome),
    {
        match outcome {
            Ok(h) => Ok(h),
            Err(e) => Err(
                GuestError::Delegation { op: AdapterOp::Hash, message: e.message },
            ),
        }
    }

    /// Equality with another guest value: exactly the host's verdict.
    pub fn equals(&self, outcome: Result<bool, HostError>) -> (r: Result<bool, GuestError>)
        ensures
            (match r {
                Ok(b) => Result::<bool, GuestErr>::Ok(b),
                Err(e) => Result::Err(e@),
            }) == spec_verdict(AdapterOp::Equality, outcome),
    {
        match outcome {
            Ok(b) => Ok(b),
            Err(e) => Err(
                GuestError::Delegation { op: AdapterOp::Equality, message: e.message },
            ),
        }
    }

    /// Ordering against another guest value: exactly the host's verdict.
    pub fn compare(&self, outcome: Result<GuestOrdering, HostError>) -> (r: Result<
        GuestOrdering,
        GuestError,
    >)
        ensures
            (match r {
                Ok(o) => Result::<GuestOrdering, GuestErr>::Ok(o),
                Err(e) => Result::Err(e@),
            }) == spec_ordering(outcome),
    {
        match outcome {
            Ok(o) => Ok(o),
            Err(e) => Err(
                GuestError::Delegation { op: AdapterOp::Ordering, message: e.message },
            ),
        }
    }

    /// Membership of another guest value in this host object: the host's
    /// verdict.
    pub fn is_in(&self, outcome: Result<bool, HostError>) -> (r: Result<bool, GuestError>)
        ensures
            (match r {
                Ok(b) => Result::<bool, GuestErr>::Ok(b),
                Err(e) => Result::Err(e@),
            }) == spec_verdict(AdapterOp::Membership, outcome),
    {
        match outcome {
            Ok(b) => Ok(b),
            Err(e) => Err(
                GuestError::Delegation { op: AdapterOp::Membership, message: e.message },
            ),
        }
    }

    /// The guest length of this host object, truncated into the protocol's
    /// length type.
    pub fn length(&self, outcome: Result<usize, HostError>) -> (r: Result<i32, GuestError>)
        ensures
            (match r {
                Ok(n) => Result::<i32, GuestErr>::Ok(n),
                Err(e) => Result::Err(e@),
            }) == spec_length(outcome),
    {
        match outcome {
            Ok(n) => Ok(#[verifier::truncate] (n as i32)),
            Err(e) => Err(
                GuestError::Delegation { op: AdapterOp::Length, message: e.message },
            ),
        }
    }

    /// Translates a guest invocation's arguments into host call arguments,
    /// as `spec_prepare` lays down.
    #[verifier::loop_isolation(false)]
    pub fn prepare_call(
        &self,
        positions: Result<Vec<GuestValue>, String>,
        named: Result<Vec<GuestNamedArg>, String>,
    ) -> (r: Result<PreparedCall, GuestError>)
        ensures
            (match r {
                Ok(pc) => Result::<_, GuestErr>::Ok(pc@),
                Err(e) => Result::Err(e@),
            }) == spec_prepare(positions_view(positions), named_args_view(named)),
    {
        let ps = match positions {
            Ok(ps) => ps,
            Err(m) => {
                return Err(
                    GuestError::ArgShape {
                        positional: true,
                        message: String::from_str(
                            "failed to unpack guest positional arguments: ",
                        ).concat(m.as_str()),
                    },
                );
            },
        };
        let mut hs: Vec<HostValue> = Vec::new();
        let mut i: usize = 0;
        while i < ps.len()
            invariant
                i <= ps.len(),
                hs@.len() == i,
                forall|j: int| 0 <= j < i ==> #[trigger] g2h(ps@[j]@) == Some(hs@[j]@),
            decreases ps.len() - i,
        {
            match guest_to_host(&ps[i]) {
                Ok(h) => {
                    hs.push(h);
                },
                Err(e) => {
                    proof {
                        crate::value::lemma_guest_seq_of_index(ps@, i as int);
                        lemma_g2h_seq_none(guest_seq_of(ps@), i as int);
                    }
                    return Err(e);
                },
            }
            i = i + 1;
        }
        proof {
            lemma_pointwise_g2h(ps@, hs@);
        }
        let ns = match named {
            Ok(ns) => ns,
            Err(m) => {
                return Err(
                    GuestError::ArgShape {
                        positional: false,
                        message: String::from_str(
                            "failed to unpack guest named arguments: ",
                        ).concat(m.as_str()),
                    },
                );
            },
        };
        let mut hn: Vec<HostNamedArg> = Vec::new();
        let mut k: usize = 0;
        while k < ns.len()
            invariant
                k <= ns.len(),
                hn@.len() == k,
                forall|j: int| 0 <= j < k ==> #[trigger] g2h(ns@[j].value@) == Some(hn@[j].value@),
                forall|j: int| 0 <= j < k ==> #[trigger] hn@[j].name@ == ns@[j].name@,
            decreases ns.len() - k,
        {
            match guest_to_host(&ns[k].value) {
                Ok(h) => {
                    hn.push(HostNamedArg { name: ns[k].name.clone(), value: h });
                },
                Err(e) => {
                    proof {
                        assert(guest_named_seq(ns@)[k as int] == ns@[k as int]@);
                        lemma_g2h_named_none(guest_named_seq(ns@), k as int);
                    }
                    return Err(e);
                },
            }
            k = k + 1;
        }
        proof {
            lemma_pointwise_g2h_named(ns@, hn@);
        }
        let named_out: Option<Vec<HostNamedArg>> = if ns.len() == 0 {
            None
        } else {
            Some(hn)
        };
        Ok(PreparedCall { positional: hs, named: named_out })
    }

    /// The guest value of a host call's result.
    pub fn invoke_outcome(&self, outcome: Result<HostValue, HostError>) -> (r: Result<
        GuestValue,
        GuestError,
    >)
        ensures
            (match r {
                Ok(v) => Result::<GuestVal, GuestErr>::Ok(v@),
                Err(e) => Result::Err(e@),
            }) == spec_call_result(outcome),
    {
        match outcome {
            Ok(h) => Ok(host_to_guest(&h)),
            Err(e) => Err(
                GuestError::Delegation { op: AdapterOp::Invocation, message: e.message },
            ),
        }
    }

    /// An attribute read: the host's value converted back, or absent when the
    /// host read fails; this hook has no error channel, so no error is ever
    /// raised here.
    pub fn get_attr(&self, outcome: Result<HostValue, HostError>) -> (r: Option<GuestValue>)
        ensures
            (match r {
                Some(v) => Option::Some(v@),
                None => Option::None,
            }) == spec_attr_read(outcome),
    {
        match outcome {
            Ok(h) => Some(host_to_guest(&h)),
            Err(_) => None,
        }
    }

    /// An attribute-existence probe: the host's verdict, or absent when the
    /// probe fails; no error channel here either.
    pub fn has_attr(&self, outcome: Result<bool, HostError>) -> (r: bool)
        ensures
            r == spec_attr_exists(outcome),
    {
        match outcome {
            Ok(b) => b,
            Err(_) => false,
        }
    }

    /// The attribute directory of this host object. An entry the host cannot
    /// render as a string is a defect of the host object, excluded here
    /// rather than handled.
    pub fn dir_attr(&self, entries: Vec<Option<String>>) -> (r: Vec<String>)
        requires
            forall|i: int| 0 <= i < entries@.len() ==> #[trigger] entries@[i] is Some,
        ensures
            r@.len() == entries@.len(),
            forall|i: int| 0 <= i < entries@.len() ==> #[trigger] r@[i]@ == entries@[i]->0@,
    {
        let mut out: Vec<String> = Vec::new();
        let mut i: usize = 0;
        while i < entries.len()
            invariant
                i <= entries@.len(),
                out@.len() == i,
                forall|j: int| 0 <= j < entries@.len() ==> #[trigger] entries@[j] is Some,
                forall|j: int| 0 <= j < i ==> #[trigger] out@[j]@ == entries@[j]->0@,
            decreases entries@.len() - i,
        {
            match &entries[i] {
                Some(s) => {
                    out.push(s.clone());
                },
                None => {
                    proof {
                        assert(false);
                    }
                },
            }
            i = i + 1;
        }
        out
    }

    /// An attribute write: success, or the host's failure propagated as a
    /// guest-level error.
    pub fn set_attr(&self, outcome: Result<(), HostError>) -> (r: Result<(), GuestError>)
        ensures
            (match r {
                Ok(_) => Result::<(), GuestErr>::Ok(()),
                Err(e) => Result::Err(e@),
            }) == spec_attr_write(outcome),
    {
        match outcome {
            Ok(_) => Ok(()),
            Err(e) => Err(
                GuestError::Delegation { op: AdapterOp::AttrWrite, message: e.message },
            ),
        }
    }
}

/// Attribute-access asymmetry: a failing attribute read or existence probe
/// yields "absent" and never raises, while a failing attribute write raises a
/// guest-level delegation error. The asymmetry reproduces the shape of the
/// guest value protocol, which offers the probes no error channel.
pub proof fn lemma_attr_access_asymmetry(read_failure: HostError, write_failure: HostError)
    ensures
        spec_attr_read(Result::Err(read_failure)) is None,
        spec_attr_exists(Result::Err(read_failure)) == false,
        spec_attr_write(Result::Err(write_failure)) == Result::<(), GuestErr>::Err(
            GuestErr::Delegation { op: AdapterOp::AttrWrite, message: write_failure@ },
        ),
{
}

/// Hash/equality consistency: when the host reports the same hash for the
/// objects behind two adapters, the adapters hash identically, and when the
/// host deems the objects equal, the adapters compare equal as guest values.
/// Both verdicts are functions of the host's answers alone, so this holds
/// however the two handles were obtained.
pub proof fn lemma_hash_equality_consistency(
    hash_of_first: Result<i64, HostError>,
    hash_of_second: Result<i64, HostError>,
    equality: Result<bool, HostError>,
)
    requires
        hash_of_first is Ok,
        hash_of_second is Ok,
        hash_of_first->Ok_0 == hash_of_second->Ok_0,
        equality == Result::<bool, HostError>::Ok(true),
    ensures
        spec_hash(hash_of_first) == spec_hash(hash_of_second),
        spec_verdict(AdapterOp::Equality, equality) == Result::<bool, GuestErr>::Ok(true),
{
}

} // verus!
