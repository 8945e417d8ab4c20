use vstd::prelude::*;

use crate::errors::{GuestErr, GuestError};
use crate::value::{
    guest_seq_of, guest_val_of, host_seq_of, host_val_of, GuestVal, GuestValue, HostVal, HostValue,
};

verus! {

/// What the host-to-guest mapper makes of a sequence of host values.
pub open spec fn h2g_seq(s: Seq<HostVal>) -> Seq<GuestVal>
    decreases s,
{
    if s.len() == 0 {
        Seq::empty()
    } else {
        h2g_seq(s.drop_last()).push(h2g(s.last()))
    }
}

/// What the host-to-guest mapper makes of a host value: primitives map by
/// value, sequences element-wise, and everything else is wrapped in a Foreign
/// Object Adapter that keeps the host object's handle.
pub open spec fn h2g(h: HostVal) -> GuestVal
    decreases h,
{
    match h {
        HostVal::Absent => GuestVal::Absent,
        HostVal::Bool(b) => GuestVal::Bool(b),
        HostVal::Int(i) => GuestVal::Int(i),
        HostVal::Str(s) => GuestVal::Str(s),
        HostVal::List(xs) => GuestVal::List(h2g_seq(xs)),
        HostVal::Opaque(id) => GuestVal::Foreign(id),
    }
}

/// What the guest-to-host mapper makes of a sequence of guest values: the
/// element-wise translation, or nothing if any element has no host form.
pub open spec fn g2h_seq(s: Seq<GuestVal>) -> Option<Seq<HostVal>>
    decreases s,
{
    if s.len() == 0 {
        Some(Seq::empty())
    } else {
        match (g2h_seq(s.drop_last()), g2h(s.last())) {
            (Some(ys), Some(y)) => Some(ys.push(y)),
            _ => None,
        }
    }
}

/// What the guest-to-host mapper makes of a guest value: a Foreign Object
/// Adapter gives back the very host object it wraps, primitives and lists
/// translate structurally, and an evaluator-internal kind has no host form.
pub open spec fn g2h(g: GuestVal) -> Option<HostVal>
    decreases g,
{
    match g {
        GuestVal::Absent => Some(HostVal::Absent),
        GuestVal::Bool(b) => Some(HostVal::Bool(b)),
        GuestVal::Int(i) => Some(HostVal::Int(i)),
        GuestVal::Str(s) => Some(HostVal::Str(s)),
        GuestVal::List(xs) => match g2h_seq(xs) {
            Some(ys) => Some(HostVal::List(ys)),
            None => None,
        },
        GuestVal::Foreign(id) => Some(HostVal::Opaque(id)),
        GuestVal::Internal(_) => None,
    }
}

/// `g2h_seq` succeeds exactly when every element does, and then maps each
/// element at its own index.
pub proof fn lemma_g2h_seq_props(s: Seq<GuestVal>)
    ensures
        (g2h_seq(s) is Some) <==> (forall|i: int| 0 <= i < s.len() ==> #[trigger] g2h(s[i]) is Some),
        g2h_seq(s) is Some ==> g2h_seq(s)->Some_0.len() == s.len(),
        g2h_seq(s) is Some ==> forall|i: int|
            0 <= i < s.len() ==> #[trigger] g2h_seq(s)->Some_0[i] == g2h(s[i])->Some_0,
    decreases s,
{
    if s.len() > 0 {
        lemma_g2h_seq_props(s.drop_last());
        assert(s[s.len() - 1] == s.last());
        if forall|i: int| 0 <= i < s.len() ==> #[trigger] g2h(s[i]) is Some {
            assert forall|i: int| 0 <= i < s.drop_last().len() implies #[trigger] g2h(
                s.drop_last()[i],
            ) is Some by {
                assert(s.drop_last()[i] == s[i]);
            }
            assert(g2h_seq(s.drop_last()) is Some);
            assert(g2h_seq(s) is Some);
        }
        if g2h_seq(s) is Some {
            assert(g2h_seq(s.drop_last()) is Some && g2h(s.last()) is Some);
            assert forall|i: int| 0 <= i < s.len() implies #[trigger] g2h(s[i]) is Some by {
                if i < s.len() - 1 {
                    assert(s[i] == s.drop_last()[i]);
                    assert(g2h(s.drop_last()[i]) is Some);
                }
            }
            assert forall|i: int| 0 <= i < s.len() implies #[trigger] g2h_seq(s)->Some_0[i] == g2h(
                s[i],
            )->Some_0 by {
                if i < s.len() - 1 {
                    assert(s[i] == s.drop_last()[i]);
                    assert(g2h_seq(s.drop_last())->Some_0[i] == g2h(s.drop_last()[i])->Some_0);
                    assert(g2h_seq(s)->Some_0[i] == g2h_seq(s.drop_last())->Some_0[i]);
                }
            }
        }
    }
}

/// Converts a host value into a guest value. Primitive kinds are copied by
/// value, sequences are converted element-wise, and any other host object is
/// wrapped in a Foreign Object Adapter holding its handle, so the input stays
/// independently usable by host code. This direction never fails.
#[verifier::loop_isolation(false)]
pub fn host_to_guest(h: &HostValue) -> (g: GuestValue)
    ensures
        g@ == h2g(h@),
    decreases *h,
{
    match h {
        HostValue::Absent => GuestValue::Absent,
        HostValue::Bool(b) => GuestValue::Bool(*b),
        HostValue::Int(i) => GuestValue::Int(*i),
        HostValue::Str(s) => GuestValue::Str(s.clone()),
        HostValue::Opaque(id) => GuestValue::Foreign(*id),
        HostValue::List(xs) => {
            let mut out: Vec<GuestValue> = Vec::new();
            let mut i: usize = 0;
            while i < xs.len()
                invariant
                    i <= xs.len(),
                    out@.len() == i,
                    forall|j: int| 0 <= j < i ==> #[trigger] out@[j]@ == h2g(xs@[j]@),
                decreases xs.len() - i,
            {
                proof {
                    assert(decreases_to!(*h => (*h)->List_0));
                    assert((*h)->List_0 == *xs);
                    assert(decreases_to!(*xs => xs@[i as int]));
                }
                let g = host_to_guest(&xs[i]);
                out.push(g);
                i = i + 1;
            }
            proof {
                lemma_pointwise_h2g(xs@, out@);
            }
            GuestValue::List(out)
        },
    }
}

/// If a guest sequence is the pointwise host-to-guest image of a host
/// sequence, it is the image of that sequence as a whole.
proof fn lemma_pointwise_h2g(hs: Seq<HostValue>, gs: Seq<GuestValue>)
    requires
        gs.len() == hs.len(),
        forall|j: int| 0 <= j < hs.len() ==> #[trigger] gs[j]@ == h2g(hs[j]@),
    ensures
        guest_seq_of(gs) == h2g_seq(host_seq_of(hs)),
    decreases hs,
{
    if hs.len() > 0 {
        assert(forall|j: int|
            0 <= j < hs.len() - 1 ==> #[trigger] gs.drop_last()[j]@ == h2g(hs.drop_last()[j]@));
        lemma_pointwise_h2g(hs.drop_last(), gs.drop_last());
        crate::value::lemma_host_seq_of_len(hs.drop_last());
        assert(host_seq_of(hs).drop_last() =~= host_seq_of(hs.drop_last()));
        assert(gs[hs.len() - 1]@ == h2g(hs[hs.len() - 1]@));
    }
}

/// If a host sequence is the pointwise guest-to-host image of a guest
/// sequence, it is the image of that sequence as a whole.
pub proof fn lemma_pointwise_g2h(gs: Seq<GuestValue>, hs: Seq<HostValue>)
    requires
        hs.len() == gs.len(),
        forall|j: int| 0 <= j < gs.len() ==> #[trigger] g2h(gs[j]@) == Some(hs[j]@),
    ensures
        g2h_seq(guest_seq_of(gs)) == Some(host_seq_of(hs)),
    decreases gs,
{
    if gs.len() > 0 {
        assert(forall|j: int|
            0 <= j < gs.len() - 1 ==> #[trigger] g2h(gs.drop_last()[j]@) == Some(
                hs.drop_last()[j]@,
            ));
        lemma_pointwise_g2h(gs.drop_last(), hs.drop_last());
        crate::value::lemma_guest_seq_of_len(gs.drop_last());
        assert(guest_seq_of(gs).drop_last() =~= guest_seq_of(gs.drop_last()));
        assert(g2h(gs[gs.len() - 1]@) == Some(hs[hs.len() - 1]@));
    }
}

/// If one element of a guest sequence has no host form, the sequence as a
/// whole has none.
pub proof fn lemma_g2h_seq_none(gs: Seq<GuestVal>, i: int)
    requires
        0 <= i < gs.len(),
        g2h(gs[i]) is None,
    ensures
        g2h_seq(gs) is None,
{
    lemma_g2h_seq_props(gs);
}

/// Converts a guest value into a host value. A Foreign Object Adapter gives
/// back the handle of the very host object it wraps; primitives and lists
/// translate structurally; an evaluator-internal kind is reported as having
/// no host representation. Succeeds if and only if no evaluator-internal
/// value occurs anywhere inside the input.
#[verifier::loop_isolation(false)]
pub fn guest_to_host(g: &GuestValue) -> (r: Result<HostValue, GuestError>)
    ensures
        r is Ok <==> g2h(g@) is Some,
        r matches Ok(h) ==> Some(h@) == g2h(g@),
        r matches Err(e) ==> e@ == GuestErr::Unrepresentable,
    decreases *g,
{
    match g {
        GuestValue::Absent => Ok(HostValue::Absent),
        GuestValue::Bool(b) => Ok(HostValue::Bool(*b)),
        GuestValue::Int(i) => Ok(HostValue::Int(*i)),
        GuestValue::Str(s) => Ok(HostValue::Str(s.clone())),
        GuestValue::Foreign(id) => Ok(HostValue::Opaque(*id)),
        GuestValue::Internal(_) => Err(GuestError::Unrepresentable),
        GuestValue::List(xs) => {
            let mut out: Vec<HostValue> = Vec::new();
            let mut i: usize = 0;
            while i < xs.len()
                invariant
                    i <= xs.len(),
                    out@.len() == i,
                    forall|j: int| 0 <= j < i ==> #[trigger] g2h(xs@[j]@) == Some(out@[j]@),
                decreases xs.len() - i,
            {
                proof {
                    assert(decreases_to!(*g => (*g)->List_0));
                    assert((*g)->List_0 == *xs);
                    assert(decreases_to!(*xs => xs@[i as int]));
                }
                match guest_to_host(&xs[i]) {
                    Ok(h) => {
                        proof {
                            assert(g2h(xs@[i as int]@) == Some(h@));
                        }
                        out.push(h);
                    },
                    Err(e) => {
                        proof {
                            crate::value::lemma_guest_seq_of_index(xs@, i as int);
                            lemma_g2h_seq_none(guest_seq_of(xs@), i as int);
                        }
                        return Err(e);
                    },
                }
                i = i + 1;
            }
            proof {
                lemma_pointwise_g2h(xs@, out@);
            }
            Ok(HostValue::List(out))
        },
    }
}

/// Round trip: a host value sent into the guest and back is reconstructed
/// exactly. For the kinds the mapper translates structurally this is
/// structural equality; for a host object wrapped in a Foreign Object Adapter
/// it is identity, since the adapter keeps the handle of the original object
/// and unwrapping returns that same handle, never a copy.
pub proof fn lemma_round_trip(h: HostVal)
    ensures
        g2h(h2g(h)) == Some(h),
    decreases h,
{
    match h {
        HostVal::List(xs) => {
            lemma_round_trip_seq(xs);
        },
        _ => {},
    }
}

/// Round trip of a sequence of host values, element-wise.
pub proof fn lemma_round_trip_seq(xs: Seq<HostVal>)
    ensures
        g2h_seq(h2g_seq(xs)) == Some(xs),
    decreases xs,
{
    if xs.len() == 0 {
        assert(g2h_seq(h2g_seq(xs)) == Some(xs)) by {
            assert(h2g_seq(xs) =~= Seq::<GuestVal>::empty());
            assert(g2h_seq(h2g_seq(xs))->Some_0 =~= xs);
        }
    } else {
        lemma_round_trip_seq(xs.drop_last());
        lemma_round_trip(xs.last());
        let gs = h2g_seq(xs);
        assert(gs.drop_last() =~= h2g_seq(xs.drop_last()));
        assert(g2h_seq(gs)->Some_0 =~= xs);
    }
}

/// Identity round trip for a host object with no direct guest equivalent:
/// wrapping it in a Foreign Object Adapter and unwrapping again yields a
/// handle to the same underlying host object, not a copy.
pub proof fn lemma_foreign_identity(id: nat)
    ensures
        h2g(HostVal::Opaque(id)) == GuestVal::Foreign(id),
        g2h(GuestVal::Foreign(id)) == Some(HostVal::Opaque(id)),
{
}

} // verus!
