use xingque::{
    AdapterOp, ForeignAdapter, GuestError, GuestNamedArg, GuestOrdering, GuestValue, HostError,
    HostValue, guest_to_host, host_to_guest,
};

fn host_err(msg: &str) -> HostError {
    HostError { message: msg.to_string() }
}

#[test]
fn round_trip_primitives() {
    let values = vec![
        HostValue::Absent,
        HostValue::Bool(true),
        HostValue::Bool(false),
        HostValue::Int(0),
        HostValue::Int(-7),
        HostValue::Int(i64::MAX),
        HostValue::Str("hello".to_string()),
        HostValue::Str(String::new()),
    ];
    for v in values {
        let g = host_to_guest(&v);
        let back = guest_to_host(&g).expect("primitive must round-trip");
        assert_eq!(back, v);
    }
}

#[test]
fn round_trip_nested_list() {
    let v = HostValue::List(vec![
        HostValue::Int(1),
        HostValue::List(vec![HostValue::Str("x".to_string()), HostValue::Bool(false)]),
        HostValue::Absent,
    ]);
    let g = host_to_guest(&v);
    let back = guest_to_host(&g).expect("list must round-trip");
    assert_eq!(back, v);
}

#[test]
fn primitive_mapping_is_by_value() {
    assert_eq!(host_to_guest(&HostValue::Absent), GuestValue::Absent);
    assert_eq!(host_to_guest(&HostValue::Bool(true)), GuestValue::Bool(true));
    assert_eq!(host_to_guest(&HostValue::Int(5)), GuestValue::Int(5));
    assert_eq!(
        host_to_guest(&HostValue::Str("hi".to_string())),
        GuestValue::Str("hi".to_string())
    );
}

#[test]
fn identity_round_trip_for_opaque_objects() {
    let v = HostValue::Opaque(701);
    let g = host_to_guest(&v);
    assert_eq!(g, GuestValue::Foreign(701));
    let back = guest_to_host(&g).expect("adapter must unwrap");
    assert_eq!(back, HostValue::Opaque(701));
}

#[test]
fn identity_round_trip_inside_containers() {
    let v = HostValue::List(vec![HostValue::Opaque(3), HostValue::Int(2)]);
    let g = host_to_guest(&v);
    assert_eq!(
        g,
        GuestValue::List(vec![GuestValue::Foreign(3), GuestValue::Int(2)])
    );
    assert_eq!(guest_to_host(&g).unwrap(), v);
}

#[test]
fn internal_guest_value_has_no_host_form() {
    let r = guest_to_host(&GuestValue::Internal(9));
    assert_eq!(r, Err(GuestError::Unrepresentable));
    let r = guest_to_host(&GuestValue::List(vec![
        GuestValue::Int(1),
        GuestValue::Internal(9),
    ]));
    assert_eq!(r, Err(GuestError::Unrepresentable));
}

#[test]
fn adapter_wraps_and_freezes_same_handle() {
    let a = ForeignAdapter::wrap(17);
    assert_eq!(a.to_guest_value(), GuestValue::Foreign(17));
    let frozen = a.freeze();
    assert_eq!(frozen, a);
    assert_eq!(frozen.handle, 17);
}

#[test]
fn truthiness_defaults_to_truthy_on_host_failure() {
    let a = ForeignAdapter::wrap(1);
    assert_eq!(a.to_bool(Ok(false)), false);
    assert_eq!(a.to_bool(Ok(true)), true);
    assert_eq!(a.to_bool(Err(host_err("boom"))), true);
}

#[test]
fn hash_propagates_host_failure() {
    let a = ForeignAdapter::wrap(1);
    assert_eq!(a.write_hash(Ok(-12345)), Ok(-12345));
    assert_eq!(
        a.write_hash(Err(host_err("unhashable"))),
        Err(GuestError::Delegation {
            op: AdapterOp::Hash,
            message: "unhashable".to_string()
        })
    );
}

#[test]
fn equality_and_membership_report_host_verdict() {
    let a = ForeignAdapter::wrap(1);
    assert_eq!(a.equals(Ok(true)), Ok(true));
    assert_eq!(a.equals(Ok(false)), Ok(false));
    assert_eq!(
        a.equals(Err(host_err("no eq"))),
        Err(GuestError::Delegation {
            op: AdapterOp::Equality,
            message: "no eq".to_string()
        })
    );
    assert_eq!(a.is_in(Ok(true)), Ok(true));
    assert_eq!(
        a.is_in(Err(host_err("no contains"))),
        Err(GuestError::Delegation {
            op: AdapterOp::Membership,
            message: "no contains".to_string()
        })
    );
}

#[test]
fn ordering_reports_host_verdict() {
    let a = ForeignAdapter::wrap(1);
    assert_eq!(a.compare(Ok(GuestOrdering::Less)), Ok(GuestOrdering::Less));
    assert_eq!(
        a.compare(Err(host_err("unorderable"))),
        Err(GuestError::Delegation {
            op: AdapterOp::Ordering,
            message: "unorderable".to_string()
        })
    );
}

#[test]
fn length_truncates_into_guest_length_type() {
    let a = ForeignAdapter::wrap(1);
    assert_eq!(a.length(Ok(3)), Ok(3));
    assert_eq!(a.length(Ok(0)), Ok(0));
    assert_eq!(a.length(Ok(0x8000_0000usize)), Ok(i32::MIN));
    assert_eq!(
        a.length(Err(host_err("no len"))),
        Err(GuestError::Delegation {
            op: AdapterOp::Length,
            message: "no len".to_string()
        })
    );
}

#[test]
fn attribute_read_defaults_to_absent() {
    let a = ForeignAdapter::wrap(1);
    assert_eq!(
        a.get_attr(Ok(HostValue::Int(4))),
        Some(GuestValue::Int(4))
    );
    assert_eq!(a.get_attr(Err(host_err("missing"))), None);
}

#[test]
fn attribute_probe_defaults_to_absent() {
    let a = ForeignAdapter::wrap(1);
    assert_eq!(a.has_attr(Ok(true)), true);
    assert_eq!(a.has_attr(Ok(false)), false);
    assert_eq!(a.has_attr(Err(host_err("broken"))), false);
}

#[test]
fn attribute_write_raises_on_host_failure() {
    let a = ForeignAdapter::wrap(1);
    assert_eq!(a.set_attr(Ok(())), Ok(()));
    assert_eq!(
        a.set_attr(Err(host_err("read-only"))),
        Err(GuestError::Delegation {
            op: AdapterOp::AttrWrite,
            message: "read-only".to_string()
        })
    );
}

#[test]
fn attribute_access_asymmetry() {
    let a = ForeignAdapter::wrap(1);
    // a failing read stays silent while a failing write raises
    assert_eq!(a.get_attr(Err(host_err("same failure"))), None);
    assert!(matches!(
        a.set_attr(Err(host_err("same failure"))),
        Err(GuestError::Delegation { .. })
    ));
}

#[test]
fn hash_equality_consistency_across_independent_handles() {
    let a = ForeignAdapter::wrap(10);
    let b = ForeignAdapter::wrap(20);
    // the host deems the two objects equal and hashes both to 77
    assert_eq!(a.write_hash(Ok(77)), b.write_hash(Ok(77)));
    assert_eq!(a.equals(Ok(true)), Ok(true));
    assert_eq!(b.equals(Ok(true)), Ok(true));
}

#[test]
fn dir_attr_collects_entries() {
    let a = ForeignAdapter::wrap(1);
    let entries = vec![Some("alpha".to_string()), Some("beta".to_string())];
    assert_eq!(
        a.dir_attr(entries),
        vec!["alpha".to_string(), "beta".to_string()]
    );
    assert_eq!(a.dir_attr(Vec::new()), Vec::<String>::new());
}

#[test]
fn prepare_call_translates_arguments() {
    let a = ForeignAdapter::wrap(1);
    let pos = vec![GuestValue::Int(1), GuestValue::Str("a".to_string())];
    let named = vec![GuestNamedArg {
        name: "b".to_string(),
        value: GuestValue::Int(2),
    }];
    let pc = a.prepare_call(Ok(pos), Ok(named)).expect("must translate");
    assert_eq!(
        pc.positional,
        vec![HostValue::Int(1), HostValue::Str("a".to_string())]
    );
    let named = pc.named.expect("named arguments present");
    assert_eq!(named.len(), 1);
    assert_eq!(named[0].name, "b");
    assert_eq!(named[0].value, HostValue::Int(2));
}

#[test]
fn prepare_call_without_named_arguments_hands_no_table() {
    let a = ForeignAdapter::wrap(1);
    let pc = a
        .prepare_call(Ok(vec![GuestValue::Int(1)]), Ok(Vec::new()))
        .expect("must translate");
    assert!(pc.named.is_none());
}

#[test]
fn prepare_call_reports_positional_unpack_failure() {
    let a = ForeignAdapter::wrap(1);
    let r = a.prepare_call(Err("bad splat".to_string()), Ok(Vec::new()));
    assert_eq!(
        r,
        Err(GuestError::ArgShape {
            positional: true,
            message: "failed to unpack guest positional arguments: bad splat".to_string()
        })
    );
}

#[test]
fn prepare_call_reports_named_unpack_failure() {
    let a = ForeignAdapter::wrap(1);
    let r = a.prepare_call(Ok(Vec::new()), Err("bad kwargs".to_string()));
    assert_eq!(
        r,
        Err(GuestError::ArgShape {
            positional: false,
            message: "failed to unpack guest named arguments: bad kwargs".to_string()
        })
    );
}

#[test]
fn prepare_call_reports_untranslatable_argument() {
    let a = ForeignAdapter::wrap(1);
    let r = a.prepare_call(Ok(vec![GuestValue::Internal(1)]), Ok(Vec::new()));
    assert_eq!(r, Err(GuestError::Unrepresentable));
    let r = a.prepare_call(
        Ok(Vec::new()),
        Ok(vec![GuestNamedArg {
            name: "k".to_string(),
            value: GuestValue::Internal(1),
        }]),
    );
    assert_eq!(r, Err(GuestError::Unrepresentable));
}

#[test]
fn invoke_outcome_converts_host_result() {
    let a = ForeignAdapter::wrap(1);
    assert_eq!(
        a.invoke_outcome(Ok(HostValue::Str("out".to_string()))),
        Ok(GuestValue::Str("out".to_string()))
    );
    assert_eq!(
        a.invoke_outcome(Err(host_err("raised"))),
        Err(GuestError::Delegation {
            op: AdapterOp::Invocation,
            message: "raised".to_string()
        })
    );
}

#[test]
fn copied_guest_value_is_equal() {
    let v = GuestValue::List(vec![
        GuestValue::Foreign(4),
        GuestValue::Str("s".to_string()),
        GuestValue::List(vec![GuestValue::Int(1)]),
    ]);
    assert_eq!(xingque::copy_guest_value(&v), v);
}
