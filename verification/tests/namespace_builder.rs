use xingque::{
    collect_extensions, guest_to_host, host_to_guest, BuilderError, GuestValue, HostValue,
    LibraryExtension, Namespace, NamespaceBuilder, NamespaceValue,
};

#[test]
fn root_token_names_the_root_scope() {
    let b = NamespaceBuilder::new();
    assert_eq!(b.root_token(), 0);
}

#[test]
fn builder_is_one_shot() {
    let mut b = NamespaceBuilder::new();
    let root = b.root_token();
    assert_eq!(b.set(root, "x", GuestValue::Int(1)), Ok(()));
    assert!(b.build().is_ok());
    assert_eq!(b.build(), Err(BuilderError::Consumed));
    assert_eq!(
        b.set(root, "y", GuestValue::Int(2)),
        Err(BuilderError::Consumed)
    );
    assert_eq!(b.begin_struct(root, "ns"), Err(BuilderError::Consumed));
    assert_eq!(b.end_struct(root), Err(BuilderError::Consumed));
    assert_eq!(b.abort_struct(root), Err(BuilderError::Consumed));
    assert_eq!(b.set_docstring("doc"), Err(BuilderError::Consumed));
}

#[test]
fn last_write_wins() {
    let mut b = NamespaceBuilder::new();
    let root = b.root_token();
    b.set(root, "x", GuestValue::Int(1)).unwrap();
    b.set(root, "x", GuestValue::Int(2)).unwrap();
    let ns = b.build().unwrap();
    assert_eq!(ns.len(), 1);
    match ns.get("x") {
        Some(NamespaceValue::Leaf(v)) => assert_eq!(*v, GuestValue::Int(2)),
        other => panic!("unexpected binding: {:?}", other),
    }
    let mut names = ns.names();
    assert_eq!(names.next().map(String::as_str), Some("x"));
    assert!(names.next().is_none());
}

#[test]
fn rebinding_keeps_the_first_position() {
    let mut b = NamespaceBuilder::new();
    let root = b.root_token();
    b.set(root, "a", GuestValue::Int(1)).unwrap();
    b.set(root, "b", GuestValue::Int(2)).unwrap();
    b.set(root, "a", GuestValue::Int(3)).unwrap();
    let ns = b.build().unwrap();
    let mut names = ns.names();
    assert_eq!(names.next().map(String::as_str), Some("a"));
    assert_eq!(names.next().map(String::as_str), Some("b"));
    assert!(names.next().is_none());
}

#[test]
fn nested_namespace_isolation() {
    let mut b = NamespaceBuilder::new();
    let root = b.root_token();
    let sub = b.begin_struct(root, "ns").unwrap();
    assert_ne!(sub, root);
    // the enclosing handle is stale while the nested scope is open
    assert_eq!(
        b.set(root, "y", GuestValue::Int(0)),
        Err(BuilderError::StaleScope)
    );
    b.set(sub, "y", GuestValue::Str("hello".to_string())).unwrap();
    b.end_struct(sub).unwrap();
    // and the spent handle never works again
    assert_eq!(
        b.set(sub, "z", GuestValue::Int(0)),
        Err(BuilderError::StaleScope)
    );
    let ns = b.build().unwrap();
    assert!(ns.get("y").is_none());
    match ns.get("ns") {
        Some(NamespaceValue::Sub(entries)) => {
            assert_eq!(entries.len(), 1);
            assert_eq!(entries[0].name, "y");
            assert_eq!(
                entries[0].value,
                NamespaceValue::Leaf(GuestValue::Str("hello".to_string()))
            );
        }
        other => panic!("unexpected binding: {:?}", other),
    }
}

#[test]
fn aborted_scope_leaves_parent_unchanged() {
    let mut b = NamespaceBuilder::new();
    let root = b.root_token();
    b.set(root, "kept", GuestValue::Int(1)).unwrap();
    let sub = b.begin_struct(root, "ns").unwrap();
    b.set(sub, "lost", GuestValue::Int(2)).unwrap();
    b.abort_struct(sub).unwrap();
    // the parent is still building and has no new child
    b.set(root, "more", GuestValue::Int(3)).unwrap();
    let ns = b.build().unwrap();
    assert!(ns.get("ns").is_none());
    assert!(ns.get("lost").is_none());
    assert!(ns.get("kept").is_some());
    assert!(ns.get("more").is_some());
}

#[test]
fn unclosed_scope_blocks_finalize() {
    let mut b = NamespaceBuilder::new();
    let root = b.root_token();
    let sub = b.begin_struct(root, "ns").unwrap();
    assert_eq!(b.build(), Err(BuilderError::UnclosedScope));
    b.end_struct(sub).unwrap();
    assert!(b.build().is_ok());
}

#[test]
fn closing_the_root_scope_is_refused() {
    let mut b = NamespaceBuilder::new();
    let root = b.root_token();
    assert_eq!(b.end_struct(root), Err(BuilderError::NoOpenScope));
    assert_eq!(b.abort_struct(root), Err(BuilderError::NoOpenScope));
}

#[test]
fn doubly_nested_scopes() {
    let mut b = NamespaceBuilder::new();
    let root = b.root_token();
    let outer = b.begin_struct(root, "outer").unwrap();
    let inner = b.begin_struct(outer, "inner").unwrap();
    assert_eq!(
        b.set(outer, "x", GuestValue::Int(1)),
        Err(BuilderError::StaleScope)
    );
    b.set(inner, "deep", GuestValue::Bool(true)).unwrap();
    b.end_struct(inner).unwrap();
    b.end_struct(outer).unwrap();
    let ns = b.build().unwrap();
    match ns.get("outer") {
        Some(NamespaceValue::Sub(entries)) => {
            assert_eq!(entries.len(), 1);
            assert_eq!(entries[0].name, "inner");
            match &entries[0].value {
                NamespaceValue::Sub(inner_entries) => {
                    assert_eq!(inner_entries.len(), 1);
                    assert_eq!(inner_entries[0].name, "deep");
                }
                other => panic!("unexpected binding: {:?}", other),
            }
        }
        other => panic!("unexpected binding: {:?}", other),
    }
}

#[test]
fn example_scenario() {
    // build a namespace with "x" = 5 (a host integer) and a nested
    // sub-namespace "ns" holding "y" = "hello"
    let mut b = NamespaceBuilder::standard();
    let root = b.root_token();
    b.set(root, "x", host_to_guest(&HostValue::Int(5))).unwrap();
    let sub = b.begin_struct(root, "ns").unwrap();
    b.set(sub, "y", host_to_guest(&HostValue::Str("hello".to_string())))
        .unwrap();
    b.end_struct(sub).unwrap();
    let ns = b.build().unwrap();

    // the evaluation observes x == 5 and ns.y == "hello"
    let x = match ns.get("x") {
        Some(NamespaceValue::Leaf(v)) => v,
        other => panic!("unexpected binding: {:?}", other),
    };
    assert_eq!(*x, GuestValue::Int(5));
    match ns.get("ns") {
        Some(NamespaceValue::Sub(entries)) => {
            assert_eq!(entries[0].name, "y");
            assert_eq!(
                entries[0].value,
                NamespaceValue::Leaf(GuestValue::Str("hello".to_string()))
            );
        }
        other => panic!("unexpected binding: {:?}", other),
    }

    // a script whose last expression is `x` hands back 5 as a host value
    let result = guest_to_host(x).unwrap();
    assert_eq!(result, HostValue::Int(5));
}

#[test]
fn standard_and_extensions_are_recorded() {
    let mut plain = NamespaceBuilder::new();
    assert!(!plain.build().unwrap().has_standard());

    let mut std_b = NamespaceBuilder::standard();
    assert!(std_b.build().unwrap().has_standard());

    let selection = vec![
        LibraryExtension::MapEach,
        LibraryExtension::Filter,
        LibraryExtension::MapEach,
    ];
    let mut ext_b = NamespaceBuilder::extended_by(selection.clone());
    let ns = ext_b.build().unwrap();
    assert!(ns.has_standard());
    assert_eq!(*ns.extensions(), selection);
}

#[test]
fn namespace_constructors_record_their_selection() {
    assert!(!Namespace::new().has_standard());
    assert!(Namespace::standard().has_standard());
    let ns = Namespace::extended_by(vec![LibraryExtension::Typing]);
    assert!(ns.has_standard());
    assert_eq!(*ns.extensions(), vec![LibraryExtension::Typing]);
}

#[test]
fn docstring_is_kept() {
    let mut b = NamespaceBuilder::new();
    assert!(b.build().unwrap().docstring().is_none());

    let mut b = NamespaceBuilder::new();
    b.set_docstring("top-level docs").unwrap();
    let ns = b.build().unwrap();
    assert_eq!(ns.docstring().map(String::as_str), Some("top-level docs"));
}

#[test]
fn describe_lists_names_in_order() {
    let mut b = NamespaceBuilder::new();
    let root = b.root_token();
    b.set(root, "x", GuestValue::Int(1)).unwrap();
    let sub = b.begin_struct(root, "ns").unwrap();
    b.end_struct(sub).unwrap();
    let ns = b.build().unwrap();
    assert_eq!(ns.describe(), "x\nns\n");
    assert_eq!(NamespaceBuilder::new().build().unwrap().describe(), "");
}

#[test]
fn iterators_walk_without_mutating() {
    let mut b = NamespaceBuilder::new();
    let root = b.root_token();
    b.set(root, "a", GuestValue::Int(1)).unwrap();
    b.set(root, "b", GuestValue::Int(2)).unwrap();
    let ns = b.build().unwrap();

    let mut items = ns.items();
    let (name, value) = items.next().unwrap();
    assert_eq!(name, "a");
    assert_eq!(*value, NamespaceValue::Leaf(GuestValue::Int(1)));
    let (name, value) = items.next().unwrap();
    assert_eq!(name, "b");
    assert_eq!(*value, NamespaceValue::Leaf(GuestValue::Int(2)));
    assert!(items.next().is_none());
    assert!(items.next().is_none());

    // a second walk sees the same namespace
    let mut names = ns.names();
    assert_eq!(names.next().map(String::as_str), Some("a"));
    assert_eq!(names.next().map(String::as_str), Some("b"));
    assert!(names.next().is_none());
    assert_eq!(ns.len(), 2);
}

#[test]
fn missing_name_is_absent() {
    let ns = Namespace::new();
    assert!(ns.get("anything").is_none());
}

#[test]
fn extension_codes_are_distinct() {
    let all = vec![
        LibraryExtension::StructType,
        LibraryExtension::RecordType,
        LibraryExtension::EnumType,
        LibraryExtension::MapEach,
        LibraryExtension::Filter,
        LibraryExtension::Partial,
        LibraryExtension::Debug,
        LibraryExtension::Print,
        LibraryExtension::Pprint,
        LibraryExtension::Breakpoint,
        LibraryExtension::Json,
        LibraryExtension::Typing,
        LibraryExtension::Internal,
        LibraryExtension::CallStack,
    ];
    for (i, a) in all.iter().enumerate() {
        assert_eq!(a.code(), i as u64);
        for b in all.iter() {
            assert_eq!(a.same_as(b), a.code() == b.code());
        }
    }
}

#[test]
fn collect_extensions_takes_all_or_reports_first_stranger() {
    let r = collect_extensions(vec![
        Some(LibraryExtension::Json),
        Some(LibraryExtension::Typing),
    ]);
    assert_eq!(
        r,
        Ok(vec![LibraryExtension::Json, LibraryExtension::Typing])
    );
    let r = collect_extensions(vec![
        Some(LibraryExtension::Json),
        None,
        Some(LibraryExtension::Typing),
    ]);
    assert_eq!(r, Err(1));
    assert_eq!(collect_extensions(Vec::new()), Ok(Vec::new()));
}
