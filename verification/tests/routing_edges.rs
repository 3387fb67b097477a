use capability_router::capability::{Capability, CapabilityKind};
use capability_router::instance_path::InstancePath;
use capability_router::manifest::{
    ChildSpec, FanoutTarget, GrantDecl, ImportDecl, InstanceManifest, Source, StartupPolicy,
    SurfaceDecl,
};
use capability_router::namespace::NamespaceConnector;
use capability_router::router::{resolve_surface, route, route_traced, Hop};
use capability_router::selection::{
    find_grant, find_surface, grant_offers_to, surface_offers_up, Selection,
};
use capability_router::topology::{find_child, Topology};
use capability_router::verdict::{DenialReason, TerminalKind, Verdict};

fn dir(path: &str) -> Capability {
    Capability::new(CapabilityKind::Directory, path.to_string())
}

fn svc(path: &str) -> Capability {
    Capability::new(CapabilityKind::Service, path.to_string())
}

fn at(names: &[&str]) -> InstancePath {
    InstancePath::new(names.iter().map(|n| n.to_string()).collect())
}

fn grant(capability: Capability, source: Source, targets: &[(&str, &str)]) -> GrantDecl {
    GrantDecl {
        capability,
        source,
        fanout: targets
            .iter()
            .map(|(target_path, child_name)| FanoutTarget {
                target_path: target_path.to_string(),
                child_name: child_name.to_string(),
            })
            .collect(),
    }
}

fn surface(capability: Capability, source: Source, target_path: &str) -> SurfaceDecl {
    SurfaceDecl { capability, source, target_path: target_path.to_string() }
}

fn import(capability: Capability) -> ImportDecl {
    ImportDecl { capability, local_path: "/data/hippo".to_string() }
}

fn from_child(name: &str) -> Source {
    Source::FromChild(name.to_string())
}

fn children(names: &[&str]) -> Vec<ChildSpec> {
    names
        .iter()
        .map(|n| ChildSpec {
            name: n.to_string(),
            reference: format!("test:///{}", n),
            startup: StartupPolicy::Lazy,
        })
        .collect()
}

fn program() -> InstanceManifest {
    InstanceManifest {
        executable: true,
        imports: vec![],
        grants: vec![],
        surfaces: vec![],
        children: vec![],
    }
}

fn tree(namespace: Vec<Capability>, instances: Vec<(InstancePath, InstanceManifest)>) -> Topology {
    let mut t = Topology::new(NamespaceConnector::new(namespace));
    for (path, manifest) in instances {
        assert!(t.insert(path, manifest));
    }
    t
}

fn allowed_at(terminal: &[&str], capability: Capability) -> Verdict {
    Verdict::Allowed {
        terminal_path: at(terminal),
        terminal_kind: TerminalKind::LocalSource,
        capability,
    }
}

fn denied(reason: DenialReason) -> Verdict {
    Verdict::Denied { reason }
}

/// A root that grants `/data/foo` to `b` as `/data/bar`, from itself.
fn parent_and_child(root: InstanceManifest) -> Topology {
    tree(vec![], vec![(at(&[]), root), (at(&["b"]), program())])
}

fn local_grant_root() -> InstanceManifest {
    InstanceManifest {
        grants: vec![grant(dir("/data/foo"), Source::Local, &[("/data/bar", "b")])],
        children: children(&["b"]),
        ..program()
    }
}

#[test]
fn a_local_grant_of_the_root_is_allowed() {
    let t = parent_and_child(local_grant_root());
    assert_eq!(route(&t, &at(&["b"]), &import(dir("/data/bar"))), allowed_at(&[], dir("/data/foo")));
}

#[test]
fn a_forwarded_grant_leads_to_the_grandparent() {
    let t = tree(
        vec![],
        vec![
            (at(&[]), local_grant_root()),
            (
                at(&["b"]),
                InstanceManifest {
                    grants: vec![grant(dir("/data/bar"), Source::Forwarded, &[("/data/baz", "c")])],
                    children: children(&["c"]),
                    ..program()
                },
            ),
            (at(&["b", "c"]), program()),
        ],
    );
    let r = route_traced(&t, &at(&["b", "c"]), &import(dir("/data/baz")));
    assert_eq!(r.verdict, allowed_at(&[], dir("/data/foo")));
    assert_eq!(
        r.hops,
        vec![
            Hop::Grant { granter: at(&["b"]), index: 0 },
            Hop::Grant { granter: at(&[]), index: 0 },
        ]
    );
}

#[test]
fn nothing_granted_is_denied() {
    let t = parent_and_child(InstanceManifest { children: children(&["b"]), ..program() });
    let r = route_traced(&t, &at(&["b"]), &import(dir("/data/hippo")));
    assert_eq!(r.verdict, denied(DenialReason::NotGranted));
    assert_eq!(r.hops, vec![]);
}

#[test]
fn a_source_child_that_surfaces_nothing_is_denied() {
    let t = tree(
        vec![],
        vec![
            (
                at(&[]),
                InstanceManifest {
                    grants: vec![grant(dir("/data/hippo"), from_child("b"), &[("/data/hippo", "c")])],
                    children: children(&["b", "c"]),
                    ..program()
                },
            ),
            (at(&["b"]), program()),
            (at(&["c"]), program()),
        ],
    );
    let r = route_traced(&t, &at(&["c"]), &import(dir("/data/hippo")));
    assert_eq!(r.verdict, denied(DenialReason::NotSurfaced));
    assert_eq!(r.hops, vec![Hop::Grant { granter: at(&[]), index: 0 }]);
}

#[test]
fn a_local_grant_of_an_instance_without_program_is_denied() {
    let t = parent_and_child(InstanceManifest {
        executable: false,
        grants: vec![grant(dir("/data/hippo"), Source::Local, &[("/data/hippo", "b")])],
        children: children(&["b"]),
        ..program()
    });
    assert_eq!(
        route(&t, &at(&["b"]), &import(dir("/data/hippo"))),
        denied(DenialReason::SourceNotExecutable)
    );
}

#[test]
fn a_forwarded_grant_of_the_root_asks_the_namespace() {
    let root = InstanceManifest {
        grants: vec![grant(dir("/hippo/data/foo"), Source::Forwarded, &[("/foo", "b")])],
        children: children(&["b"]),
        ..program()
    };
    let t = tree(
        vec![dir("/hippo/data/foo")],
        vec![(at(&[]), root.clone()), (at(&["b"]), program())],
    );
    assert_eq!(
        route(&t, &at(&["b"]), &import(dir("/foo"))),
        Verdict::Allowed {
            terminal_path: at(&[]),
            terminal_kind: TerminalKind::NamespaceSource,
            capability: dir("/hippo/data/foo"),
        }
    );
    // The table must hold the capability under the grant's own identity.
    let t = tree(vec![dir("/foo"), svc("/hippo/data/foo")], vec![(at(&[]), root), (at(&["b"]), program())]);
    assert_eq!(route(&t, &at(&["b"]), &import(dir("/foo"))), denied(DenialReason::NotGranted));
}

#[test]
fn the_root_is_granted_nothing() {
    let t = tree(vec![dir("/data/foo")], vec![(at(&[]), local_grant_root())]);
    assert_eq!(route(&t, &at(&[]), &import(dir("/data/foo"))), denied(DenialReason::NotGranted));
}

#[test]
fn a_missing_parent_manifest_is_reported() {
    let t = tree(vec![], vec![(at(&[]), local_grant_root())]);
    assert_eq!(
        route(&t, &at(&["x", "y"]), &import(dir("/data/bar"))),
        denied(DenialReason::InstanceNotFound)
    );
}

#[test]
fn a_missing_source_child_is_reported() {
    let t = parent_and_child(InstanceManifest {
        grants: vec![grant(dir("/data/foo"), from_child("ghost"), &[("/data/bar", "b")])],
        children: children(&["b"]),
        ..program()
    });
    assert_eq!(route(&t, &at(&["b"]), &import(dir("/data/bar"))), denied(DenialReason::ChildNotFound));
}

#[test]
fn a_declared_child_without_manifest_is_reported() {
    let t = tree(
        vec![],
        vec![(
            at(&[]),
            InstanceManifest {
                grants: vec![grant(dir("/data/foo"), from_child("c"), &[("/data/bar", "b")])],
                children: children(&["b", "c"]),
                ..program()
            },
        )],
    );
    assert_eq!(
        route(&t, &at(&["b"]), &import(dir("/data/bar"))),
        denied(DenialReason::InstanceNotFound)
    );
}

#[test]
fn a_surface_that_names_a_missing_child_is_reported() {
    let t = tree(
        vec![],
        vec![
            (
                at(&[]),
                InstanceManifest {
                    grants: vec![grant(dir("/data/foo"), from_child("c"), &[("/data/bar", "b")])],
                    children: children(&["b", "c"]),
                    ..program()
                },
            ),
            (
                at(&["c"]),
                InstanceManifest {
                    surfaces: vec![surface(dir("/data/inner"), from_child("d"), "/data/foo")],
                    ..program()
                },
            ),
        ],
    );
    assert_eq!(route(&t, &at(&["b"]), &import(dir("/data/bar"))), denied(DenialReason::ChildNotFound));
}

#[test]
fn two_matching_grants_are_ambiguous() {
    let t = parent_and_child(InstanceManifest {
        grants: vec![
            grant(dir("/data/one"), Source::Local, &[("/data/bar", "b")]),
            grant(dir("/data/two"), Source::Local, &[("/data/bar", "b")]),
        ],
        children: children(&["b"]),
        ..program()
    });
    assert_eq!(route(&t, &at(&["b"]), &import(dir("/data/bar"))), denied(DenialReason::AmbiguousRoute));
}

#[test]
fn two_matching_surfaces_are_ambiguous() {
    let t = tree(
        vec![],
        vec![
            (
                at(&[]),
                InstanceManifest {
                    grants: vec![grant(dir("/data/foo"), from_child("c"), &[("/data/bar", "b")])],
                    children: children(&["b", "c"]),
                    ..program()
                },
            ),
            (
                at(&["c"]),
                InstanceManifest {
                    surfaces: vec![
                        surface(dir("/data/one"), Source::Local, "/data/foo"),
                        surface(dir("/data/two"), Source::Local, "/data/foo"),
                    ],
                    ..program()
                },
            ),
        ],
    );
    assert_eq!(route(&t, &at(&["b"]), &import(dir("/data/bar"))), denied(DenialReason::AmbiguousRoute));
}

#[test]
fn one_grant_with_the_same_target_twice_is_not_ambiguous() {
    let t = parent_and_child(InstanceManifest {
        grants: vec![grant(dir("/data/foo"), Source::Local, &[("/data/bar", "b"), ("/data/bar", "b")])],
        children: children(&["b"]),
        ..program()
    });
    assert_eq!(route(&t, &at(&["b"]), &import(dir("/data/bar"))), allowed_at(&[], dir("/data/foo")));
}

#[test]
fn a_forwarded_source_surfaces_nothing() {
    let t = tree(
        vec![dir("/data/foo")],
        vec![
            (
                at(&[]),
                InstanceManifest {
                    grants: vec![grant(dir("/data/foo"), from_child("c"), &[("/data/bar", "b")])],
                    children: children(&["b", "c"]),
                    ..program()
                },
            ),
            (
                at(&["c"]),
                InstanceManifest {
                    surfaces: vec![surface(dir("/data/foo"), Source::Forwarded, "/data/foo")],
                    ..program()
                },
            ),
        ],
    );
    assert_eq!(route(&t, &at(&["b"]), &import(dir("/data/bar"))), denied(DenialReason::NotSurfaced));
}

#[test]
fn a_surface_of_an_instance_without_program_is_denied() {
    let t = tree(
        vec![],
        vec![
            (
                at(&[]),
                InstanceManifest {
                    grants: vec![grant(dir("/data/foo"), from_child("c"), &[("/data/bar", "b")])],
                    children: children(&["b", "c"]),
                    ..program()
                },
            ),
            (
                at(&["c"]),
                InstanceManifest {
                    executable: false,
                    surfaces: vec![surface(dir("/data/inner"), Source::Local, "/data/foo")],
                    ..program()
                },
            ),
        ],
    );
    assert_eq!(
        route(&t, &at(&["b"]), &import(dir("/data/bar"))),
        denied(DenialReason::SourceNotExecutable)
    );
}

#[test]
fn matching_is_exact_in_kind_and_path() {
    let wanted = dir("/a/b");
    assert!(capability_router::capability::matches(&wanted, &dir("/a/b")));
    assert!(!capability_router::capability::matches(&wanted, &svc("/a/b")));
    assert!(!capability_router::capability::matches(&wanted, &dir("/a/bb")));
    assert!(!capability_router::capability::matches(&wanted, &dir("/a")));
    assert!(!capability_router::capability::matches(&wanted, &dir("/A/b")));

    let b = "b".to_string();
    assert!(grant_offers_to(&grant(dir("/x"), Source::Local, &[("/a/b", "b")]), &wanted, &b));
    assert!(!grant_offers_to(&grant(svc("/x"), Source::Local, &[("/a/b", "b")]), &wanted, &b));
    assert!(!grant_offers_to(&grant(dir("/x"), Source::Local, &[("/a/bb", "b")]), &wanted, &b));
    assert!(!grant_offers_to(&grant(dir("/a/b"), Source::Local, &[("/x", "b")]), &wanted, &b));
    assert!(!grant_offers_to(&grant(dir("/x"), Source::Local, &[("/a/b", "c")]), &wanted, &b));
    assert!(grant_offers_to(
        &grant(dir("/x"), Source::Local, &[("/a/b", "c"), ("/a/bb", "b"), ("/a/b", "b")]),
        &wanted,
        &b
    ));

    assert!(surface_offers_up(&surface(dir("/x"), Source::Local, "/a/b"), &wanted));
    assert!(!surface_offers_up(&surface(svc("/x"), Source::Local, "/a/b"), &wanted));
    assert!(!surface_offers_up(&surface(dir("/x"), Source::Local, "/a/bb"), &wanted));
    assert!(!surface_offers_up(&surface(dir("/a/b"), Source::Local, "/x"), &wanted));
}

#[test]
fn an_import_never_matches_another_kind_or_a_longer_path() {
    for root_grant in [
        grant(svc("/a/b"), Source::Local, &[("/a/b", "b")]),
        grant(dir("/a/bb"), Source::Local, &[("/a/bb", "b")]),
    ] {
        let t = parent_and_child(InstanceManifest {
            grants: vec![root_grant],
            children: children(&["b"]),
            ..program()
        });
        assert_eq!(route(&t, &at(&["b"]), &import(dir("/a/b"))), denied(DenialReason::NotGranted));
    }
}

#[test]
fn selection_counts_declarations() {
    let m = InstanceManifest {
        grants: vec![
            grant(dir("/one"), Source::Local, &[("/t", "b")]),
            grant(svc("/two"), Source::Local, &[("/t", "b")]),
            grant(dir("/three"), Source::Local, &[("/t", "c"), ("/u", "b")]),
        ],
        surfaces: vec![
            surface(dir("/one"), Source::Local, "/t"),
            surface(svc("/two"), Source::Local, "/t"),
            surface(dir("/three"), Source::Local, "/t"),
        ],
        children: children(&["b", "c"]),
        ..program()
    };
    let b = "b".to_string();
    assert_eq!(find_grant(&m, &dir("/t"), &b), Selection::Unique(0));
    assert_eq!(find_grant(&m, &svc("/t"), &b), Selection::Unique(1));
    assert_eq!(find_grant(&m, &dir("/u"), &b), Selection::Unique(2));
    assert_eq!(find_grant(&m, &dir("/t"), &"c".to_string()), Selection::Unique(2));
    assert_eq!(find_grant(&m, &dir("/v"), &b), Selection::Missing);
    assert_eq!(find_surface(&m, &dir("/t")), Selection::Ambiguous);
    assert_eq!(find_surface(&m, &svc("/t")), Selection::Unique(1));
    assert_eq!(find_surface(&m, &svc("/u")), Selection::Missing);
    assert_eq!(find_child(&m, &"c".to_string()).map(|c| c.reference.clone()), Some("test:///c".to_string()));
    assert!(find_child(&m, &"d".to_string()).is_none());
}

#[test]
fn routing_twice_gives_the_same_verdict() {
    let t = parent_and_child(local_grant_root());
    let first = route(&t, &at(&["b"]), &import(dir("/data/bar")));
    let second = route(&t, &at(&["b"]), &import(dir("/data/bar")));
    assert_eq!(first, second);
    let other_local_path = ImportDecl { capability: dir("/data/bar"), local_path: "/elsewhere".to_string() };
    assert_eq!(route(&t, &at(&["b"]), &other_local_path), first);
}

#[test]
fn an_allowed_route_follows_declarations_that_exist() {
    let t = tree(
        vec![],
        vec![
            (
                at(&[]),
                InstanceManifest {
                    grants: vec![
                        grant(svc("/svc/other"), Source::Local, &[("/svc/other", "b")]),
                        grant(dir("/data/baz"), from_child("c"), &[("/data/foobar", "b")]),
                    ],
                    children: children(&["b", "c"]),
                    ..program()
                },
            ),
            (at(&["b"]), program()),
            (
                at(&["c"]),
                InstanceManifest {
                    surfaces: vec![surface(dir("/data/bar"), from_child("d"), "/data/baz")],
                    children: children(&["d"]),
                    ..program()
                },
            ),
            (
                at(&["c", "d"]),
                InstanceManifest {
                    surfaces: vec![surface(dir("/data/foo"), Source::Local, "/data/bar")],
                    ..program()
                },
            ),
        ],
    );
    let r = route_traced(&t, &at(&["b"]), &import(dir("/data/foobar")));
    assert_eq!(r.verdict, allowed_at(&["c", "d"], dir("/data/foo")));
    assert_eq!(r.hops.len(), 3);
    let mut wanted = dir("/data/foobar");
    for hop in &r.hops {
        match hop {
            Hop::Grant { granter, index } => {
                let g = &t.manifest_of(granter).unwrap().grants[*index];
                assert!(grant_offers_to(g, &wanted, &"b".to_string()));
                wanted = g.capability.clone();
            }
            Hop::Surface { surfacer, index } => {
                let s = &t.manifest_of(surfacer).unwrap().surfaces[*index];
                assert!(surface_offers_up(s, &wanted));
                wanted = s.capability.clone();
            }
        }
    }
    assert_eq!(wanted, dir("/data/foo"));
    assert!(t.manifest_of(&at(&["c", "d"])).unwrap().executable);
}

#[test]
fn the_work_is_bounded_by_the_height_of_the_tree() {
    // A chain of forwarded grants from the root down to depth 6.
    let names = ["n1", "n2", "n3", "n4", "n5", "n6"];
    let mut t = Topology::new(NamespaceConnector::new(vec![dir("/outside")]));
    for depth in 0..names.len() {
        let m = InstanceManifest {
            grants: vec![grant(dir("/outside"), Source::Forwarded, &[("/outside", names[depth])])],
            children: children(&[names[depth]]),
            ..program()
        };
        assert!(t.insert(at(&names[..depth]), m));
    }
    assert!(t.insert(at(&names), program()));
    assert_eq!(t.height(), 6);
    let r = route_traced(&t, &at(&names), &import(dir("/outside")));
    assert_eq!(
        r.verdict,
        Verdict::Allowed {
            terminal_path: at(&[]),
            terminal_kind: TerminalKind::NamespaceSource,
            capability: dir("/outside"),
        }
    );
    assert_eq!(r.hops.len(), t.height());
}

#[test]
fn a_descent_stops_where_the_tree_ends() {
    let t = tree(
        vec![],
        vec![(
            at(&["c"]),
            InstanceManifest {
                surfaces: vec![surface(dir("/inner"), from_child("d"), "/outer")],
                children: children(&["d"]),
                ..program()
            },
        )],
    );
    assert_eq!(t.height(), 1);
    let r = resolve_surface(&t, at(&["c"]), dir("/outer"), vec![]);
    assert_eq!(r.verdict, denied(DenialReason::InstanceNotFound));
    assert_eq!(r.hops, vec![Hop::Surface { surfacer: at(&["c"]), index: 0 }]);
    let r = resolve_surface(&t, at(&["x", "y", "z"]), dir("/outer"), vec![]);
    assert_eq!(r.verdict, denied(DenialReason::InstanceNotFound));
    assert_eq!(r.hops, vec![]);
}

#[test]
fn the_store_looks_up_by_path_and_by_child_name() {
    let mut t = Topology::new(NamespaceConnector::new(vec![svc("/svc/log")]));
    assert_eq!(t.height(), 0);
    assert!(t.manifest_of(&at(&[])).is_none());
    assert!(t.insert(at(&[]), local_grant_root()));
    assert!(t.insert(at(&["b"]), program()));
    assert!(!t.insert(at(&["b"]), local_grant_root()));
    assert_eq!(t.manifest_of(&at(&["b"])), Some(&program()));
    assert_eq!(t.manifest_of(&at(&[])), Some(&local_grant_root()));
    assert!(t.manifest_of(&at(&["c"])).is_none());
    assert_eq!(t.height(), 1);
    assert_eq!(t.child_spec(&at(&[]), &"b".to_string()).map(|c| c.name.clone()), Some("b".to_string()));
    assert!(t.child_spec(&at(&[]), &"c".to_string()).is_none());
    assert!(t.child_spec(&at(&["zz"]), &"b".to_string()).is_none());
    assert_eq!(t.parent_of(&at(&["b", "c"])), Some(at(&["b"])));
    assert_eq!(t.parent_of(&at(&["b"])), Some(at(&[])));
    assert_eq!(t.parent_of(&at(&[])), None);
    assert!(t.namespace().offers(&svc("/svc/log")));
    assert!(!t.namespace().offers(&dir("/svc/log")));
}

#[test]
fn the_namespace_is_a_table_lookup() {
    let n = NamespaceConnector::new(vec![dir("/hippo/data/foo"), svc("/svc/echo")]);
    assert_eq!(
        n.resolve(&svc("/svc/echo")),
        Verdict::Allowed {
            terminal_path: at(&[]),
            terminal_kind: TerminalKind::NamespaceSource,
            capability: svc("/svc/echo"),
        }
    );
    assert_eq!(n.resolve(&dir("/svc/echo")), denied(DenialReason::NotGranted));
    assert_eq!(n.resolve(&dir("/hippo/data")), denied(DenialReason::NotGranted));
    assert_eq!(NamespaceConnector::new(vec![]).resolve(&dir("/x")), denied(DenialReason::NotGranted));
}

#[test]
fn paths_are_sequences_of_names() {
    let p = at(&["a", "b"]);
    assert_eq!(p.len(), 2);
    assert!(!p.is_root());
    assert!(InstancePath::root().is_root());
    assert_eq!(p.leaf(), Some(&"b".to_string()));
    assert_eq!(InstancePath::root().leaf(), None);
    assert_eq!(p.parent(), Some(at(&["a"])));
    assert_eq!(InstancePath::root().parent(), None);
    assert_eq!(p.child(&"c".to_string()), at(&["a", "b", "c"]));
    assert_eq!(p.prefix(1), at(&["a"]));
    assert_eq!(p.duplicate(), p);
    assert!(p.equals(&at(&["a", "b"])));
    assert!(!p.equals(&at(&["a", "c"])));
    assert!(!p.equals(&at(&["a"])));
    assert!(!at(&["ab"]).equals(&at(&["a", "b"])));
}

#[test]
fn verdicts_tell_their_reason() {
    let v = allowed_at(&["a"], dir("/x"));
    assert!(v.is_allowed());
    assert_eq!(v.denial_reason(), None);
    let d = denied(DenialReason::ChildNotFound);
    assert!(!d.is_allowed());
    assert_eq!(d.denial_reason(), Some(DenialReason::ChildNotFound));
    assert_eq!(dir("/x").duplicate(), dir("/x"));
}
