use six_degrees::{
    resolve_entry, search, AbandonReason, Action, Engine, Entry, NormalizeStrategy, PageHolder,
    Resolution, SearchOutcome, Store, VisitedSet,
};

fn store_of(rows: &[(&str, &str, bool)]) -> Store {
    let mut s = Store::new();
    for (title, payload, is_redirect) in rows {
        assert!(s.put(title.to_string(), payload.to_string(), *is_redirect));
    }
    s
}

fn hops(path: &PageHolder) -> Vec<(String, bool)> {
    path.materialize()
}

fn direct_hop_count(path: &PageHolder) -> usize {
    let nodes = path.materialize();
    nodes.iter().skip(1).filter(|(_, from_redirect)| !from_redirect).count()
}

#[test]
fn found_direct_link() {
    let s = store_of(&[("Bedford", "Paul Singer (businessman)<|>X", false)]);
    let r = search(
        &s,
        "Bedford".to_string(),
        "Paul Singer (businessman)".to_string(),
        NormalizeStrategy::TitleCase,
    );
    match r {
        SearchOutcome::Found(p) => {
            assert_eq!(
                hops(&p),
                vec![
                    ("Bedford".to_string(), false),
                    ("Paul Singer (businessman)".to_string(), false),
                ]
            );
            assert_eq!(direct_hop_count(&p), 1);
        },
        SearchOutcome::Exhausted => panic!("expected a path"),
    }
}

#[test]
fn exhausted_when_goal_never_appears() {
    let s = store_of(&[("Bedford", "Paul Singer (businessman)<|>X", false)]);
    let r = search(&s, "Bedford".to_string(), "Y".to_string(), NormalizeStrategy::TitleCase);
    assert!(matches!(r, SearchOutcome::Exhausted));
}

#[test]
fn redirect_folds_into_one_direct_hop() {
    let s = store_of(&[("A", "B", true), ("B", "Z", false)]);
    let r = search(&s, "A".to_string(), "Z".to_string(), NormalizeStrategy::TitleCase);
    match r {
        SearchOutcome::Found(p) => {
            let nodes = hops(&p);
            assert_eq!(
                nodes,
                vec![
                    ("A".to_string(), false),
                    ("B".to_string(), true),
                    ("Z".to_string(), false),
                ]
            );
            assert_eq!(direct_hop_count(&p), 1);
            assert!(nodes[1].1 && !nodes[2].1);
        },
        SearchOutcome::Exhausted => panic!("expected a path"),
    }
}

#[test]
fn self_redirect_terminates_without_a_match() {
    let s = store_of(&[("A", "A", true)]);
    let r = search(&s, "A".to_string(), "Z".to_string(), NormalizeStrategy::TitleCase);
    assert!(matches!(r, SearchOutcome::Exhausted));
}

#[test]
fn filtered_redirect_never_matches_an_empty_goal() {
    let s = store_of(&[("A", "", true)]);
    let r = search(&s, "A".to_string(), String::new(), NormalizeStrategy::TitleCase);
    assert!(matches!(r, SearchOutcome::Exhausted));
}

#[test]
fn reports_minimum_direct_hop_distance() {
    let s = store_of(&[
        ("A", "B<|>C", false),
        ("B", "Z", false),
        ("C", "D", false),
        ("D", "Z", false),
    ]);
    let r = search(&s, "A".to_string(), "Z".to_string(), NormalizeStrategy::TitleCase);
    match r {
        SearchOutcome::Found(p) => {
            assert_eq!(direct_hop_count(&p), 2);
            let nodes = hops(&p);
            assert_eq!(nodes.first().unwrap().0, "A");
            assert_eq!(nodes.last().unwrap().0, "Z");
        },
        SearchOutcome::Exhausted => panic!("expected a path"),
    }
}

#[test]
fn redirect_chain_stays_free_in_the_metric() {
    let s = store_of(&[
        ("S", "R", false),
        ("R", "T", true),
        ("T", "Z", false),
    ]);
    let r = search(&s, "S".to_string(), "Z".to_string(), NormalizeStrategy::TitleCase);
    match r {
        SearchOutcome::Found(p) => {
            assert_eq!(direct_hop_count(&p), 2);
            assert_eq!(
                hops(&p),
                vec![
                    ("S".to_string(), false),
                    ("R".to_string(), false),
                    ("T".to_string(), true),
                    ("Z".to_string(), false),
                ]
            );
        },
        SearchOutcome::Exhausted => panic!("expected a path"),
    }
}

#[test]
fn start_equal_to_goal_is_found_immediately() {
    let s = store_of(&[]);
    let r = search(&s, "A".to_string(), "A".to_string(), NormalizeStrategy::TitleCase);
    match r {
        SearchOutcome::Found(p) => {
            assert_eq!(hops(&p), vec![("A".to_string(), false)]);
        },
        SearchOutcome::Exhausted => panic!("expected the trivial path"),
    }
}

#[test]
fn missing_title_falls_back_to_titlecase() {
    let s = store_of(&[("bedford Falls", "Z", false)]);
    let r = search(&s, "bedford falls".to_string(), "Z".to_string(), NormalizeStrategy::TitleCase);
    assert!(matches!(r, SearchOutcome::Found(_)));
}

#[test]
fn engine_protocol_drives_the_same_search() {
    let s = store_of(&[("A", "B", true), ("B", "Z", false)]);
    let mut engine = Engine::new("A".to_string(), "Z".to_string(), NormalizeStrategy::TitleCase);
    let outcome = loop {
        match engine.next_action() {
            Action::Lookup(title) => {
                let found = s.lookup(&title).map(|e| e.duplicate());
                engine.provide(found);
            },
            Action::Done(o) => break o,
        }
    };
    match outcome {
        SearchOutcome::Found(p) => assert_eq!(direct_hop_count(&p), 1),
        SearchOutcome::Exhausted => panic!("expected a path"),
    }
    // Scheduled: A at seeding, B as the registered redirect intermediate; the
    // goal Z ends the search before it is ever inserted.
    assert_eq!(engine.visited_count(), 2);
    assert_eq!(engine.frontier_count(), 0);
}

#[test]
fn visited_set_single_expansion() {
    let mut v = VisitedSet::new();
    assert!(v.insert(&"Title".to_string()));
    assert!(!v.insert(&"Title".to_string()));
    assert!(v.contains(&"Title".to_string()));
    assert_eq!(v.len(), 1);
    assert!(v.insert(&"Other".to_string()));
    assert!(!v.insert(&"Title".to_string()));
    assert_eq!(v.len(), 2);
}

#[test]
fn store_rejects_duplicate_keys() {
    let mut s = Store::new();
    assert!(s.put("A".to_string(), "B".to_string(), false));
    assert!(!s.put("A".to_string(), "C".to_string(), true));
    let e = s.lookup(&"A".to_string()).expect("row");
    assert_eq!(e.payload, "B");
    assert!(!e.is_redirect);
    assert!(s.lookup(&"Missing".to_string()).is_none());
}

#[test]
fn resolver_abandons_missing_titles() {
    assert!(matches!(
        resolve_entry(None, 0),
        Resolution::Abandoned(AbandonReason::NotFound)
    ));
}

#[test]
fn resolver_abandons_filtered_namespaces() {
    let e = Entry { payload: String::new(), is_redirect: true };
    assert!(matches!(
        resolve_entry(Some(&e), 0),
        Resolution::Abandoned(AbandonReason::FilteredNamespace)
    ));
}

#[test]
fn resolver_enforces_the_depth_bound() {
    let e = Entry { payload: "Next".to_string(), is_redirect: true };
    match resolve_entry(Some(&e), 0) {
        Resolution::Advance(t) => assert_eq!(t, "Next"),
        _ => panic!("expected to advance"),
    }
    assert!(matches!(
        resolve_entry(Some(&e), 19),
        Resolution::Abandoned(AbandonReason::DepthExceeded)
    ));
}

#[test]
fn resolver_splits_resolved_links() {
    let e = Entry { payload: "A<|>B".to_string(), is_redirect: false };
    match resolve_entry(Some(&e), 0) {
        Resolution::Resolved(ls) => assert_eq!(ls, vec!["A".to_string(), "B".to_string()]),
        _ => panic!("expected links"),
    }
}
