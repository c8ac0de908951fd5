use six_degrees::{search, NormalizeStrategy, Page, PageHolder, SearchOutcome, Store};

#[test]
fn zero_hop_path_renders_one_reference_without_arrows() {
    let root = PageHolder::from_page(Page::new("Alone".to_string(), false, None));
    assert_eq!(root.to_str(), "https://en.wikipedia.org/wiki/Alone");
}

#[test]
fn chain_renders_root_then_arrowed_hops() {
    let root = PageHolder::from_page(Page::new("Bedford".to_string(), false, None));
    let leaf = PageHolder::add_to_path(&root, "X".to_string(), false);
    assert_eq!(
        leaf.to_str(),
        "https://en.wikipedia.org/wiki/Bedford  ===>\nhttps://en.wikipedia.org/wiki/X"
    );
}

#[test]
fn redirect_hops_use_their_own_arrow() {
    let root = PageHolder::from_page(Page::new("A".to_string(), false, None));
    let mid = PageHolder::add_to_path(&root, "B".to_string(), true);
    let leaf = PageHolder::add_to_path(&mid, "Z".to_string(), false);
    assert_eq!(
        leaf.to_str(),
        "https://en.wikipedia.org/wiki/A  -r->\nhttps://en.wikipedia.org/wiki/B ===>\nhttps://en.wikipedia.org/wiki/Z"
    );
}

#[test]
fn titles_are_path_escaped() {
    let mut s = Store::new();
    assert!(s.put("A B".to_string(), "C D".to_string(), false));
    let r = search(&s, "A B".to_string(), "C D".to_string(), NormalizeStrategy::TitleCase);
    match r {
        SearchOutcome::Found(p) => {
            assert_eq!(
                p.to_str(),
                "https://en.wikipedia.org/wiki/A%20B  ===>\nhttps://en.wikipedia.org/wiki/C%20D"
            );
        },
        SearchOutcome::Exhausted => panic!("expected a path"),
    }
}

#[test]
fn get_page_exposes_the_node() {
    let root = PageHolder::from_page(Page::new("A".to_string(), false, None));
    let child = PageHolder::add_to_path(&root, "B".to_string(), true);
    assert_eq!(child.get_page().page, "B");
    assert!(child.get_page().from_redirect);
    assert_eq!(child.get_page().from.as_ref().unwrap().get_page().page, "A");
    assert!(root.get_page().from.is_none());
}

#[test]
fn shared_ancestry_is_by_reference() {
    let root = PageHolder::from_page(Page::new("Root".to_string(), false, None));
    let left = PageHolder::add_to_path(&root, "Left".to_string(), false);
    let right = PageHolder::add_to_path(&root, "Right".to_string(), false);
    assert!(std::rc::Rc::ptr_eq(
        &left.get_page().from.as_ref().unwrap().page,
        &right.get_page().from.as_ref().unwrap().page
    ));
    assert_eq!(left.materialize().len(), 2);
    assert_eq!(right.materialize().len(), 2);
}
