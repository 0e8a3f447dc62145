use ntex::http::message::{Method, RequestHead};
use ntex::router::pattern::ResourceDef;
use ntex::web::app_service::{build_router, Mount};
use ntex::web::guard::Predicate;
use ntex::web::rmap::{ResourceMap, Router};

fn def(p: &[u8]) -> ResourceDef {
    ResourceDef::new(p).unwrap()
}

fn root() -> ResourceMap<Predicate> {
    ResourceMap::new(ResourceDef::root())
}

fn lookup(router: &Router<Predicate>, method: Method, path: &[u8]) -> Option<(usize, Vec<(Vec<u8>, Vec<u8>)>)> {
    let head = RequestHead::new(method, path);
    router.lookup(path, &head).map(|m| {
        (
            m.slot,
            m.params.iter().map(|p| (p.name.clone(), p.value.clone())).collect(),
        )
    })
}

#[test]
fn empty_map_matches_nothing() {
    let router = root().finish(0, false).unwrap();
    assert_eq!(lookup(&router, Method::Get, b"/"), None);
    assert_eq!(lookup(&router, Method::Get, b""), None);
    assert_eq!(lookup(&router, Method::Get, b"/users/42"), None);
}

#[test]
fn matching_route_gives_its_slot_and_parameters() {
    let mut map = root();
    map.register(def(b"/index"), 0, None, None);
    map.register(def(b"/users/{id}"), 1, None, None);
    let router = map.finish(2, false).unwrap();
    assert_eq!(lookup(&router, Method::Get, b"/index"), Some((0, vec![])));
    assert_eq!(
        lookup(&router, Method::Get, b"/users/42"),
        Some((1, vec![(b"id".to_vec(), b"42".to_vec())]))
    );
    assert_eq!(lookup(&router, Method::Get, b"/users"), None);
    assert_eq!(lookup(&router, Method::Get, b"/users/42/x"), None);
}

#[test]
fn first_registered_route_wins() {
    let mut map = root();
    map.register(def(b"/{any}"), 0, None, None);
    map.register(def(b"/index"), 1, None, None);
    let router = map.finish(2, false).unwrap();
    assert_eq!(
        lookup(&router, Method::Get, b"/index"),
        Some((0, vec![(b"any".to_vec(), b"index".to_vec())]))
    );
}

#[test]
fn failing_guard_lets_the_search_go_on() {
    let mut map = root();
    map.register(def(b"/item"), 0, Some(vec![Predicate::Method(Method::Post)]), None);
    map.register(def(b"/item"), 1, Some(vec![Predicate::Method(Method::Get)]), None);
    map.register(def(b"/{name}"), 2, None, None);
    let router = map.finish(3, false).unwrap();
    assert_eq!(lookup(&router, Method::Post, b"/item"), Some((0, vec![])));
    assert_eq!(lookup(&router, Method::Get, b"/item"), Some((1, vec![])));
    assert_eq!(
        lookup(&router, Method::Put, b"/item"),
        Some((2, vec![(b"name".to_vec(), b"item".to_vec())]))
    );
}

#[test]
fn no_match_when_every_candidate_fails_its_guards() {
    let mut map = root();
    map.register(def(b"/item"), 0, Some(vec![Predicate::Method(Method::Post)]), None);
    map.register(def(b"/item"), 1, Some(vec![Predicate::Method(Method::Get)]), None);
    let router = map.finish(2, false).unwrap();
    assert_eq!(lookup(&router, Method::Delete, b"/item"), None);
}

#[test]
fn nested_routes_lie_below_the_enclosing_pattern_and_guards() {
    let mut api: ResourceMap<Predicate> = ResourceMap::new(ResourceDef::root());
    api.register(def(b"/users/{id}"), 1, None, None);
    api.register(def(b"/items"), 2, Some(vec![Predicate::Method(Method::Get)]), None);
    let mut map = root();
    map.register(
        def(b"/api/{version}"),
        0,
        Some(vec![Predicate::Header(b"x-key".to_vec(), b"k".to_vec())]),
        Some(api),
    );
    map.register(def(b"/api/{version}/items"), 3, None, None);
    let router = map.finish(4, false).unwrap();

    let mut head = RequestHead::new(Method::Get, b"/api/v1/users/7");
    head.headers.push(ntex::http::message::Header { name: b"x-key".to_vec(), value: b"k".to_vec() });
    let m = router.lookup(b"/api/v1/users/7", &head).unwrap();
    assert_eq!(m.slot, 1);
    let params: Vec<(Vec<u8>, Vec<u8>)> =
        m.params.iter().map(|p| (p.name.clone(), p.value.clone())).collect();
    assert_eq!(
        params,
        vec![
            (b"version".to_vec(), b"v1".to_vec()),
            (b"id".to_vec(), b"7".to_vec())
        ]
    );
    let m = router.lookup(b"/api/v1", &head).unwrap();
    assert_eq!(m.slot, 0);
    let m = router.lookup(b"/api/v1/items", &head).unwrap();
    assert_eq!(m.slot, 2);

    // without the key the whole scope is passed over, and the search
    // goes on in the enclosing scope
    assert_eq!(
        lookup(&router, Method::Get, b"/api/v1/items"),
        Some((3, vec![(b"version".to_vec(), b"v1".to_vec())]))
    );
    assert_eq!(lookup(&router, Method::Get, b"/api/v1/users/7"), None);
}

#[test]
fn parameters_of_a_failed_branch_are_dropped() {
    let mut inner: ResourceMap<Predicate> = ResourceMap::new(ResourceDef::root());
    inner.register(def(b"/{b}"), 0, Some(vec![Predicate::Method(Method::Post)]), None);
    let mut map = root();
    map.register(def(b"/{a}"), 5, Some(vec![Predicate::Method(Method::Delete)]), Some(inner));
    map.register(def(b"/{x}/{y}"), 1, None, None);
    let router = map.finish(6, false).unwrap();
    assert_eq!(
        lookup(&router, Method::Delete, b"/one/two"),
        Some((
            1,
            vec![(b"x".to_vec(), b"one".to_vec()), (b"y".to_vec(), b"two".to_vec())]
        ))
    );
}

#[test]
fn external_patterns_make_no_route() {
    let mut map = root();
    map.add_external(def(b"/elsewhere"));
    map.register(def(b"/here"), 0, None, None);
    let router = map.finish(1, false).unwrap();
    assert_eq!(lookup(&router, Method::Get, b"/elsewhere"), None);
    assert_eq!(lookup(&router, Method::Get, b"/here"), Some((0, vec![])));
}

#[test]
fn finish_refuses_a_slot_outside_the_table() {
    let mut map = root();
    map.register(def(b"/a"), 0, None, None);
    map.register(def(b"/b"), 2, None, None);
    assert!(map.finish(2, false).is_none());

    let mut inner: ResourceMap<Predicate> = ResourceMap::new(ResourceDef::root());
    inner.register(def(b"/deep"), 7, None, None);
    let mut map = root();
    map.register(def(b"/a"), 0, None, Some(inner));
    assert!(map.finish(7, false).is_none());

    let mut inner: ResourceMap<Predicate> = ResourceMap::new(ResourceDef::root());
    inner.register(def(b"/deep"), 7, None, None);
    let mut map = root();
    map.register(def(b"/a"), 0, None, Some(inner));
    assert!(map.finish(8, false).is_some());
}

#[test]
fn case_insensitive_lookup() {
    let mut map = root();
    map.register(def(b"/Users/{id}"), 0, None, None);
    let strict = map.finish(1, false).unwrap();
    assert_eq!(lookup(&strict, Method::Get, b"/users/A"), None);

    let mut map = root();
    map.register(def(b"/Users/{id}"), 0, None, None);
    let loose = map.finish(1, true).unwrap();
    assert_eq!(
        lookup(&loose, Method::Get, b"/users/A"),
        Some((0, vec![(b"id".to_vec(), b"A".to_vec())]))
    );
}

#[test]
fn node_with_its_own_slot_and_nested_nodes() {
    let mut node: ResourceMap<Predicate> = ResourceMap::new(def(b"/a"));
    node.slot = Some(0);
    node.nest({
        let mut n = ResourceMap::new(def(b"/b"));
        n.slot = Some(1);
        n
    });
    let mut map = root();
    map.nest(node);
    let router = map.finish(2, false).unwrap();
    assert_eq!(lookup(&router, Method::Get, b"/a"), Some((0, vec![])));
    assert_eq!(lookup(&router, Method::Get, b"/a/b"), Some((1, vec![])));
    assert_eq!(lookup(&router, Method::Get, b"/b"), None);
}

#[test]
fn build_router_mounts_services_in_order_of_registration() {
    let mut nested: ResourceMap<Predicate> = ResourceMap::new(ResourceDef::root());
    nested.register(def(b"/deep"), 0, None, None);
    let mounts = vec![
        Mount { rdef: def(b"/a"), guards: Some(vec![Predicate::Method(Method::Get)]), nested: None },
        Mount { rdef: def(b"/a"), guards: None, nested: Some(nested) },
    ];
    let router = build_router(vec![def(b"/elsewhere")], mounts, false).unwrap();
    assert_eq!(lookup(&router, Method::Get, b"/a"), Some((0, vec![])));
    assert_eq!(lookup(&router, Method::Post, b"/a"), Some((1, vec![])));
    assert_eq!(lookup(&router, Method::Post, b"/a/deep"), Some((0, vec![])));
    assert_eq!(lookup(&router, Method::Get, b"/elsewhere"), None);
}

#[test]
fn build_router_refuses_a_slot_that_no_service_fills() {
    let mut nested: ResourceMap<Predicate> = ResourceMap::new(ResourceDef::root());
    nested.register(def(b"/deep"), 1, None, None);
    let mounts = vec![Mount { rdef: def(b"/a"), guards: None, nested: Some(nested) }];
    assert!(build_router(Vec::new(), mounts, false).is_none());
    let none: Vec<Mount<Predicate>> = Vec::new();
    assert!(build_router(Vec::new(), none, true).is_some());
}
