use ntex::router::pattern::{Param, PatternError, ResourceDef, Segment};

fn statics(def: &ResourceDef) -> Vec<(bool, Vec<u8>)> {
    def.segments
        .iter()
        .map(|s| match s {
            Segment::Static(t) => (true, t.clone()),
            Segment::Param(n) => (false, n.clone()),
        })
        .collect()
}

fn pairs(params: &[Param]) -> Vec<(Vec<u8>, Vec<u8>)> {
    params.iter().map(|p| (p.name.clone(), p.value.clone())).collect()
}

#[test]
fn empty_text_is_the_empty_pattern() {
    let def = ResourceDef::new(b"").unwrap();
    assert!(def.segments.is_empty());
    assert!(ResourceDef::root().segments.is_empty());
}

#[test]
fn literal_and_parameter_segments() {
    let def = ResourceDef::new(b"/users/{id}").unwrap();
    assert_eq!(
        statics(&def),
        vec![(true, b"users".to_vec()), (false, b"id".to_vec())]
    );
}

#[test]
fn trailing_slash_is_an_empty_literal() {
    let def = ResourceDef::new(b"/a/").unwrap();
    assert_eq!(statics(&def), vec![(true, b"a".to_vec()), (true, Vec::new())]);
    let root = ResourceDef::new(b"/").unwrap();
    assert_eq!(statics(&root), vec![(true, Vec::new())]);
}

#[test]
fn text_without_leading_slash_is_refused() {
    assert_eq!(ResourceDef::new(b"users").err(), Some(PatternError::MissingSlash));
    assert_eq!(ResourceDef::new(b"{id}").err(), Some(PatternError::MissingSlash));
}

#[test]
fn parameter_without_name_is_refused() {
    assert_eq!(ResourceDef::new(b"/users/{}").err(), Some(PatternError::EmptyName));
}

#[test]
fn stray_braces_are_refused() {
    assert_eq!(ResourceDef::new(b"/users/{id").err(), Some(PatternError::Malformed));
    assert_eq!(ResourceDef::new(b"/users/id}").err(), Some(PatternError::Malformed));
    assert_eq!(ResourceDef::new(b"/users/x{id}").err(), Some(PatternError::Malformed));
    assert_eq!(ResourceDef::new(b"/users/{a{b}}").err(), Some(PatternError::Malformed));
    assert_eq!(ResourceDef::new(b"/{a}{b}").err(), Some(PatternError::Malformed));
}

#[test]
fn first_malformed_segment_decides() {
    assert_eq!(ResourceDef::new(b"/{}/{x").err(), Some(PatternError::EmptyName));
    assert_eq!(ResourceDef::new(b"/{x/{}").err(), Some(PatternError::Malformed));
}

#[test]
fn match_captures_parameters_in_order() {
    let def = ResourceDef::new(b"/users/{id}/posts/{post}").unwrap();
    let (params, end) = def.match_prefix(b"/users/42/posts/7", 0, false).unwrap();
    assert_eq!(end, 17);
    assert_eq!(
        pairs(&params),
        vec![
            (b"id".to_vec(), b"42".to_vec()),
            (b"post".to_vec(), b"7".to_vec())
        ]
    );
}

#[test]
fn match_stops_where_the_pattern_ends() {
    let def = ResourceDef::new(b"/api").unwrap();
    let (params, end) = def.match_prefix(b"/api/v1/items", 0, false).unwrap();
    assert!(params.is_empty());
    assert_eq!(end, 4);
    let rest = ResourceDef::new(b"/v1/{what}").unwrap();
    let (params, end) = rest.match_prefix(b"/api/v1/items", 4, false).unwrap();
    assert_eq!(end, 13);
    assert_eq!(pairs(&params), vec![(b"what".to_vec(), b"items".to_vec())]);
}

#[test]
fn literal_must_equal_the_whole_segment() {
    let def = ResourceDef::new(b"/users").unwrap();
    assert!(def.match_prefix(b"/user", 0, false).is_none());
    assert!(def.match_prefix(b"/users2", 0, false).is_none());
    assert!(def.match_prefix(b"users", 0, false).is_none());
    assert!(def.match_prefix(b"", 0, false).is_none());
}

#[test]
fn parameter_needs_a_non_empty_segment() {
    let def = ResourceDef::new(b"/users/{id}").unwrap();
    assert!(def.match_prefix(b"/users/", 0, false).is_none());
    assert!(def.match_prefix(b"/users", 0, false).is_none());
    assert!(def.match_prefix(b"/users//x", 0, false).is_none());
}

#[test]
fn case_is_ignored_only_on_request() {
    let def = ResourceDef::new(b"/Users/{id}").unwrap();
    assert!(def.match_prefix(b"/users/Ab", 0, false).is_none());
    let (params, _) = def.match_prefix(b"/uSERS/Ab", 0, true).unwrap();
    assert_eq!(pairs(&params), vec![(b"id".to_vec(), b"Ab".to_vec())]);
}

#[test]
fn empty_pattern_matches_everything_as_a_prefix() {
    let def = ResourceDef::root();
    let (params, end) = def.match_prefix(b"/anything", 0, false).unwrap();
    assert!(params.is_empty());
    assert_eq!(end, 0);
}

fn written(def: &ResourceDef) -> Vec<u8> {
    let mut out = Vec::new();
    for s in &def.segments {
        out.push(b'/');
        match s {
            Segment::Static(t) => out.extend_from_slice(t),
            Segment::Param(n) => {
                out.push(b'{');
                out.extend_from_slice(n);
                out.push(b'}');
            }
        }
    }
    out
}

#[test]
fn parsing_is_the_inverse_of_writing_down() {
    for text in [
        &b""[..],
        b"/",
        b"/a",
        b"/a/",
        b"//",
        b"/users/{id}",
        b"/{a}/{b}/c/{d}",
        b"/api/v1/items/{item}/",
    ] {
        let def = ResourceDef::new(text).unwrap();
        assert_eq!(written(&def), text.to_vec());
        let again = ResourceDef::new(&written(&def)).unwrap();
        assert_eq!(statics(&again), statics(&def));
    }
}
