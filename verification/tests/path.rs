use vector_core::keyed::KeyedMap;
use vector_core::path::{OwnedSegment, OwnedTargetPath, OwnedValuePath, PathPrefix};
use vector_core::path_text::{parse_target_path, PathParseError};
use vector_core::value::Value;

fn object(pairs: Vec<(&str, Value)>) -> Value {
    let mut map = KeyedMap::new();
    for (key, value) in pairs {
        map.insert(key.to_string(), value);
    }
    Value::Object(map)
}

fn to_vrl(value: &Value) -> vrl::value::Value {
    match value {
        Value::Bytes(b) => vrl::value::Value::Bytes(b.clone().into()),
        Value::Integer(i) => vrl::value::Value::Integer(*i),
        Value::Boolean(b) => vrl::value::Value::Boolean(*b),
        Value::Array(items) => vrl::value::Value::Array(items.iter().map(to_vrl).collect()),
        Value::Object(map) => vrl::value::Value::Object(
            map.entries.iter().map(|(k, v)| (k.clone().into(), to_vrl(v))).collect(),
        ),
        Value::Null => vrl::value::Value::Null,
        other => panic!("{other:?} is not used here"),
    }
}

fn to_vrl_path(path: &OwnedValuePath) -> vrl::path::OwnedValuePath {
    vrl::path::OwnedValuePath {
        segments: path
            .segments
            .iter()
            .map(|s| match s {
                OwnedSegment::Field(f) => vrl::path::OwnedSegment::Field(f.clone().into()),
                OwnedSegment::Index(i) => vrl::path::OwnedSegment::Index(*i),
            })
            .collect(),
    }
}

fn values() -> Vec<Value> {
    vec![
        Value::Null,
        Value::Integer(1),
        object(vec![]),
        Value::Array(vec![]),
        object(vec![("a", Value::Integer(1)), ("b", object(vec![("a", Value::Boolean(true))]))]),
        object(vec![(
            "a",
            Value::Array(vec![Value::Integer(1), object(vec![("b", Value::Integer(2))])]),
        )]),
        Value::Array(vec![
            object(vec![("a", object(vec![("b", Value::Integer(3))]))]),
            Value::Array(vec![Value::Integer(4)]),
            Value::Integer(5),
        ]),
        object(vec![("b", object(vec![("b", Value::Array(vec![Value::Integer(6)]))]))]),
    ]
}

fn segments() -> Vec<OwnedSegment> {
    vec![
        OwnedSegment::Field("a".to_string()),
        OwnedSegment::Field("b".to_string()),
        OwnedSegment::Index(0),
        OwnedSegment::Index(1),
        OwnedSegment::Index(3),
        OwnedSegment::Index(-1),
        OwnedSegment::Index(-2),
        OwnedSegment::Index(-5),
    ]
}

fn paths() -> Vec<OwnedValuePath> {
    let mut paths = vec![OwnedValuePath { segments: vec![] }];
    let mut last = paths.clone();
    for _ in 0..3 {
        let mut next = vec![];
        for path in &last {
            for segment in segments() {
                let mut longer = path.clone();
                longer.segments.push(segment);
                next.push(longer);
            }
        }
        paths.extend(next.clone());
        last = next;
    }
    paths
}

fn to_vrl_opt(value: Option<&Value>) -> Option<vrl::value::Value> {
    value.map(to_vrl)
}

#[test]
fn values_are_read_as_vrl_reads_them() {
    for value in values() {
        let same = to_vrl(&value);
        for path in paths() {
            let read = same.get(&to_vrl_path(&path)).cloned();
            assert_eq!(to_vrl_opt(value.get(&path)), read, "{value:?} at {path:?}");
        }
    }
}

#[test]
fn values_are_written_as_vrl_writes_them() {
    for value in values() {
        for path in paths() {
            let mut mine = value.clone();
            let mut same = to_vrl(&value);
            let old = mine.insert(&path, Value::Integer(9));
            let same_old = same.insert(&to_vrl_path(&path), vrl::value::Value::Integer(9));
            assert_eq!(to_vrl_opt(old.as_ref()), same_old, "{value:?} at {path:?}");
            assert_eq!(to_vrl(&mine), same, "{value:?} at {path:?}");
        }
    }
}

#[test]
fn values_are_removed_as_vrl_removes_them() {
    for value in values() {
        for path in paths() {
            for prune in [false, true] {
                let mut mine = value.clone();
                let mut same = to_vrl(&value);
                let old = mine.remove(&path, prune);
                let same_old = same.remove(&to_vrl_path(&path), prune);
                assert_eq!(to_vrl_opt(old.as_ref()), same_old, "{value:?} at {path:?}");
                assert_eq!(to_vrl(&mine), same, "{value:?} at {path:?}");
            }
        }
    }
}

#[test]
fn values_are_changed_in_place_as_vrl_changes_them() {
    for value in values() {
        for path in paths() {
            let mut mine = value.clone();
            let mut same = to_vrl(&value);
            match (mine.get_mut(&path), same.get_mut(&to_vrl_path(&path))) {
                (Some(v), Some(w)) => {
                    *v = Value::Null;
                    *w = vrl::value::Value::Null;
                }
                (None, None) => {}
                other => panic!("{other:?}: {value:?} at {path:?}"),
            }
            assert_eq!(to_vrl(&mine), same, "{value:?} at {path:?}");
        }
    }
}

#[test]
fn paths_are_parsed() {
    let path = parse_target_path("%a.b[2].\"c d\"").unwrap();
    assert_eq!(
        path,
        OwnedTargetPath {
            prefix: PathPrefix::Metadata,
            path: OwnedValuePath {
                segments: vec![
                    OwnedSegment::Field("a".to_string()),
                    OwnedSegment::Field("b".to_string()),
                    OwnedSegment::Index(2),
                    OwnedSegment::Field("c d".to_string()),
                ],
            },
        }
    );
    assert!(parse_target_path("a[").is_err());
}

#[test]
fn indices_that_do_not_fit_are_refused() {
    let nines = "9".repeat(25);
    for text in [format!("[{nines}]"), format!("a[-{nines}].b"), format!("a[{nines}"), format!("%a[{nines}]")] {
        match parse_target_path(&text) {
            Err(PathParseError::InvalidPathSyntax { path }) => {
                assert_eq!(path, text.trim_start_matches('%'))
            }
            Ok(path) => panic!("{path:?}"),
        }
    }
    let path = parse_target_path(&format!("\"[{nines}]\"")).unwrap();
    assert_eq!(path.path.segments, vec![OwnedSegment::Field(format!("[{nines}]"))]);
    let path = parse_target_path(&format!("\"a\\\"[{nines}\"")).unwrap();
    assert_eq!(path.path.segments, vec![OwnedSegment::Field(format!("a\"[{nines}"))]);
    let path = parse_target_path(&format!("[{}][{}]", isize::MAX, isize::MIN)).unwrap();
    assert_eq!(
        path.path.segments,
        vec![OwnedSegment::Index(isize::MAX), OwnedSegment::Index(isize::MIN)]
    );
    assert!(parse_target_path("[9223372036854775808]").is_err());
    assert!(parse_target_path("[-9223372036854775809]").is_err());
    assert_eq!(
        parse_target_path("[00000000000000000000000007]").unwrap().path.segments,
        vec![OwnedSegment::Index(7)]
    );
}
