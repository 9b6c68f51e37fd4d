use compcache::{FnvHasher, WorkInputs, build_fingerprint, env_entries, to_hex_upper};

fn inputs(
    source_files: Vec<Vec<u8>>,
    env_dependencies: Vec<(Vec<u8>, Option<Vec<u8>>)>,
    requirements: Option<Vec<u8>>,
    pyproject: Option<Vec<u8>>,
    file_dependencies: Vec<Vec<u8>>,
    action: &str,
    version: &str,
) -> WorkInputs {
    WorkInputs {
        source_files,
        env_dependencies,
        requirements,
        pyproject,
        file_dependencies,
        action: action.as_bytes().to_vec(),
        interpreter_version: version.as_bytes().to_vec(),
    }
}

#[test]
fn digest_known_vectors() {
    let mut h = FnvHasher::new();
    assert_eq!(h.finish(), 0xcbf29ce484222325);
    h.write_bytes(&b"a".to_vec());
    assert_eq!(h.finish(), 0xaf63dc4c8601ec8c);
    let mut h2 = FnvHasher::new();
    h2.write_bytes(&b"foobar".to_vec());
    assert_eq!(h2.finish(), 0x85944171f73967e8);
}

#[test]
fn digest_streaming_matches_one_shot() {
    let mut h1 = FnvHasher::new();
    h1.write_bytes(&b"foo".to_vec());
    h1.write_bytes(&b"bar".to_vec());
    let mut h2 = FnvHasher::new();
    h2.write_bytes(&b"foobar".to_vec());
    assert_eq!(h1.finish(), h2.finish());
}

#[test]
fn hex_rendering_exact() {
    assert_eq!(to_hex_upper(0), "0000000000000000");
    assert_eq!(to_hex_upper(0xdeadbeef), "00000000DEADBEEF");
    assert_eq!(to_hex_upper(u64::MAX), "FFFFFFFFFFFFFFFF");
    assert_eq!(to_hex_upper(0xcbf29ce484222325), "CBF29CE484222325");
}

#[test]
fn fingerprint_of_empty_inputs() {
    let (key, no_manifest) = build_fingerprint(&inputs(
        vec![],
        vec![],
        None,
        None,
        vec![],
        "",
        "",
    ));
    assert_eq!(key, "CBF29CE484222325");
    assert!(no_manifest);
}

#[test]
fn fingerprint_deterministic() {
    let make = || {
        inputs(
            vec![b"print(1)".to_vec()],
            vec![(b"HOME".to_vec(), Some(b"/root".to_vec()))],
            Some(b"requests==2.0".to_vec()),
            None,
            vec![b"data".to_vec()],
            "check",
            "3.11",
        )
    };
    let (k1, _) = build_fingerprint(&make());
    let (k2, _) = build_fingerprint(&make());
    assert_eq!(k1, k2);
}

#[test]
fn env_unset_resolves_to_bare_entry() {
    let entries = env_entries(&vec![(b"NAME".to_vec(), None)]);
    assert_eq!(entries, vec![b"NAME=".to_vec()]);
}

#[test]
fn env_set_resolves_to_name_equals_value() {
    let entries = env_entries(&vec![
        (b"K".to_vec(), Some(b"v".to_vec())),
        (b"EMPTY".to_vec(), Some(b"".to_vec())),
    ]);
    assert_eq!(entries, vec![b"K=v".to_vec(), b"EMPTY=".to_vec()]);
}

#[test]
fn env_value_changes_fingerprint() {
    let with_unset = inputs(
        vec![],
        vec![(b"NAME".to_vec(), None)],
        None,
        None,
        vec![],
        "check",
        "3.11",
    );
    let with_set = inputs(
        vec![],
        vec![(b"NAME".to_vec(), Some(b"x".to_vec()))],
        None,
        None,
        vec![],
        "check",
        "3.11",
    );
    assert_ne!(build_fingerprint(&with_unset).0, build_fingerprint(&with_set).0);
}

#[test]
fn file_dependency_order_changes_fingerprint() {
    let fwd = inputs(
        vec![],
        vec![],
        None,
        None,
        vec![b"alpha".to_vec(), b"beta".to_vec()],
        "check",
        "3.11",
    );
    let rev = inputs(
        vec![],
        vec![],
        None,
        None,
        vec![b"beta".to_vec(), b"alpha".to_vec()],
        "check",
        "3.11",
    );
    assert_ne!(build_fingerprint(&fwd).0, build_fingerprint(&rev).0);
}

#[test]
fn scenario_change_and_revert() {
    let requirements = b"requests==2.0\n# comment\n\nflask==1.0".to_vec();
    let make = |source: &[u8]| {
        inputs(
            vec![source.to_vec()],
            vec![],
            Some(requirements.clone()),
            None,
            vec![],
            "check",
            "3.11",
        )
    };
    let (f1, notice1) = build_fingerprint(&make(b"print(1)"));
    let (f2, _) = build_fingerprint(&make(b"print(2)"));
    let (f1_again, _) = build_fingerprint(&make(b"print(1)"));
    assert_eq!(f1, "FB5F185E20BD2307");
    assert_eq!(f2, "E6413A90C4BC6298");
    assert_ne!(f1, f2);
    assert_eq!(f1, f1_again);
    assert!(!notice1);
}
