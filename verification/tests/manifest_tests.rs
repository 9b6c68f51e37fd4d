use compcache::{parse_requirements, project_dependencies};

#[test]
fn requirements_skip_comments_and_blanks() {
    let content = b"requests==2.0\n# comment\n\nflask==1.0".to_vec();
    let deps = parse_requirements(&content);
    assert_eq!(deps, vec![b"requests==2.0".to_vec(), b"flask==1.0".to_vec()]);
}

#[test]
fn requirements_trim_whitespace() {
    let content = b"  foo \r\n\t\n # indented comment\nbar\n".to_vec();
    let deps = parse_requirements(&content);
    assert_eq!(deps, vec![b"foo".to_vec(), b"bar".to_vec()]);
}

#[test]
fn requirements_empty_content() {
    assert_eq!(parse_requirements(&Vec::new()), Vec::<Vec<u8>>::new());
    let only_noise = b"\n\n# nothing here\n   \n".to_vec();
    assert_eq!(parse_requirements(&only_noise), Vec::<Vec<u8>>::new());
}

#[test]
fn plain_list_wins_over_structured_manifest() {
    let requirements = b"requests==2.0".to_vec();
    let pyproject = b"[project]\ndependencies = [\"alpha\"]\n".to_vec();
    let (deps, no_manifest) = project_dependencies(&Some(requirements), &Some(pyproject));
    assert_eq!(deps, vec![b"requests==2.0".to_vec()]);
    assert!(!no_manifest);
}

#[test]
fn structured_manifest_dependencies() {
    let pyproject = b"[project]\ndependencies = [\"alpha\", \"beta\"]\n\n[project.optional-dependencies]\ndev = [\"gamma\"]\nextra = [\"delta\"]\n".to_vec();
    let (deps, no_manifest) = project_dependencies(&None, &Some(pyproject));
    assert_eq!(
        deps,
        vec![
            b"alpha".to_vec(),
            b"beta".to_vec(),
            b"gamma".to_vec(),
            b"delta".to_vec(),
        ]
    );
    assert!(!no_manifest);
}

#[test]
fn malformed_structured_manifest_degrades_to_empty() {
    let pyproject = b"not = = toml [".to_vec();
    let (deps, no_manifest) = project_dependencies(&None, &Some(pyproject));
    assert_eq!(deps, Vec::<Vec<u8>>::new());
    assert!(!no_manifest);
}

#[test]
fn no_manifest_found() {
    let (deps, no_manifest) = project_dependencies(&None, &None);
    assert_eq!(deps, Vec::<Vec<u8>>::new());
    assert!(no_manifest);
}
