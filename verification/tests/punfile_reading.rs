use punic::punfile::data::{Configuration, PunFile, Repository};
use punic::punfile::{
    dependency_line, dependency_lines, get_cache_prefix, parse_configuration, parse_dependencies,
    parse_pun_file, read_document, read_pun_file, PunfileError,
};
use punic::yaml::YamlValue;

fn text(s: &str) -> YamlValue {
    YamlValue::Text(s.to_string())
}

fn map(entries: Vec<(&str, YamlValue)>) -> YamlValue {
    YamlValue::Mapping(entries.into_iter().map(|(k, v)| (text(k), v)).collect())
}

fn seq(items: Vec<YamlValue>) -> YamlValue {
    YamlValue::Sequence(items)
}

fn framework(name: &str) -> YamlValue {
    map(vec![("name", text(name))])
}

fn repo(repo_name: &str, name: &str, version: &str) -> Repository {
    Repository {
        repo_name: repo_name.to_string(),
        name: name.to_string(),
        version: version.to_string(),
    }
}

fn readme_configuration() -> YamlValue {
    map(vec![
        ("prefix", text("1.0.1")),
        ("local", text("~/Library/Caches/Punic")),
        ("output", text("Carthage/Build")),
        ("s3Bucket", text("some-remote-bucket")),
    ])
}

/// The example Punfile of the README.
fn readme_punfile() -> YamlValue {
    map(vec![
        ("configuration", readme_configuration()),
        (
            "dependencies",
            seq(vec![
                map(vec![("AlamoFire", seq(vec![framework("AlamoFire")]))]),
                map(vec![(
                    "CocoaLumberjack",
                    seq(vec![
                        framework("CocoaLumberjack"),
                        framework("CocoaLumberjackSwift"),
                        framework("CocoaAsyncSocket"),
                    ]),
                )]),
            ]),
        ),
    ])
}

#[test]
fn readme_punfile_is_read() {
    let p = parse_pun_file(&readme_punfile(), None).unwrap();
    assert_eq!(
        p,
        PunFile {
            configuration: Configuration {
                prefix: "1.0.1".to_string(),
                local: "~/Library/Caches/Punic".to_string(),
                output: "Carthage/Build".to_string(),
                s3_bucket: "some-remote-bucket".to_string(),
            },
            frameworks: vec![
                repo("AlamoFire", "AlamoFire", ""),
                repo("CocoaLumberjack", "CocoaLumberjack", ""),
                repo("CocoaLumberjack", "CocoaLumberjackSwift", ""),
                repo("CocoaLumberjack", "CocoaAsyncSocket", ""),
            ],
        }
    );
}

#[test]
fn command_line_prefix_overrides_punfile() {
    let p = parse_pun_file(&readme_punfile(), Some("some_other_path")).unwrap();
    assert_eq!(p.configuration.prefix, "some_other_path");
}

#[test]
fn prefix_defaults_to_output() {
    let without = map(vec![("local", text("l"))]);
    assert_eq!(get_cache_prefix(&without, None), "output");
    let number = map(vec![("prefix", YamlValue::Number("1.0".to_string()))]);
    assert_eq!(get_cache_prefix(&number, None), "output");
    assert_eq!(get_cache_prefix(&readme_configuration(), None), "1.0.1");
    assert_eq!(get_cache_prefix(&readme_configuration(), Some("p")), "p");
}

#[test]
fn non_string_locations_take_defaults() {
    let doc = map(vec![(
        "configuration",
        map(vec![
            ("local", YamlValue::Null),
            ("output", YamlValue::Bool(true)),
            ("s3Bucket", text("b")),
        ]),
    )]);
    let c = parse_configuration(&doc, None).unwrap();
    assert_eq!(c.local, "~/Library/Caches/Punic");
    assert_eq!(c.output, "Carthage/Build");
    assert_eq!(c.prefix, "output");
    assert_eq!(c.s3_bucket, "b");
}

fn configuration_without(key: &str) -> YamlValue {
    let all = vec![
        ("local", text("l")),
        ("output", text("o")),
        ("s3Bucket", text("b")),
    ];
    map(vec![(
        "configuration",
        map(all.into_iter().filter(|(k, _)| *k != key).collect()),
    )])
}

#[test]
fn missing_configuration_keys_are_reported() {
    assert_eq!(
        parse_configuration(&map(vec![]), None),
        Err(PunfileError::MissingConfiguration)
    );
    assert_eq!(
        parse_configuration(&text("not a mapping"), None),
        Err(PunfileError::MissingConfiguration)
    );
    assert_eq!(
        parse_configuration(&configuration_without("local"), None),
        Err(PunfileError::MissingLocal)
    );
    assert_eq!(
        parse_configuration(&configuration_without("output"), None),
        Err(PunfileError::MissingOutput)
    );
    assert_eq!(
        parse_configuration(&configuration_without("s3Bucket"), None),
        Err(PunfileError::MissingS3Bucket)
    );
}

#[test]
fn bucket_must_be_a_string() {
    let doc = map(vec![(
        "configuration",
        map(vec![
            ("local", text("l")),
            ("output", text("o")),
            ("s3Bucket", YamlValue::Number("3".to_string())),
        ]),
    )]);
    assert_eq!(
        parse_configuration(&doc, None),
        Err(PunfileError::S3BucketNotAString)
    );
}

fn with_dependencies(deps: YamlValue) -> YamlValue {
    map(vec![("dependencies", deps)])
}

#[test]
fn dependency_errors_are_reported() {
    assert_eq!(
        parse_dependencies(&map(vec![])),
        Err(PunfileError::MissingDependencies)
    );
    assert_eq!(
        parse_dependencies(&with_dependencies(text("x"))),
        Err(PunfileError::DependenciesNotASequence)
    );
    assert_eq!(
        parse_dependencies(&with_dependencies(seq(vec![text("x")]))),
        Err(PunfileError::DependencyNotAMapping)
    );
    assert_eq!(
        parse_dependencies(&with_dependencies(seq(vec![YamlValue::Mapping(vec![(
            YamlValue::Bool(false),
            seq(vec![])
        )])]))),
        Err(PunfileError::DependencyNameNotAString)
    );
    assert_eq!(
        parse_dependencies(&with_dependencies(seq(vec![map(vec![("A", text("x"))])]))),
        Err(PunfileError::FrameworksNotASequence)
    );
    assert_eq!(
        parse_dependencies(&with_dependencies(seq(vec![map(vec![("A", seq(vec![text("x")]))])]))),
        Err(PunfileError::FrameworkNotAMapping)
    );
    assert_eq!(
        parse_dependencies(&with_dependencies(seq(vec![map(vec![(
            "A",
            seq(vec![map(vec![("version", text("1"))])])
        )])]))),
        Err(PunfileError::MissingFrameworkName)
    );
    assert_eq!(
        parse_dependencies(&with_dependencies(seq(vec![map(vec![(
            "A",
            seq(vec![map(vec![("name", YamlValue::Null)])])
        )])]))),
        Err(PunfileError::FrameworkNameNotAString)
    );
    assert_eq!(
        parse_dependencies(&with_dependencies(seq(vec![map(vec![(
            "A",
            seq(vec![map(vec![
                ("name", text("A")),
                ("version", YamlValue::Number("2".to_string()))
            ])])
        )])]))),
        Err(PunfileError::FrameworkVersionNotAString)
    );
}

#[test]
fn first_bad_framework_decides_the_error() {
    let deps = seq(vec![map(vec![(
        "A",
        seq(vec![
            framework("A"),
            text("bad"),
            map(vec![("version", text("1"))]),
        ]),
    )])]);
    assert_eq!(
        parse_dependencies(&with_dependencies(deps)),
        Err(PunfileError::FrameworkNotAMapping)
    );
}

#[test]
fn configuration_is_read_before_dependencies() {
    let doc = map(vec![("dependencies", text("not a list"))]);
    assert_eq!(
        parse_pun_file(&doc, None),
        Err(PunfileError::MissingConfiguration)
    );
}

#[test]
fn versions_and_entry_order_are_kept() {
    let deps = seq(vec![
        map(vec![
            (
                "B",
                seq(vec![map(vec![("name", text("B1")), ("version", text("2.0"))])]),
            ),
            ("A", seq(vec![framework("A1")])),
        ]),
        map(vec![("C", seq(vec![]))]),
    ]);
    assert_eq!(
        parse_dependencies(&with_dependencies(deps)).unwrap(),
        vec![repo("B", "B1", "2.0"), repo("A", "A1", "")]
    );
}

#[test]
fn yaml_lookup_follows_mapping_keys() {
    let v = map(vec![("a", text("x")), ("b", seq(vec![]))]);
    assert_eq!(v.get("a"), Some(&text("x")));
    assert_eq!(v.get("c"), None);
    assert_eq!(text("a").get("a"), None);
    assert_eq!(v.get("a").unwrap().as_str(), Some("x"));
    assert_eq!(v.get("b").unwrap().as_str(), None);
    let numeric_key = YamlValue::Mapping(vec![(YamlValue::Number("1".to_string()), text("one"))]);
    assert_eq!(numeric_key.get("1"), None);
}

#[test]
fn dependency_lines_list_each_framework() {
    let r = repo("CocoaLumberjack", "CocoaLumberjackSwift", "3.7");
    assert_eq!(
        dependency_line(&r),
        "group: CocoaLumberjack , artifact: CocoaLumberjackSwift, version: 3.7"
    );
    let p = parse_pun_file(&readme_punfile(), None).unwrap();
    let lines = dependency_lines(&p);
    assert_eq!(lines.len(), 4);
    assert_eq!(lines[0], "group: AlamoFire , artifact: AlamoFire, version: ");
}

#[test]
fn duplicate_copies_all_fields() {
    let r = repo("a", "b", "c");
    assert_eq!(r.duplicate(), r);
}

#[test]
fn error_messages_name_the_key() {
    assert_eq!(
        PunfileError::MissingLocal.message(),
        "Unable to read key `local` in Punfile."
    );
    assert_eq!(
        PunfileError::DependenciesNotASequence.message(),
        "Key `dependencies` in Punfile must be an array"
    );
    assert_eq!(
        PunfileError::FrameworkNotAMapping.message(),
        "called `Option::unwrap()` on a `None` value"
    );
}

const README_PUNFILE: &str = "# Configure Punic
configuration:
  # save dependencies into this AWS bucket directory
  prefix: 1.0.1
  # local cache location
  local: ~/Library/Caches/Punic
  # output cache location
  output: Carthage/Build
  # aws bucket location
  s3Bucket: some-remote-bucket

# Search your output directory for these .xcframeworks
dependencies:
# single framework definition
- AlamoFire:
  - name: AlamoFire
# multiple frameworks definition sometimes created by one library
- CocoaLumberjack:
  - name: CocoaLumberjack
  - name: CocoaLumberjackSwift
  - name: CocoaAsyncSocket
";

#[test]
fn readme_punfile_text_is_read() {
    let from_text = read_pun_file(README_PUNFILE, None).unwrap();
    let from_model = parse_pun_file(&readme_punfile(), None).unwrap();
    assert_eq!(from_text, from_model);
}

#[test]
fn punfile_text_scalars_are_kept() {
    let doc = read_document("a: 2.5\nb: true\nc: ~\nd: [x, 2]\n").unwrap();
    assert_eq!(doc.get("a"), Some(&YamlValue::Number("2.5".to_string())));
    assert_eq!(doc.get("b"), Some(&YamlValue::Bool(true)));
    assert_eq!(doc.get("c"), Some(&YamlValue::Null));
    assert_eq!(
        doc.get("d"),
        Some(&seq(vec![text("x"), YamlValue::Number("2".to_string())]))
    );
}

#[test]
fn invalid_yaml_is_reported() {
    let bad = "configuration: [unclosed";
    let expected = format!(
        "{:?}",
        serde_yaml::from_str::<serde_yaml::Value>(bad).unwrap_err()
    );
    assert!(!expected.is_empty());
    let err = read_pun_file(bad, None).unwrap_err();
    assert_eq!(err, PunfileError::InvalidYaml(expected.clone()));
    assert_eq!(
        err.message(),
        format!("called `Result::unwrap()` on an `Err` value: {}", expected)
    );
    assert!(matches!(read_document("{ a: b"), Err(PunfileError::InvalidYaml(_))));
}

#[test]
fn numeric_version_in_text_is_refused() {
    let text = "configuration:\n  local: l\n  output: o\n  s3Bucket: b\ndependencies:\n- A:\n  - name: A\n    version: 5.4\n";
    assert_eq!(
        read_pun_file(text, None),
        Err(PunfileError::FrameworkVersionNotAString)
    );
}
