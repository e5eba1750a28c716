use config_center::directory::{
    is_yaml_file, load_env_configs, load_project_meta, load_shared, load_tree, split_name,
    ConfigDir, DirEntry, ProjectDir,
};
use config_center::models::ConfigItem;
use config_center::value::{ConfigNumber, ConfigValue};
use config_center::yaml::{load_yaml_map, yaml_to_json, YamlNode};

fn text(s: &str) -> ConfigValue {
    ConfigValue::String(s.to_string())
}

fn num(n: u64) -> ConfigValue {
    ConfigValue::Number(ConfigNumber::PosInt(n))
}

fn item(key: &str, value: ConfigValue) -> ConfigItem {
    ConfigItem { key: key.to_string(), value }
}

fn file(name: &str, content: &str) -> DirEntry {
    DirEntry { name: name.to_string(), is_file: true, content: Some(content.to_string()) }
}

#[test]
fn yaml_scalars_become_values() {
    let items = load_yaml_map(
        "s: text\ni: 42\nneg: -7\nf: 1.5\nbig: 18446744073709551615\nt: true\nn: ~\ninf: .inf\nq: \"5\"\n",
    )
    .unwrap();
    assert_eq!(
        items,
        vec![
            item("s", text("text")),
            item("i", num(42)),
            item("neg", ConfigValue::Number(ConfigNumber::NegInt(-7))),
            item("f", ConfigValue::Number(ConfigNumber::Float("1.5".to_string()))),
            item(
                "big",
                ConfigValue::Number(ConfigNumber::Float("1.8446744073709552e+19".to_string()))
            ),
            item("t", ConfigValue::Bool(true)),
            item("n", ConfigValue::Null),
            item("inf", ConfigValue::Null),
            item("q", text("5")),
        ]
    );
}

#[test]
fn yaml_keys_that_are_no_strings_become_json_text() {
    let items = load_yaml_map("1: one\ntrue: yes\n~: nothing\n[a, 2]: list\n").unwrap();
    let keys: Vec<&str> = items.iter().map(|i| i.key.as_str()).collect();
    assert_eq!(keys, vec!["1", "true", "null", "[\"a\",2]"]);
}

#[test]
fn a_later_entry_takes_the_place_of_an_earlier_one_with_its_key() {
    let node = YamlNode::Mapping(vec![
        (YamlNode::String("a".to_string()), YamlNode::Bool(false)),
        (YamlNode::String("b".to_string()), YamlNode::Null),
        (YamlNode::Number { integer: Some(1), decimal: Some("1.0".to_string()) }, YamlNode::Null),
        (YamlNode::String("a".to_string()), YamlNode::Bool(true)),
        (YamlNode::String("1".to_string()), YamlNode::String("one".to_string())),
    ]);
    assert_eq!(
        yaml_to_json(&node),
        ConfigValue::Object(vec![
            ("a".to_string(), ConfigValue::Bool(true)),
            ("b".to_string(), ConfigValue::Null),
            ("1".to_string(), text("one")),
        ])
    );
}

#[test]
fn yaml_numbers_prefer_the_integer() {
    let both = YamlNode::Number { integer: Some(-3), decimal: Some("-3.0".to_string()) };
    assert_eq!(yaml_to_json(&both), ConfigValue::Number(ConfigNumber::NegInt(-3)));
    let zero = YamlNode::Number { integer: Some(0), decimal: None };
    assert_eq!(yaml_to_json(&zero), num(0));
    let decimal = YamlNode::Number { integer: None, decimal: Some("2.5".to_string()) };
    assert_eq!(yaml_to_json(&decimal), ConfigValue::Number(ConfigNumber::Float("2.5".to_string())));
    let neither = YamlNode::Number { integer: None, decimal: None };
    assert_eq!(yaml_to_json(&neither), ConfigValue::Null);
}

#[test]
fn tagged_nodes_and_sequences_are_converted_inside() {
    let node = YamlNode::Tagged(Box::new(YamlNode::Sequence(vec![
        YamlNode::Tagged(Box::new(YamlNode::String("x".to_string()))),
        YamlNode::Mapping(vec![]),
    ])));
    assert_eq!(
        yaml_to_json(&node),
        ConfigValue::Array(vec![text("x"), ConfigValue::Object(vec![])])
    );
    let items = load_yaml_map("point: !pair [1, 2]\n").unwrap();
    assert_eq!(items, vec![item("point", ConfigValue::Array(vec![num(1), num(2)]))]);
}

#[test]
fn yaml_that_is_no_mapping_holds_no_items() {
    assert_eq!(load_yaml_map("- a\n- b\n"), None);
    assert_eq!(load_yaml_map("just text"), None);
    assert_eq!(load_yaml_map(""), None);
    assert_eq!(load_yaml_map("{{invalid yaml"), None);
    assert_eq!(load_yaml_map("{}"), Some(vec![]));
}

#[test]
fn file_names_split_at_the_last_dot() {
    let split = |name: &str| {
        let (stem, ext) = split_name(name);
        (stem, ext)
    };
    assert_eq!(split("default.yaml"), ("default".to_string(), Some("yaml".to_string())));
    assert_eq!(split("a.b.yml"), ("a.b".to_string(), Some("yml".to_string())));
    assert_eq!(split("noext"), ("noext".to_string(), None));
    assert_eq!(split(".hidden"), (".hidden".to_string(), None));
    assert_eq!(split(".hidden.yaml"), (".hidden".to_string(), Some("yaml".to_string())));
    assert_eq!(split("trailing."), ("trailing".to_string(), Some("".to_string())));
    assert_eq!(split(".."), ("..".to_string(), None));
    assert_eq!(split(""), ("".to_string(), None));
}

#[test]
fn yaml_files_are_files_with_the_extension() {
    assert!(is_yaml_file("default.yaml", true));
    assert!(is_yaml_file("default.yml", true));
    assert!(!is_yaml_file("default.yaml", false));
    assert!(!is_yaml_file("default.YAML", true));
    assert!(!is_yaml_file("default.json", true));
    assert!(!is_yaml_file("yaml", true));
    assert!(!is_yaml_file(".yaml", true));
    assert!(!is_yaml_file("default.yaml.bak", true));
}

#[test]
fn environments_come_from_yaml_files_only() {
    let entries = vec![
        file("default.yaml", "a: 1\n"),
        file("project.yaml", "description: d\n"),
        file("project.yml", "b: 2\n"),
        file("notes.txt", "c: 3\n"),
        file("broken.yaml", "- no mapping\n"),
        DirEntry { name: "dir.yaml".to_string(), is_file: false, content: None },
        DirEntry { name: "unread.yaml".to_string(), is_file: true, content: None },
        file("prod.yml", "d: 4\n"),
        file("default.yml", "a: 5\n"),
    ];
    let envs = load_env_configs(&entries);
    let names: Vec<&str> = envs.iter().map(|e| e.name.as_str()).collect();
    assert_eq!(names, vec!["default", "prod"]);
    assert_eq!(envs[0].config_items, vec![item("a", num(5))]);

    let shared = load_shared(&entries);
    let names: Vec<&str> = shared.iter().map(|e| e.name.as_str()).collect();
    assert_eq!(names, vec!["default", "project", "prod"]);
    assert_eq!(shared[1].config_items, vec![item("b", num(2))]);
}

#[test]
fn project_meta_degrades_to_nothing() {
    let meta = load_project_meta(Some("description: d\napi_keys:\n  - key: a\n  - key: b\n"));
    assert_eq!(meta.description, Some("d".to_string()));
    assert_eq!(meta.api_keys, vec!["a".to_string(), "b".to_string()]);

    let meta = load_project_meta(Some("description: ~\n"));
    assert_eq!(meta.description, None);
    assert!(meta.api_keys.is_empty());

    for content in [
        None,
        Some(""),
        Some("- list\n"),
        Some("description: 5\n"),
        Some("api_keys: text\n"),
        Some("description: d\napi_keys:\n  - key: 7\n"),
        Some("description: d\napi_keys:\n  - token: a\n"),
        Some(": : :"),
    ] {
        let meta = load_project_meta(content);
        assert_eq!(meta.description, None, "{:?}", content);
        assert!(meta.api_keys.is_empty(), "{:?}", content);
    }
}

#[test]
fn a_later_directory_of_one_name_replaces_the_earlier() {
    let dir = ConfigDir {
        projects: vec![
            ProjectDir {
                name: "a".to_string(),
                entries: vec![file("project.yaml", "api_keys:\n  - key: old\n"), file("x.yaml", "k: 1\n")],
            },
            ProjectDir {
                name: "b".to_string(),
                entries: vec![file("project.yaml", "api_keys:\n  - key: kb\n")],
            },
            ProjectDir {
                name: "a".to_string(),
                entries: vec![
                    file("project.yaml", "description: new\napi_keys:\n  - key: new\n"),
                    file("y.yaml", "k: 2\n"),
                ],
            },
        ],
        shared: vec![],
    };
    let tree = load_tree(Some(&dir));
    let names: Vec<&str> = tree.projects.iter().map(|p| p.name.as_str()).collect();
    assert_eq!(names, vec!["a", "b"]);
    assert_eq!(tree.projects[0].description, Some("new".to_string()));
    assert_eq!(tree.projects[0].environments.len(), 1);
    assert_eq!(tree.projects[0].environments[0].name, "y");
    let keys: Vec<(&str, &str)> =
        tree.api_keys.iter().map(|k| (k.key.as_str(), k.project.as_str())).collect();
    assert_eq!(keys, vec![("kb", "b"), ("new", "a")]);
    assert!(load_tree(None).projects.is_empty());
}
