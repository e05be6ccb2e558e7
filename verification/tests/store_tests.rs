use yk::decode::decode_snippet;
use yk::json::Json;
use yk::snippet::CommandSnippet;
use yk::plugin::{insert, NamedSnippet};
use yk::store::{
    load_commands_from_config, load_plugin, load_plugins, load_simple_plugin, note,
    plugin_from_document, plugin_source_name, resolve, LoadError, Loaded, Notice, PluginEntry,
    SourceFile, Warning,
};

fn text(s: &str) -> Json {
    Json::Text(s.to_string())
}

fn list(items: &[&str]) -> Json {
    Json::List(items.iter().map(|s| text(s)).collect())
}

fn object(members: Vec<(&str, Json)>) -> Json {
    Json::Object(members.into_iter().map(|(k, v)| (k.to_string(), v)).collect())
}

fn empty_snippet() -> CommandSnippet {
    CommandSnippet {
        labels: Vec::new(),
        description: None,
        executable: None,
        entry_point: None,
        args: Vec::new(),
        if_shell: false,
    }
}

fn content(s: &str) -> SourceFile {
    SourceFile::Text(s.to_string())
}

fn names(loaded: &Loaded) -> Vec<String> {
    match &loaded.plugin {
        Some(plugin) => plugin.commands.iter().map(|c| c.name.clone()).collect(),
        None => Vec::new(),
    }
}

#[test]
fn an_object_with_every_member_is_a_snippet() {
    let json = object(vec![
        ("labels", list(&["vcs", "git"])),
        ("description", text("working tree status")),
        ("executable", text("git")),
        ("entry_point", text("scripts/run.sh")),
        ("args", list(&["status", "-s"])),
        ("if_shell", Json::Bool(true)),
    ]);
    assert_eq!(
        decode_snippet(&json),
        Some(CommandSnippet {
            labels: vec!["vcs".to_string(), "git".to_string()],
            description: Some("working tree status".to_string()),
            executable: Some("git".to_string()),
            entry_point: Some("scripts/run.sh".to_string()),
            args: vec!["status".to_string(), "-s".to_string()],
            if_shell: true,
        })
    );
}

#[test]
fn absent_members_take_their_defaults() {
    assert_eq!(decode_snippet(&object(vec![])), Some(empty_snippet()));
    let json = object(vec![("executable", text("ls"))]);
    let mut expected = empty_snippet();
    expected.executable = Some("ls".to_string());
    assert_eq!(decode_snippet(&json), Some(expected));
}

#[test]
fn null_is_none_for_texts_only() {
    let json = object(vec![
        ("description", Json::Null),
        ("executable", Json::Null),
        ("entry_point", Json::Null),
    ]);
    assert_eq!(decode_snippet(&json), Some(empty_snippet()));
    assert_eq!(decode_snippet(&object(vec![("labels", Json::Null)])), None);
    assert_eq!(decode_snippet(&object(vec![("args", Json::Null)])), None);
    assert_eq!(decode_snippet(&object(vec![("if_shell", Json::Null)])), None);
}

#[test]
fn unknown_members_are_ignored() {
    let json = object(vec![
        ("comment", Json::Number),
        ("executable", text("ls")),
        ("nested", object(vec![("labels", Json::Bool(true))])),
    ]);
    let mut expected = empty_snippet();
    expected.executable = Some("ls".to_string());
    assert_eq!(decode_snippet(&json), Some(expected));
}

#[test]
fn a_member_of_the_wrong_kind_is_no_snippet() {
    assert_eq!(decode_snippet(&object(vec![("labels", text("oops"))])), None);
    assert_eq!(decode_snippet(&object(vec![("labels", Json::List(vec![Json::Number]))])), None);
    assert_eq!(decode_snippet(&object(vec![("description", Json::Bool(true))])), None);
    assert_eq!(decode_snippet(&object(vec![("executable", Json::Number)])), None);
    assert_eq!(decode_snippet(&object(vec![("entry_point", list(&["a"]))])), None);
    assert_eq!(decode_snippet(&object(vec![("args", text("a b"))])), None);
    assert_eq!(decode_snippet(&object(vec![("if_shell", text("true"))])), None);
}

#[test]
fn a_scalar_is_no_snippet() {
    assert_eq!(decode_snippet(&Json::Null), None);
    assert_eq!(decode_snippet(&Json::Bool(true)), None);
    assert_eq!(decode_snippet(&Json::Number), None);
    assert_eq!(decode_snippet(&text("git status")), None);
}

#[test]
fn a_list_of_the_six_parts_is_a_snippet() {
    let json = Json::List(vec![
        list(&["l"]),
        text("d"),
        Json::Null,
        text("e.sh"),
        list(&["a"]),
        Json::Bool(true),
    ]);
    assert_eq!(
        decode_snippet(&json),
        Some(CommandSnippet {
            labels: vec!["l".to_string()],
            description: Some("d".to_string()),
            executable: None,
            entry_point: Some("e.sh".to_string()),
            args: vec!["a".to_string()],
            if_shell: true,
        })
    );
    let four = Json::List(vec![list(&[]), Json::Null, text("x"), Json::Null]);
    let mut expected = empty_snippet();
    expected.executable = Some("x".to_string());
    assert_eq!(decode_snippet(&four), Some(expected));
}

#[test]
fn a_list_of_another_length_is_no_snippet() {
    assert_eq!(decode_snippet(&Json::List(vec![])), None);
    assert_eq!(decode_snippet(&Json::List(vec![list(&[]), Json::Null, Json::Null])), None);
    let seven = Json::List(vec![
        list(&[]),
        Json::Null,
        Json::Null,
        Json::Null,
        list(&[]),
        Json::Bool(false),
        Json::Null,
    ]);
    assert_eq!(decode_snippet(&seven), None);
    let wrong = Json::List(vec![Json::Null, Json::Null, Json::Null, Json::Null]);
    assert_eq!(decode_snippet(&wrong), None);
}

#[test]
fn the_first_member_of_a_key_counts() {
    let json = object(vec![("executable", text("first")), ("executable", Json::Number)]);
    let mut expected = empty_snippet();
    expected.executable = Some("first".to_string());
    assert_eq!(decode_snippet(&json), Some(expected));
}

#[test]
fn a_relative_entry_point_is_resolved_against_the_directory() {
    let mut snippet = empty_snippet();
    snippet.executable = Some("bin/tool".to_string());
    snippet.entry_point = Some("scripts/run.sh".to_string());
    let settled = resolve("/home/u/plugins/p", snippet);
    assert_eq!(settled.entry_point, Some("/home/u/plugins/p/scripts/run.sh".to_string()));
    assert_eq!(settled.executable, Some("bin/tool".to_string()));
}

#[test]
fn an_absolute_entry_point_stays() {
    let mut snippet = empty_snippet();
    snippet.entry_point = Some("/opt/run.sh".to_string());
    let once = resolve("/home/u/plugins/p", snippet);
    assert_eq!(once.entry_point, Some("/opt/run.sh".to_string()));
    let twice = resolve("/elsewhere", once.clone());
    assert_eq!(twice, once);
    assert_eq!(resolve("/base", empty_snippet()), empty_snippet());
}

#[test]
fn resolving_twice_is_resolving_once() {
    let mut snippet = empty_snippet();
    snippet.entry_point = Some("run.sh".to_string());
    let once = resolve("/base", snippet);
    assert_eq!(resolve("/base", once.clone()), once);
}

#[test]
fn insert_replaces_the_entry_of_the_same_name() {
    let mut commands: Vec<NamedSnippet> = Vec::new();
    let mut first = empty_snippet();
    first.executable = Some("one".to_string());
    let mut second = empty_snippet();
    second.executable = Some("two".to_string());
    let mut third = empty_snippet();
    third.executable = Some("three".to_string());
    insert(&mut commands, "a".to_string(), first.clone());
    insert(&mut commands, "b".to_string(), second.clone());
    insert(&mut commands, "a".to_string(), third.clone());
    assert_eq!(
        commands,
        vec![
            NamedSnippet { name: "a".to_string(), snippet: third },
            NamedSnippet { name: "b".to_string(), snippet: second },
        ]
    );
}

#[test]
fn three_valid_entries_and_one_invalid_give_three() {
    let source = r#"{
        "a": {"executable": "git", "args": ["status", "-s"]},
        "b": {"labels": "not a list"},
        "c": {"entry_point": "run.sh", "if_shell": true},
        "d": {"labels": ["x"], "description": null}
    }"#;
    let loaded =
        load_commands_from_config("/cfg/p/p.json", Some("/cfg/p"), &content(source)).unwrap();
    assert_eq!(names(&loaded), vec!["a", "c", "d"]);
    assert_eq!(loaded.warnings, vec![Warning::InvalidEntry("b".to_string())]);
    let plugin = loaded.plugin.unwrap();
    assert_eq!(plugin.commands.len(), 3);
    assert_eq!(plugin.plugin_dir, "/cfg/p");
    assert_eq!(plugin.config_file, "/cfg/p/p.json");
    assert_eq!(plugin.commands[0].snippet.args, vec!["status", "-s"]);
    assert_eq!(plugin.commands[1].snippet.entry_point, Some("/cfg/p/run.sh".to_string()));
    assert!(plugin.commands[1].snippet.if_shell);
    assert_eq!(plugin.commands[2].snippet.labels, vec!["x"]);
}

#[test]
fn the_invalid_entry_changes_nothing() {
    let with = r#"{"a": {"executable": "git"}, "b": 7, "c": {"args": ["x"]}}"#;
    let without = r#"{"a": {"executable": "git"}, "c": {"args": ["x"]}}"#;
    let one = load_commands_from_config("/f.json", Some("/"), &content(with)).unwrap();
    let other = load_commands_from_config("/f.json", Some("/"), &content(without)).unwrap();
    assert_eq!(one.plugin, other.plugin);
    assert!(one.plugin.is_some());
}

#[test]
fn a_source_without_a_valid_entry_is_no_source() {
    let source = r#"{"a": 1, "b": "text", "c": {"labels": 3}, "d": [1, 2]}"#;
    let loaded = load_commands_from_config("/f.json", Some("/"), &content(source)).unwrap();
    assert_eq!(loaded.plugin, None);
    assert_eq!(
        loaded.warnings,
        vec![
            Warning::InvalidEntry("a".to_string()),
            Warning::InvalidEntry("b".to_string()),
            Warning::InvalidEntry("c".to_string()),
            Warning::InvalidEntry("d".to_string()),
            Warning::NoValidCommands,
        ]
    );
}

#[test]
fn an_empty_object_is_no_source() {
    let loaded = load_commands_from_config("/f.json", Some("/"), &content("{}")).unwrap();
    assert_eq!(loaded, Loaded { plugin: None, warnings: vec![Warning::NoValidCommands] });
}

#[test]
fn a_document_that_is_no_object_is_no_source() {
    for source in ["[]", "[{\"executable\": \"x\"}]", "3", "\"text\"", "null", "true"] {
        let loaded = load_commands_from_config("/f.json", Some("/"), &content(source)).unwrap();
        assert_eq!(loaded, Loaded { plugin: None, warnings: vec![Warning::NotAnObject] });
    }
}

#[test]
fn a_missing_file_is_no_source() {
    let loaded = load_commands_from_config("/f.json", Some("/"), &SourceFile::Missing).unwrap();
    assert_eq!(loaded, Loaded { plugin: None, warnings: vec![Warning::Missing] });
    let loaded = load_commands_from_config("/f.json", None, &SourceFile::Missing).unwrap();
    assert_eq!(loaded, Loaded { plugin: None, warnings: vec![Warning::Missing] });
}

#[test]
fn what_is_no_regular_file_is_no_source() {
    let loaded = load_commands_from_config("/f.json", Some("/"), &SourceFile::NotAFile).unwrap();
    assert_eq!(loaded, Loaded { plugin: None, warnings: vec![Warning::NotAFile] });
}

#[test]
fn a_file_without_a_directory_fails() {
    assert_eq!(
        load_commands_from_config("/", None, &content("{\"a\": {}}")),
        Err(LoadError::NoDirectory)
    );
    assert_eq!(
        load_commands_from_config("/", None, &SourceFile::Unreadable),
        Err(LoadError::NoDirectory)
    );
}

#[test]
fn an_unreadable_file_is_no_source() {
    assert_eq!(
        load_commands_from_config("/f.json", Some("/"), &SourceFile::Unreadable),
        Ok(Loaded { plugin: None, warnings: vec![Warning::Failed(LoadError::Unreadable)] })
    );
}

#[test]
fn text_that_is_no_json_is_no_source() {
    for source in
        ["", "{", "{not json", "{\"a\": }", "{\"a\": {}} trailing", "{'a': 1}", "\u{feff}{}"]
    {
        assert_eq!(
            load_commands_from_config("/f.json", Some("/"), &content(source)),
            Ok(Loaded { plugin: None, warnings: vec![Warning::Failed(LoadError::InvalidJson)] }),
            "{:?}",
            source
        );
    }
}

#[test]
fn the_document_is_read_not_the_text() {
    let source = "{\"k\": {\"executable\": \"a\\u0062\\t\", \"args\": [\"\\\"q\\\"\\n\"]}}";
    let loaded = load_commands_from_config("/f.json", Some("/"), &content(source)).unwrap();
    let plugin = loaded.plugin.unwrap();
    assert_eq!(plugin.commands[0].name, "k");
    assert_eq!(plugin.commands[0].snippet.executable, Some("ab\t".to_string()));
    assert_eq!(plugin.commands[0].snippet.args, vec!["\"q\"\n"]);
}

#[test]
fn a_repeated_key_gives_one_entry() {
    let source = r#"{"a": {"executable": "one"}, "a": {"executable": "two"}}"#;
    let loaded = load_commands_from_config("/f.json", Some("/"), &content(source)).unwrap();
    let plugin = loaded.plugin.unwrap();
    assert_eq!(plugin.commands.len(), 1);
    assert_eq!(plugin.commands[0].snippet.executable, Some("two".to_string()));
}

#[test]
fn a_document_given_by_hand_is_loaded_member_by_member() {
    let document = object(vec![
        ("a", object(vec![("executable", text("one"))])),
        ("bad", Json::Number),
        ("b", object(vec![("entry_point", text("b.sh"))])),
        ("a", object(vec![("executable", text("again"))])),
    ]);
    let loaded = plugin_from_document("/d/f.json", "/d", &document);
    assert_eq!(names(&loaded), vec!["a", "b"]);
    assert_eq!(loaded.warnings, vec![Warning::InvalidEntry("bad".to_string())]);
    let plugin = loaded.plugin.unwrap();
    assert_eq!(plugin.commands[0].snippet.executable, Some("again".to_string()));
    assert_eq!(plugin.commands[1].snippet.entry_point, Some("/d/b.sh".to_string()));
    assert_eq!(
        plugin_from_document("/d/f.json", "/d", &Json::List(Vec::new())),
        Loaded { plugin: None, warnings: vec![Warning::NotAnObject] }
    );
}

#[test]
fn the_simple_commands_lie_below_the_home_directory() {
    let source = r#"{"list": {"executable": "ls", "entry_point": "x.sh"}}"#;
    let loaded = load_simple_plugin("/home/u", &content(source)).unwrap();
    let plugin = loaded.plugin.unwrap();
    assert_eq!(plugin.config_file, "/home/u/.config/yk/simple_commands.json");
    assert_eq!(plugin.plugin_dir, "/home/u/.config/yk");
    assert_eq!(
        plugin.commands[0].snippet.entry_point,
        Some("/home/u/.config/yk/x.sh".to_string())
    );
    assert_eq!(
        load_simple_plugin("/home/u", &content("{")),
        Ok(Loaded { plugin: None, warnings: vec![Warning::Failed(LoadError::InvalidJson)] })
    );
    assert_eq!(
        load_simple_plugin("", &SourceFile::Unreadable),
        Ok(Loaded { plugin: None, warnings: vec![Warning::Failed(LoadError::Unreadable)] })
    );
}

#[test]
fn a_plugin_is_a_directory_with_a_file_named_after_it() {
    let entry = PluginEntry {
        name: "tools".to_string(),
        is_dir: true,
        found: content(r#"{"t": {"entry_point": "t.sh"}}"#),
    };
    let loaded = load_plugin("/cfg/plugins", &entry).unwrap().unwrap();
    let plugin = loaded.plugin.unwrap();
    assert_eq!(plugin.config_file, "/cfg/plugins/tools/tools.json");
    assert_eq!(plugin.plugin_dir, "/cfg/plugins/tools");
    assert_eq!(
        plugin.commands[0].snippet.entry_point,
        Some("/cfg/plugins/tools/t.sh".to_string())
    );
    let file = PluginEntry { name: "notes.txt".to_string(), is_dir: false, found: content("{}") };
    assert_eq!(load_plugin("/cfg/plugins", &file), None);
}

#[test]
fn plugins_are_loaded_in_order_and_none_stops_the_others() {
    let entries = vec![
        PluginEntry { name: "one".to_string(), is_dir: true, found: SourceFile::Missing },
        PluginEntry {
            name: "two".to_string(),
            is_dir: true,
            found: content(r#"{"a": {"executable": "x"}, "b": 1}"#),
        },
        PluginEntry {
            name: "README".to_string(),
            is_dir: false,
            found: content(r#"{"r": {"executable": "x"}}"#),
        },
        PluginEntry { name: "three".to_string(), is_dir: true, found: content("not json") },
        PluginEntry { name: "four".to_string(), is_dir: true, found: content("{}") },
        PluginEntry {
            name: "five".to_string(),
            is_dir: true,
            found: content(r#"{"z": {"args": ["z"]}}"#),
        },
    ];
    let loaded = load_plugins("/cfg/plugins", &entries);
    let files: Vec<&str> = loaded.plugins.iter().map(|p| p.config_file.as_str()).collect();
    assert_eq!(files, vec!["/cfg/plugins/two/two.json", "/cfg/plugins/five/five.json"]);
    let notice = |source: &str, warning: Warning| Notice { source: source.to_string(), warning };
    assert_eq!(
        loaded.notices,
        vec![
            notice("plugin one", Warning::Missing),
            notice("plugin two", Warning::InvalidEntry("b".to_string())),
            notice("plugin three", Warning::Failed(LoadError::InvalidJson)),
            notice("plugin four", Warning::NoValidCommands),
        ]
    );
    let none = load_plugins("/cfg/plugins", &Vec::new());
    assert!(none.plugins.is_empty());
    assert!(none.notices.is_empty());
}

#[test]
fn notes_are_added_after_those_that_are_there() {
    let mut notices = vec![Notice { source: "s".to_string(), warning: Warning::Missing }];
    note(
        "t",
        &Ok(Loaded {
            plugin: None,
            warnings: vec![Warning::InvalidEntry("a".to_string()), Warning::NoValidCommands],
        }),
        &mut notices,
    );
    note("u", &Err(LoadError::NoDirectory), &mut notices);
    assert_eq!(
        notices,
        vec![
            Notice { source: "s".to_string(), warning: Warning::Missing },
            Notice { source: "t".to_string(), warning: Warning::InvalidEntry("a".to_string()) },
            Notice { source: "t".to_string(), warning: Warning::NoValidCommands },
            Notice { source: "u".to_string(), warning: Warning::Failed(LoadError::NoDirectory) },
        ]
    );
    assert_eq!(plugin_source_name("tools"), "plugin tools");
}

#[test]
fn an_entry_that_holds_the_delimiter_is_skipped() {
    let source = "{\"a\": {\"executable\": \"x\"}, \"b \u{1F343}\u{2500}\u{2500}\u{2500}\u{2500}\u{1F343} c\": {}, \"d\": {\"labels\": [\"l\", \"\u{1F343}\u{2500}\u{2500}\u{2500}\u{2500}\"]}, \"e\": {\"executable\": \"\u{1F343}\u{2500}\u{2500}\u{2500}\u{2500}\u{1F343}\"}}";
    let loaded = load_commands_from_config("/f.json", Some("/"), &content(source)).unwrap();
    assert_eq!(names(&loaded), vec!["a"]);
    assert_eq!(
        loaded.warnings,
        vec![
            Warning::Ambiguous("b \u{1F343}\u{2500}\u{2500}\u{2500}\u{2500}\u{1F343} c".to_string()),
            Warning::Ambiguous("d".to_string()),
            Warning::Ambiguous("e".to_string()),
        ]
    );
}

#[test]
fn an_entry_that_holds_a_line_feed_is_skipped() {
    let source = r#"{"a\n7: forged": {}, "b": {"labels": ["x\ny"]}, "c": {"executable": "e\n"},
        "d": {"description": "two\nlines", "args": ["a\nb"], "entry_point": "p\nq"}}"#;
    let loaded = load_commands_from_config("/f.json", Some("/"), &content(source)).unwrap();
    assert_eq!(names(&loaded), vec!["d"]);
    assert_eq!(
        loaded.warnings,
        vec![
            Warning::Ambiguous("a\n7: forged".to_string()),
            Warning::Ambiguous("b".to_string()),
            Warning::Ambiguous("c".to_string()),
        ]
    );
}

#[test]
fn a_source_file_that_holds_the_delimiter_has_no_entries() {
    let source = r#"{"a": {"executable": "x"}}"#;
    let loaded = load_commands_from_config(
        "/odd \u{1F343}\u{2500}\u{2500}\u{2500}\u{2500}\u{1F343}/f.json",
        Some("/"),
        &content(source),
    )
    .unwrap();
    assert_eq!(
        loaded,
        Loaded {
            plugin: None,
            warnings: vec![Warning::Ambiguous("a".to_string()), Warning::NoValidCommands],
        }
    );
}

#[test]
fn parts_of_the_delimiter_are_no_delimiter() {
    let source = "{\"leaf \u{1F343} and dashes \u{2500}\u{2500}\u{2500}\u{2500}\": {\"labels\": [\"\u{1F343}\"], \"executable\": \"\u{2500}\u{1F343}\"}}";
    let loaded = load_commands_from_config("/f.json", Some("/"), &content(source)).unwrap();
    assert_eq!(loaded.warnings, Vec::<Warning>::new());
    assert_eq!(names(&loaded).len(), 1);
}
