use yk::catalog::{flatten, load_commands, AllCommandSnippets, FullCommandSnippet};
use yk::codec::{delimiter_text, encode_catalog, is_separable};
use yk::snippet::CommandSnippet;
use yk::plugin::{NamedSnippet, Plugin};
use yk::store::{LoadError, Notice, PluginEntry, SourceFile, Warning};

fn snippet(executable: Option<&str>, entry_point: Option<&str>, args: &[&str]) -> CommandSnippet {
    CommandSnippet {
        labels: Vec::new(),
        description: None,
        executable: executable.map(|e| e.to_string()),
        entry_point: entry_point.map(|e| e.to_string()),
        args: args.iter().map(|a| a.to_string()).collect(),
        if_shell: false,
    }
}

fn content(s: &str) -> SourceFile {
    SourceFile::Text(s.to_string())
}

#[test]
fn a_command_is_composed_of_executable_and_arguments() {
    assert_eq!(snippet(Some("git"), None, &["status", "-s"]).complete_command(), "git status -s");
}

#[test]
fn a_command_without_parts_is_empty() {
    assert_eq!(snippet(None, None, &[]).complete_command(), "");
}

#[test]
fn a_command_is_composed_in_the_order_of_its_parts() {
    assert_eq!(
        snippet(Some("python3"), Some("/p/run.py"), &["-v", "x y"]).complete_command(),
        "python3 /p/run.py -v x y"
    );
    assert_eq!(snippet(None, Some("/p/run.sh"), &[]).complete_command(), "/p/run.sh");
    assert_eq!(snippet(None, None, &["only"]).complete_command(), "only");
    assert_eq!(snippet(Some("e"), None, &["", ""]).complete_command(), "e  ");
}

#[test]
fn a_copy_is_equal() {
    let first = CommandSnippet {
        labels: vec!["a".to_string()],
        description: Some("d".to_string()),
        executable: Some("e".to_string()),
        entry_point: Some("p".to_string()),
        args: vec!["x".to_string(), "y".to_string()],
        if_shell: true,
    };
    assert_eq!(first.duplicate(), first);
}

#[test]
fn an_entry_carries_name_file_and_command() {
    let source = CommandSnippet {
        labels: vec!["l".to_string()],
        description: Some("d".to_string()),
        executable: Some("git".to_string()),
        entry_point: None,
        args: vec!["log".to_string()],
        if_shell: true,
    };
    assert_eq!(
        FullCommandSnippet::new("history", "/f.json", &source),
        FullCommandSnippet {
            name: "history".to_string(),
            complete_command: "git log".to_string(),
            config_file: "/f.json".to_string(),
            labels: vec!["l".to_string()],
            description: Some("d".to_string()),
            executable: Some("git".to_string()),
            entry_point: None,
            args: vec!["log".to_string()],
            if_shell: true,
        }
    );
}

#[test]
fn a_new_catalog_is_empty() {
    assert!(AllCommandSnippets::new().commands.is_empty());
    assert_eq!(AllCommandSnippets::default(), AllCommandSnippets::new());
}

#[test]
fn the_catalog_keeps_the_order_of_plugins_and_snippets() {
    let named = |name: &str, executable: &str| NamedSnippet {
        name: name.to_string(),
        snippet: snippet(Some(executable), None, &[]),
    };
    let plugins = vec![
        Plugin {
            plugin_dir: "/a".to_string(),
            config_file: "/a/a.json".to_string(),
            commands: vec![named("x", "one"), named("y", "two")],
        },
        Plugin {
            plugin_dir: "/b".to_string(),
            config_file: "/b/b.json".to_string(),
            commands: vec![named("x", "three")],
        },
    ];
    let catalog = flatten(&plugins);
    let shown: Vec<(&str, &str, &str)> = catalog
        .commands
        .iter()
        .map(|c| (c.name.as_str(), c.complete_command.as_str(), c.config_file.as_str()))
        .collect();
    assert_eq!(
        shown,
        vec![("x", "one", "/a/a.json"), ("y", "two", "/a/a.json"), ("x", "three", "/b/b.json")]
    );
    assert!(flatten(&Vec::new()).commands.is_empty());
}

#[test]
fn the_simple_commands_come_first_then_the_plugins() {
    let simple = content(r#"{"s": {"executable": "simple"}}"#);
    let entries = vec![
        PluginEntry {
            name: "p".to_string(),
            is_dir: true,
            found: content(r#"{"a": {"entry_point": "a.sh", "args": ["1"]}, "b": []}"#),
        },
        PluginEntry { name: "q".to_string(), is_dir: true, found: content("[") },
        PluginEntry {
            name: "r".to_string(),
            is_dir: true,
            found: content(r#"{"s": {"executable": "other"}}"#),
        },
    ];
    let gathered = load_commands("/home/u", &simple, &entries);
    let shown: Vec<(&str, &str, &str)> = gathered
        .catalog
        .commands
        .iter()
        .map(|c| (c.name.as_str(), c.complete_command.as_str(), c.config_file.as_str()))
        .collect();
    assert_eq!(
        shown,
        vec![
            ("s", "simple", "/home/u/.config/yk/simple_commands.json"),
            ("a", "/home/u/.config/yk/plugins/p/a.sh 1", "/home/u/.config/yk/plugins/p/p.json"),
            ("s", "other", "/home/u/.config/yk/plugins/r/r.json"),
        ]
    );
    assert_eq!(
        gathered.notices,
        vec![
            Notice { source: "plugin p".to_string(), warning: Warning::InvalidEntry("b".to_string()) },
            Notice {
                source: "plugin q".to_string(),
                warning: Warning::Failed(LoadError::InvalidJson),
            },
        ]
    );
}

#[test]
fn a_bad_entry_leaves_the_catalog_as_it_is() {
    let with = content(r#"{"a": {"executable": "x"}, "b": false, "c": {"args": ["y"]}, "d": {}}"#);
    let without = content(r#"{"a": {"executable": "x"}, "c": {"args": ["y"]}, "d": {}}"#);
    let one = load_commands("/h", &with, &Vec::new());
    let other = load_commands("/h", &without, &Vec::new());
    assert_eq!(one.catalog, other.catalog);
    assert_eq!(one.catalog.commands.len(), 3);
    assert_eq!(one.catalog.commands[2].complete_command, "");
}

#[test]
fn no_source_fails_the_catalog() {
    let entries = vec![
        PluginEntry { name: "p".to_string(), is_dir: true, found: SourceFile::Unreadable },
        PluginEntry { name: "q".to_string(), is_dir: true, found: SourceFile::NotAFile },
    ];
    let gathered = load_commands("/home/u", &content("{ broken"), &entries);
    assert!(gathered.catalog.commands.is_empty());
    assert_eq!(
        gathered.notices,
        vec![
            Notice {
                source: "simple commands".to_string(),
                warning: Warning::Failed(LoadError::InvalidJson),
            },
            Notice {
                source: "plugin p".to_string(),
                warning: Warning::Failed(LoadError::Unreadable),
            },
            Notice { source: "plugin q".to_string(), warning: Warning::NotAFile },
        ]
    );
    let nothing = load_commands("/home/u", &SourceFile::Missing, &Vec::new());
    assert!(nothing.catalog.commands.is_empty());
    assert_eq!(
        nothing.notices,
        vec![Notice { source: "simple commands".to_string(), warning: Warning::Missing }]
    );
}

#[test]
fn every_line_of_a_loaded_catalog_has_four_fields() {
    let simple = content(
        "{\"a\": {\"executable\": \"x\"}, \"b\u{1F343}\u{2500}\u{2500}\u{2500}\u{2500}\u{1F343}\": {}, \"c\": {\"labels\": [\"l\", \"m\"]}, \"d\\ne\": {}}",
    );
    let gathered = load_commands("/h", &simple, &Vec::new());
    assert_eq!(gathered.catalog.commands.len(), 2);
    assert_eq!(gathered.notices.len(), 2);
    for (i, line) in encode_catalog(&gathered.catalog).iter().enumerate() {
        let entry = &gathered.catalog.commands[i];
        assert!(is_separable(entry));
        let fields: Vec<&str> = line.split(delimiter_text()).collect();
        assert_eq!(fields.len(), 4);
        assert_eq!(fields[1], entry.name);
        assert_eq!(fields[3], entry.config_file);
        assert_eq!(line.lines().count(), 1);
    }
}
