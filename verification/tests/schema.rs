use ig::schema::{describe, describe_arg, dump, exit_codes, Action, ArgSpec, CommandSpec};

fn arg(id: &str) -> ArgSpec {
    ArgSpec {
        id: id.to_string(),
        positional: false,
        required: false,
        action: Action::Other,
        takes_value: None,
        help: None,
        long: None,
        short: None,
        value_names: vec![],
        values: vec![],
        defaults: vec![],
        env: None,
    }
}

fn command(name: &str, args: Vec<ArgSpec>, subcommands: Vec<CommandSpec>) -> CommandSpec {
    CommandSpec {
        name: name.to_string(),
        version: None,
        about: Some(format!("about {name}")),
        args,
        subcommands,
    }
}

#[test]
fn an_argument_says_what_it_has() {
    let v = describe_arg(&arg("bare"));
    assert_eq!(v["name"], "bare");
    assert_eq!(v["takes_value"], false);
    assert_eq!(v["repeatable"], false);
    assert!(v["help"].is_null());
    for absent in ["long", "short", "value_name", "values", "default", "env"] {
        assert!(v.get(absent).is_none(), "{absent}");
    }

    let mut full = arg("format");
    full.required = true;
    full.positional = true;
    full.action = Action::Append;
    full.takes_value = Some(true);
    full.help = Some("how".to_string());
    full.long = Some("format".to_string());
    full.short = Some('f');
    full.value_names = vec!["FORMAT".to_string(), "X".to_string()];
    full.values = vec!["text".to_string(), "json".to_string()];
    full.defaults = vec!["text".to_string()];
    full.env = Some("IG_FORMAT".to_string());
    let v = describe_arg(&full);
    assert_eq!(v["required"], true);
    assert_eq!(v["positional"], true);
    assert_eq!(v["repeatable"], true);
    assert_eq!(v["takes_value"], true);
    assert_eq!(v["help"], "how");
    assert_eq!(v["long"], "--format");
    assert_eq!(v["short"], "-f");
    assert_eq!(v["value_name"], "FORMAT");
    assert_eq!(v["values"][1], "json");
    assert_eq!(v["default"], "text");
    assert_eq!(v["env"], "IG_FORMAT");
    let mut counted = arg("v");
    counted.action = Action::Count;
    assert_eq!(describe_arg(&counted)["repeatable"], true);
}

#[test]
fn the_tree_is_walked_to_its_leaves() {
    let leaf = command("add", vec![arg("help"), arg("ticket"), arg("version")], vec![]);
    let root = command("ig", vec![], vec![command("peer", vec![], vec![leaf])]);
    let v = describe(&root);
    let add = &v["subcommands"][0]["subcommands"][0];
    assert_eq!(add["name"], "add");
    assert_eq!(add["about"], "about add");
    assert_eq!(add["args"].as_array().unwrap().len(), 1);
    assert_eq!(add["args"][0]["name"], "ticket");
    assert!(add.get("subcommands").is_none());
}

#[test]
fn the_dump_names_the_exit_codes() {
    let mut root = command("ig", vec![], vec![]);
    let v: serde_json::Value = serde_json::from_str(&dump(&root)).unwrap();
    assert_eq!(v["schema_version"], 1);
    assert_eq!(v["name"], "ig");
    assert_eq!(v["version"], "unknown");
    assert_eq!(v["exit_codes"]["7"], "daemon unavailable");
    assert_eq!(v["command"]["name"], "ig");
    root.version = Some("1.0".to_string());
    let v: serde_json::Value = serde_json::from_str(&dump(&root)).unwrap();
    assert_eq!(v["version"], "1.0");
    let codes = exit_codes();
    for (code, meaning) in [
        ("0", "success"),
        ("1", "internal error"),
        ("2", "invalid arguments or request"),
        ("3", "not found"),
        ("4", "denied"),
        ("5", "conflict"),
    ] {
        assert_eq!(codes[code], meaning);
    }
}
