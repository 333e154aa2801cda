//! `--dump-schema`: the whole command tree as JSON.
//!
//! An agent driving this CLI cannot ask a human what a flag accepts. Walking the
//! parser's own definition means the schema cannot drift from the parser.
//!
//! Diff this between releases: a removed flag, a narrowed type, or a dropped
//! enum value is a breaking change to the contract.

use crate::json::{
    a_field_is_found_by_its_name, an_object_holds_its_fields_only, field, fields_of, json_array,
    json_bool, json_number, json_object, json_of, json_opt, json_text, json_texts, jsons,
    no_fields, object, pretty, pretty_text, text_list, text_or_null, Json,
};
use crate::protocol::ErrorKind;
use crate::text::{decimal, opt_text, same, texts};
use vstd::prelude::*;

verus! {

/// What giving an argument once more does.
#[derive(Debug, Clone, Copy, PartialEq, Eq, Structural)]
pub enum Action {
    /// Each value is kept.
    Append,
    /// The occurrences are counted.
    Count,
    /// Anything else.
    Other,
}

/// An argument, as the parser defines it.
#[derive(Debug)]
pub struct ArgSpec {
    pub id: String,
    pub positional: bool,
    pub required: bool,
    pub action: Action,
    /// Whether it takes a value, where that is settled.
    pub takes_value: Option<bool>,
    pub help: Option<String>,
    pub long: Option<String>,
    pub short: Option<char>,
    /// What its values are called.
    pub value_names: Vec<String>,
    /// The values it can have, where there are only some.
    pub values: Vec<String>,
    pub defaults: Vec<String>,
    pub env: Option<String>,
}

/// A command, as the parser defines it.
#[derive(Debug)]
pub struct CommandSpec {
    pub name: String,
    pub version: Option<String>,
    pub about: Option<String>,
    pub args: Vec<ArgSpec>,
    pub subcommands: Vec<CommandSpec>,
}

/// An object field.
pub type Field = (Seq<char>, Json);

/// A field, if there is something to say in it.
pub open spec fn optional(name: Seq<char>, value: Option<Json>) -> Seq<Field> {
    match value {
        Some(v) => seq![(name, v)],
        None => Seq::empty(),
    }
}

/// The first of some texts, if there is one.
pub open spec fn first_text(v: Seq<String>) -> Option<Json> {
    if v.len() > 0 {
        Some(Json::Text(v[0]@))
    } else {
        None
    }
}

/// A text, if it is there, after `dashes`.
pub open spec fn flag(dashes: Seq<char>, name: Option<Seq<char>>) -> Option<Json> {
    match name {
        Some(name) => Some(Json::Text(dashes + name)),
        None => None,
    }
}

/// What is always said of an argument.
pub open spec fn arg_head(arg: ArgSpec) -> Seq<Field> {
    seq![
        ("name"@, Json::Text(arg.id@)),
        ("positional"@, Json::Bool(arg.positional)),
        ("required"@, Json::Bool(arg.required)),
        (
            "repeatable"@,
            Json::Bool(arg.action == Action::Append || arg.action == Action::Count),
        ),
        ("takes_value"@, Json::Bool(arg.takes_value == Some(true))),
        ("help"@, text_or_null(opt_text(arg.help))),
    ]
}

/// The values an argument can have, where there are only some.
pub open spec fn some_values(v: Seq<String>) -> Option<Json> {
    if v.len() > 0 {
        Some(text_list(texts(v)))
    } else {
        None
    }
}

/// The letter of a short flag.
pub open spec fn letter(short: Option<char>) -> Option<Seq<char>> {
    match short {
        Some(c) => Some(seq![c]),
        None => None,
    }
}

/// An argument, as an object. What it does not have is not mentioned.
pub open spec fn arg_json(arg: ArgSpec) -> Json {
    Json::Object(
        object(
            arg_head(arg) + optional("long"@, flag("--"@, opt_text(arg.long))) + optional(
                "short"@,
                flag("-"@, letter(arg.short)),
            ) + optional("value_name"@, first_text(arg.value_names@)) + optional(
                "values"@,
                some_values(arg.values@),
            ) + optional("default"@, first_text(arg.defaults@)) + optional(
                "env"@,
                flag(""@, opt_text(arg.env)),
            ),
        ),
    )
}

/// The arguments that are a command's own: `help` and `version` are everywhere.
pub open spec fn own_args(args: Seq<ArgSpec>) -> Seq<Json>
    decreases args.len(),
{
    if args.len() == 0 {
        Seq::empty()
    } else if args.last().id@ == "help"@ || args.last().id@ == "version"@ {
        own_args(args.drop_last())
    } else {
        own_args(args.drop_last()).push(arg_json(args.last()))
    }
}

/// A command with everything below it, as an object.
pub open spec fn command_json(cmd: CommandSpec) -> Json
    decreases cmd,
{
    Json::Object(
        object(
            seq![
                ("name"@, Json::Text(cmd.name@)),
                ("about"@, text_or_null(opt_text(cmd.about))),
                ("args"@, Json::Array(own_args(cmd.args@))),
            ] + optional(
                "subcommands"@,
                if cmd.subcommands@.len() > 0 {
                    Some(Json::Array(commands_json(cmd.subcommands@)))
                } else {
                    None
                },
            ),
        ),
    )
}

/// Commands with everything below them, as objects.
pub open spec fn commands_json(cmds: Seq<CommandSpec>) -> Seq<Json>
    decreases cmds,
{
    if cmds.len() == 0 {
        Seq::empty()
    } else {
        commands_json(cmds.drop_last()).push(command_json(cmds.last()))
    }
}

/// The exit codes and what they mean, by code.
pub open spec fn exit_table() -> Seq<Field> {
    seq![
        ("0"@, Json::Text("success"@)),
        ("1"@, Json::Text("internal error"@)),
        ("2"@, Json::Text("invalid arguments or request"@)),
        ("3"@, Json::Text("not found"@)),
        ("4"@, Json::Text("denied"@)),
        ("5"@, Json::Text("conflict"@)),
        ("7"@, Json::Text("daemon unavailable"@)),
    ]
}

/// The whole tree, as an object.
pub open spec fn schema_json(cmd: CommandSpec) -> Json {
    Json::Object(
        object(
            seq![
                ("schema_version"@, Json::Number(1)),
                ("name"@, Json::Text(cmd.name@)),
                (
                    "version"@,
                    Json::Text(
                        match cmd.version {
                            Some(v) => v@,
                            None => "unknown"@,
                        },
                    ),
                ),
                ("exit_codes"@, Json::Object(object(exit_table()))),
                ("command"@, command_json(cmd)),
            ],
        ),
    )
}

/// The portable half of the exit code table, emitted so a caller can map codes
/// without reading the docs.
pub fn exit_codes() -> (r: serde_json::Value)
    ensures
        json_of(r) == Json::Object(object(exit_table())),
{
    let mut fields = no_fields();
    field(&mut fields, "0", json_text("success"));
    field(&mut fields, "1", json_text("internal error"));
    field(&mut fields, "2", json_text("invalid arguments or request"));
    field(&mut fields, "3", json_text("not found"));
    field(&mut fields, "4", json_text("denied"));
    field(&mut fields, "5", json_text("conflict"));
    field(&mut fields, "7", json_text("daemon unavailable"));
    proof {
        assert(fields_of(fields@) =~= exit_table());
    }
    json_object(fields)
}

/// An argument, as an object.
pub fn describe_arg(arg: &ArgSpec) -> (r: serde_json::Value)
    ensures
        json_of(r) == arg_json(*arg),
{
    let mut fields = no_fields();
    field(&mut fields, "name", json_text(arg.id.as_str()));
    field(&mut fields, "positional", json_bool(arg.positional));
    field(&mut fields, "required", json_bool(arg.required));
    field(
        &mut fields,
        "repeatable",
        json_bool(arg.action == Action::Append || arg.action == Action::Count),
    );
    let takes_value = match arg.takes_value {
        Some(b) => b,
        None => false,
    };
    field(&mut fields, "takes_value", json_bool(takes_value));
    field(&mut fields, "help", json_opt(&arg.help));
    proof {
        assert(fields_of(fields@) =~= arg_head(*arg));
    }
    let letter = match arg.short {
        Some(c) => {
            let mut t = String::new();
            t.push(c);
            proof {
                assert(t@ =~= seq![c]);
            }
            Some(t)
        },
        None => None,
    };
    push_flag(&mut fields, "long", "--", &arg.long);
    push_flag(&mut fields, "short", "-", &letter);
    push_first(&mut fields, "value_name", &arg.value_names);
    push_values(&mut fields, "values", &arg.values);
    push_first(&mut fields, "default", &arg.defaults);
    push_flag(&mut fields, "env", "", &arg.env);
    json_object(fields)
}

/// Adds a text after `dashes`, if there is one.
fn push_flag(
    fields: &mut Vec<(String, serde_json::Value)>,
    name: &str,
    dashes: &str,
    text: &Option<String>,
)
    ensures
        fields_of(final(fields)@) == fields_of(old(fields)@) + optional(
            name@,
            flag(dashes@, opt_text(*text)),
        ),
{
    match text {
        Some(text) => {
            let mut t = dashes.to_owned();
            t.append(text.as_str());
            field(fields, name, json_text(t.as_str()));
        },
        None => {},
    }
    proof {
        assert(fields_of(fields@) =~= fields_of(old(fields)@) + optional(
            name@,
            flag(dashes@, opt_text(*text)),
        ));
    }
}

/// Adds the first of some texts, if there is one.
fn push_first(fields: &mut Vec<(String, serde_json::Value)>, name: &str, v: &Vec<String>)
    ensures
        fields_of(final(fields)@) == fields_of(old(fields)@) + optional(name@, first_text(v@)),
{
    if v.len() > 0 {
        field(fields, name, json_text(v[0].as_str()));
    }
    proof {
        assert(fields_of(fields@) =~= fields_of(old(fields)@) + optional(name@, first_text(v@)));
    }
}

/// Adds some texts, if there are any.
fn push_values(fields: &mut Vec<(String, serde_json::Value)>, name: &str, v: &Vec<String>)
    ensures
        fields_of(final(fields)@) == fields_of(old(fields)@) + optional(name@, some_values(v@)),
{
    if v.len() > 0 {
        field(fields, name, json_texts(v));
    }
    proof {
        assert(fields_of(fields@) =~= fields_of(old(fields)@) + optional(name@, some_values(v@)));
    }
}

fn describe_args(args: &Vec<ArgSpec>) -> (r: Vec<serde_json::Value>)
    ensures
        jsons(r@) == own_args(args@),
{
    let mut r: Vec<serde_json::Value> = Vec::new();
    let mut i: usize = 0;
    proof {
        assert(jsons(r@) =~= own_args(args@.take(0)));
    }
    while i < args.len()
        invariant
            i <= args@.len(),
            jsons(r@) == own_args(args@.take(i as int)),
        decreases args@.len() - i,
    {
        proof {
            assert(args@.take(i + 1).drop_last() =~= args@.take(i as int));
        }
        if !same(args[i].id.as_str(), "help") && !same(args[i].id.as_str(), "version") {
            let ghost before = r@;
            r.push(describe_arg(&args[i]));
            proof {
                assert(jsons(r@) =~= jsons(before).push(arg_json(args@[i as int])));
            }
        }
        i = i + 1;
    }
    proof {
        assert(args@.take(args@.len() as int) =~= args@);
    }
    r
}

/// A command with everything below it, as an object.
pub fn describe(cmd: &CommandSpec) -> (r: serde_json::Value)
    ensures
        json_of(r) == command_json(*cmd),
    decreases cmd,
{
    let args = describe_args(&cmd.args);
    let mut fields = no_fields();
    field(&mut fields, "name", json_text(cmd.name.as_str()));
    field(&mut fields, "about", json_opt(&cmd.about));
    field(&mut fields, "args", json_array(args));
    let ghost head = fields_of(fields@);
    proof {
        assert(head =~= seq![
            ("name"@, Json::Text(cmd.name@)),
            ("about"@, text_or_null(opt_text(cmd.about))),
            ("args"@, Json::Array(own_args(cmd.args@))),
        ]);
    }
    if cmd.subcommands.len() > 0 {
        let mut below: Vec<serde_json::Value> = Vec::new();
        let mut i: usize = 0;
        proof {
            assert(jsons(below@) =~= commands_json(cmd.subcommands@.take(0)));
        }
        while i < cmd.subcommands.len()
            invariant
                i <= cmd.subcommands@.len(),
                jsons(below@) == commands_json(cmd.subcommands@.take(i as int)),
            decreases cmd.subcommands@.len() - i,
        {
            proof {
                assert(cmd.subcommands@.take(i + 1).drop_last() =~= cmd.subcommands@.take(
                    i as int,
                ));
            }
            let ghost before = below@;
            below.push(describe(&cmd.subcommands[i]));
            proof {
                assert(jsons(below@) =~= jsons(before).push(
                    command_json(cmd.subcommands@[i as int]),
                ));
            }
            i = i + 1;
        }
        proof {
            assert(cmd.subcommands@.take(cmd.subcommands@.len() as int) =~= cmd.subcommands@);
        }
        field(&mut fields, "subcommands", json_array(below));
        proof {
            assert(fields_of(fields@) =~= head + optional(
                "subcommands"@,
                Some(Json::Array(commands_json(cmd.subcommands@))),
            ));
        }
    } else {
        proof {
            assert(fields_of(fields@) =~= head + optional("subcommands"@, None));
        }
    }
    json_object(fields)
}

/// The whole tree, as text.
pub fn dump(cmd: &CommandSpec) -> (r: String)
    ensures
        r@ == pretty_text(schema_json(*cmd)),
{
    let mut fields = no_fields();
    field(&mut fields, "schema_version", json_number(1));
    field(&mut fields, "name", json_text(cmd.name.as_str()));
    match &cmd.version {
        Some(v) => {
            field(&mut fields, "version", json_text(v.as_str()));
        },
        None => {
            field(&mut fields, "version", json_text("unknown"));
        },
    }
    field(&mut fields, "exit_codes", exit_codes());
    field(&mut fields, "command", describe(cmd));
    proof {
        assert(fields_of(fields@) =~= seq![
            ("schema_version"@, Json::Number(1)),
            ("name"@, Json::Text(cmd.name@)),
            (
                "version"@,
                Json::Text(
                    match cmd.version {
                        Some(v) => v@,
                        None => "unknown"@,
                    },
                ),
            ),
            ("exit_codes"@, Json::Object(object(exit_table()))),
            ("command"@, command_json(*cmd)),
        ]);
    }
    pretty(&json_object(fields))
}

/// The table names every code that a command can exit with: success, and each
/// kind of failure.
pub proof fn every_exit_code_is_named(kind: ErrorKind)
    ensures
        object(exit_table()).contains_key(decimal(0)),
        object(exit_table()).contains_key(decimal(kind.code() as nat)),
{
    reveal_with_fuel(object, 8);
    reveal_strlit("0");
    reveal_strlit("1");
    reveal_strlit("2");
    reveal_strlit("3");
    reveal_strlit("4");
    reveal_strlit("5");
    reveal_strlit("7");
    assert(decimal(0) =~= "0"@);
    assert(decimal(1) =~= "1"@);
    assert(decimal(2) =~= "2"@);
    assert(decimal(3) =~= "3"@);
    assert(decimal(4) =~= "4"@);
    assert(decimal(5) =~= "5"@);
    assert(decimal(7) =~= "7"@);
    let t = exit_table();
    assert(t.drop_last() =~= t.take(6));
    assert(t.take(6).drop_last() =~= t.take(5));
    assert(t.take(5).drop_last() =~= t.take(4));
    assert(t.take(4).drop_last() =~= t.take(3));
    assert(t.take(3).drop_last() =~= t.take(2));
    assert(t.take(2).drop_last() =~= t.take(1));
    assert(t.take(1).drop_last() =~= Seq::empty());
}

// ---------------------------------------------------------------------------
// What can be relied on
// ---------------------------------------------------------------------------

/// A field that may be missing is found where it is there, and makes no difference to
/// the others.
proof fn lemma_optional_field(fields: Seq<Field>, name: Seq<char>, value: Option<Json>)
    ensures
        ({
            let more = object(fields + optional(name, value));
            &&& forall|other: Seq<char>|
                other != name ==> #[trigger] more.contains_key(other) == object(fields).contains_key(
                    other,
                )
            &&& forall|other: Seq<char>|
                other != name ==> #[trigger] more[other] == object(fields)[other]
            &&& value matches Some(v) ==> more.contains_key(name) && more[name] == v
            &&& value is None ==> more == object(fields)
        }),
{
    match value {
        Some(v) => {
            let all = fields + optional(name, value);
            assert(all.drop_last() =~= fields);
            assert(all.last() == (name, v));
        },
        None => {
            assert(fields + optional(name, value) =~= fields);
        },
    }
}

proof fn lemma_arg_names()
    ensures
        "name"@.len() == 4 && "name"@[0] == 'n',
        "positional"@.len() == 10 && "positional"@[0] == 'p',
        "required"@.len() == 8,
        "repeatable"@.len() == 10 && "repeatable"@[0] == 'r',
        "takes_value"@.len() == 11,
        "help"@.len() == 4 && "help"@[0] == 'h',
        "long"@.len() == 4 && "long"@[0] == 'l',
        "short"@.len() == 5,
        "value_name"@.len() == 10 && "value_name"@[0] == 'v',
        "values"@.len() == 6,
        "default"@.len() == 7,
        "env"@.len() == 3,
{
    reveal_strlit("name");
    reveal_strlit("positional");
    reveal_strlit("required");
    reveal_strlit("repeatable");
    reveal_strlit("takes_value");
    reveal_strlit("help");
    reveal_strlit("long");
    reveal_strlit("short");
    reveal_strlit("value_name");
    reveal_strlit("values");
    reveal_strlit("default");
    reveal_strlit("env");
}

/// An argument is described by what it is: every fact that is always known, and every
/// fact that it has, under its own name, and none that it does not have.
#[verifier::rlimit(40)]
pub proof fn an_argument_says_what_it_has(arg: ArgSpec)
    ensures
        ({
            let m = arg_json(arg)->Object_0;
            &&& arg_json(arg) is Object
            &&& m.contains_key("name"@) && m["name"@] == Json::Text(arg.id@)
            &&& m.contains_key("positional"@) && m["positional"@] == Json::Bool(arg.positional)
            &&& m.contains_key("required"@) && m["required"@] == Json::Bool(arg.required)
            &&& m.contains_key("repeatable"@) && m["repeatable"@] == Json::Bool(
                arg.action != Action::Other,
            )
            &&& m.contains_key("takes_value"@) && m["takes_value"@] == Json::Bool(
                arg.takes_value is Some && arg.takes_value->0,
            )
            &&& m.contains_key("help"@) && m["help"@] == (match arg.help {
                Some(h) => Json::Text(h@),
                None => Json::Null,
            })
            &&& m.contains_key("long"@) == (arg.long is Some)
            &&& arg.long is Some ==> m["long"@] == Json::Text("--"@ + arg.long->0@)
            &&& m.contains_key("short"@) == (arg.short is Some)
            &&& arg.short is Some ==> m["short"@] == Json::Text("-"@.push(arg.short->0))
            &&& m.contains_key("value_name"@) == (arg.value_names@.len() > 0)
            &&& arg.value_names@.len() > 0 ==> m["value_name"@] == Json::Text(arg.value_names@[0]@)
            &&& m.contains_key("values"@) == (arg.values@.len() > 0)
            &&& arg.values@.len() > 0 ==> m["values"@] == text_list(texts(arg.values@))
            &&& m.contains_key("default"@) == (arg.defaults@.len() > 0)
            &&& arg.defaults@.len() > 0 ==> m["default"@] == Json::Text(arg.defaults@[0]@)
            &&& m.contains_key("env"@) == (arg.env is Some)
            &&& arg.env is Some ==> m["env"@] == Json::Text(arg.env->0@)
        }),
{
    lemma_arg_names();
    reveal_strlit("");
    let head = arg_head(arg);
    a_field_is_found_by_its_name(head, 0);
    a_field_is_found_by_its_name(head, 1);
    a_field_is_found_by_its_name(head, 2);
    a_field_is_found_by_its_name(head, 3);
    a_field_is_found_by_its_name(head, 4);
    a_field_is_found_by_its_name(head, 5);
    an_object_holds_its_fields_only(head, "long"@);
    an_object_holds_its_fields_only(head, "short"@);
    an_object_holds_its_fields_only(head, "value_name"@);
    an_object_holds_its_fields_only(head, "values"@);
    an_object_holds_its_fields_only(head, "default"@);
    an_object_holds_its_fields_only(head, "env"@);
    let long = flag("--"@, opt_text(arg.long));
    let short = flag("-"@, letter(arg.short));
    let env = flag(""@, opt_text(arg.env));
    let a = head + optional("long"@, long);
    let b = a + optional("short"@, short);
    let c = b + optional("value_name"@, first_text(arg.value_names@));
    let d = c + optional("values"@, some_values(arg.values@));
    let e = d + optional("default"@, first_text(arg.defaults@));
    lemma_optional_field(head, "long"@, long);
    lemma_optional_field(a, "short"@, short);
    lemma_optional_field(b, "value_name"@, first_text(arg.value_names@));
    lemma_optional_field(c, "values"@, some_values(arg.values@));
    lemma_optional_field(d, "default"@, first_text(arg.defaults@));
    lemma_optional_field(e, "env"@, env);
    if arg.short is Some {
        assert("-"@ + seq![arg.short->0] =~= "-"@.push(arg.short->0));
    }
    if arg.env is Some {
        assert(""@ + arg.env->0@ =~= arg.env->0@);
    }
}

/// The arguments of a command are all described, in order, but for `help` and `version`.
pub proof fn arguments_are_described_one_by_one(a: Seq<ArgSpec>, b: Seq<ArgSpec>, arg: ArgSpec)
    ensures
        own_args(a + b) == own_args(a) + own_args(b),
        arg.id@ == "help"@ || arg.id@ == "version"@ ==> own_args(seq![arg]) == Seq::<Json>::empty(),
        arg.id@ != "help"@ && arg.id@ != "version"@ ==> own_args(seq![arg]) == seq![arg_json(arg)],
    decreases b.len(),
{
    assert(seq![arg].drop_last() =~= Seq::empty());
    assert(own_args(seq![arg].drop_last()) =~= Seq::<Json>::empty());
    assert(Seq::<Json>::empty().push(arg_json(arg)) =~= seq![arg_json(arg)]);
    if b.len() == 0 {
        assert(a + b =~= a);
        assert(own_args(a) + own_args(b) =~= own_args(a));
    } else {
        assert((a + b).drop_last() =~= a + b.drop_last());
        arguments_are_described_one_by_one(a, b.drop_last(), arg);
        assert(own_args(a + b) =~= own_args(a) + own_args(b));
    }
}

/// Commands are all described, one for one and in order.
pub proof fn commands_are_described_one_for_one(cmds: Seq<CommandSpec>)
    ensures
        commands_json(cmds).len() == cmds.len(),
        forall|i: int| 0 <= i < cmds.len() ==> #[trigger] commands_json(cmds)[i] == command_json(
            cmds[i],
        ),
    decreases cmds.len(),
{
    if cmds.len() > 0 {
        commands_are_described_one_for_one(cmds.drop_last());
        assert forall|i: int| 0 <= i < cmds.len() implies #[trigger] commands_json(cmds)[i]
            == command_json(cmds[i]) by {
            if i < cmds.len() - 1 {
                assert(cmds.drop_last()[i] == cmds[i]);
                assert(commands_json(cmds.drop_last())[i] == command_json(cmds[i]));
            }
        }
    }
}

/// A command is described by its name, what it is about, its arguments, and the
/// commands below it, if there are any, down to the last.
pub proof fn a_command_says_what_is_below_it(cmd: CommandSpec)
    ensures
        ({
            let m = command_json(cmd)->Object_0;
            &&& command_json(cmd) is Object
            &&& m.contains_key("name"@) && m["name"@] == Json::Text(cmd.name@)
            &&& m.contains_key("about"@) && m["about"@] == (match cmd.about {
                Some(t) => Json::Text(t@),
                None => Json::Null,
            })
            &&& m.contains_key("args"@) && m["args"@] == Json::Array(own_args(cmd.args@))
            &&& m.contains_key("subcommands"@) == (cmd.subcommands@.len() > 0)
            &&& cmd.subcommands@.len() > 0 ==> {
                &&& m["subcommands"@] matches Json::Array(below)
                &&& below.len() == cmd.subcommands@.len()
                &&& forall|i: int|
                    0 <= i < below.len() ==> #[trigger] below[i] == command_json(
                        cmd.subcommands@[i],
                    )
            }
        }),
{
    reveal_strlit("name");
    reveal_strlit("about");
    reveal_strlit("args");
    reveal_strlit("subcommands");
    assert("name"@.len() == 4 && "about"@.len() == 5 && "args"@.len() == 4);
    assert("subcommands"@.len() == 11 && "name"@[0] == 'n' && "args"@[0] == 'a');
    let head = seq![
        ("name"@, Json::Text(cmd.name@)),
        ("about"@, text_or_null(opt_text(cmd.about))),
        ("args"@, Json::Array(own_args(cmd.args@))),
    ];
    a_field_is_found_by_its_name(head, 0);
    a_field_is_found_by_its_name(head, 1);
    a_field_is_found_by_its_name(head, 2);
    an_object_holds_its_fields_only(head, "subcommands"@);
    commands_are_described_one_for_one(cmd.subcommands@);
    lemma_optional_field(
        head,
        "subcommands"@,
        if cmd.subcommands@.len() > 0 {
            Some(Json::Array(commands_json(cmd.subcommands@)))
        } else {
            None
        },
    );
}

/// The schema names itself, the program, its version, the exit codes, and the whole tree.
pub proof fn the_schema_holds_the_whole_tree(cmd: CommandSpec)
    ensures
        ({
            let m = schema_json(cmd)->Object_0;
            &&& schema_json(cmd) is Object
            &&& m.contains_key("schema_version"@) && m["schema_version"@] == Json::Number(1)
            &&& m.contains_key("name"@) && m["name"@] == Json::Text(cmd.name@)
            &&& m.contains_key("version"@) && m["version"@] == Json::Text(
                if cmd.version is Some {
                    cmd.version->0@
                } else {
                    "unknown"@
                },
            )
            &&& m.contains_key("exit_codes"@) && m["exit_codes"@] == Json::Object(
                object(exit_table()),
            )
            &&& m.contains_key("command"@) && m["command"@] == command_json(cmd)
        }),
{
    reveal_strlit("schema_version");
    reveal_strlit("name");
    reveal_strlit("version");
    reveal_strlit("exit_codes");
    reveal_strlit("command");
    assert("schema_version"@.len() == 14 && "name"@.len() == 4 && "version"@.len() == 7);
    assert("exit_codes"@.len() == 10 && "command"@.len() == 7);
    assert("version"@[0] == 'v' && "command"@[0] == 'c');
    let f = seq![
        ("schema_version"@, Json::Number(1)),
        ("name"@, Json::Text(cmd.name@)),
        (
            "version"@,
            Json::Text(
                match cmd.version {
                    Some(v) => v@,
                    None => "unknown"@,
                },
            ),
        ),
        ("exit_codes"@, Json::Object(object(exit_table()))),
        ("command"@, command_json(cmd)),
    ];
    a_field_is_found_by_its_name(f, 0);
    a_field_is_found_by_its_name(f, 1);
    a_field_is_found_by_its_name(f, 2);
    a_field_is_found_by_its_name(f, 3);
    a_field_is_found_by_its_name(f, 4);
}

}
