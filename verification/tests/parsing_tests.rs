use ddnet_core::parsing::{
    find_modifiers, parse_conf_values_as_str_list, AliasType, CommandArgType, ConfigValue,
    ConfigValueAttr,
};

#[test]
fn find_modifiers_examples() {
    assert_eq!(find_modifiers("players[0]"), ("players".to_string(), vec!["0".to_string()]));
    assert_eq!(find_modifiers("plain"), ("plain".to_string(), vec![]));
    assert_eq!(
        find_modifiers("a[b][c]d"),
        ("ad".to_string(), vec!["b".to_string(), "c".to_string()])
    );
    assert_eq!(find_modifiers("a[b[c]]d"), ("ad".to_string(), vec!["bc".to_string()]));
}

fn attr(name: &str, val: ConfigValue, description: &str) -> ConfigValueAttr {
    ConfigValueAttr {
        name: name.to_string(),
        val,
        description: description.to_string(),
    }
}

#[test]
fn conf_values_flat_struct() {
    let val = ConfigValue::Struct {
        name: "Cfg".to_string(),
        attributes: vec![
            attr("fps", ConfigValue::Int { min: -5, max: 240 }, "frames"),
            attr("name", ConfigValue::String { min_length: 0, max_length: 16 }, "player"),
            attr("on", ConfigValue::Boolean, ""),
            attr(
                "zoom",
                ConfigValue::Float { min: "0.5000".to_string(), max: "2.0000".to_string() },
                "",
            ),
            attr(
                "mode",
                ConfigValue::StringOfList {
                    allowed_values: vec!["a".to_string(), "b".to_string(), "c".to_string()],
                },
                "",
            ),
        ],
        aliases: vec![],
    };
    let entries = parse_conf_values_as_str_list(String::new(), &val, String::new(), AliasType::NoAlias);
    let names: Vec<&str> = entries.iter().map(|(f, _)| f.name.as_str()).collect();
    assert_eq!(names, vec!["fps", "name", "on", "zoom", "mode"]);
    assert_eq!(entries[0].0.usage, "int [-5..240]");
    assert_eq!(entries[0].0.description, "frames");
    assert_eq!(entries[0].0.args.len(), 1);
    assert_eq!(entries[0].0.args[0].ty, CommandArgType::Number);
    assert_eq!(entries[1].0.usage, "string, length range [0..16]");
    assert_eq!(entries[1].0.args[0].ty, CommandArgType::Text);
    assert_eq!(entries[2].0.usage, "boolean [true or false]");
    assert_eq!(entries[3].0.usage, "float [0.5000,2.0000]");
    assert_eq!(entries[3].0.args[0].ty, CommandArgType::Float);
    assert_eq!(entries[4].0.usage, "string in [a, b, c]");
}

#[test]
fn conf_values_nested_with_aliases() {
    let player = ConfigValue::Struct {
        name: "Player".to_string(),
        attributes: vec![attr("skin", ConfigValue::Color, "skin color")],
        aliases: vec![],
    };
    let val = ConfigValue::Struct {
        name: "Root".to_string(),
        attributes: vec![attr(
            "players",
            ConfigValue::Array { val_ty: Box::new(player), min_length: 0, max_length: 2 },
            "all players",
        )],
        aliases: vec![
            ("main".to_string(), "Players[0]".to_string()),
            ("all".to_string(), "players".to_string()),
            ("other".to_string(), "play".to_string()),
        ],
    };
    let entries = parse_conf_values_as_str_list("cl".to_string(), &val, "root".to_string(), AliasType::NoAlias);
    let names: Vec<&str> = entries.iter().map(|(f, _)| f.name.as_str()).collect();
    assert_eq!(
        names,
        vec![
            "cl",
            "cl.players",
            "cl.players$INDEX$",
            "cl.players$INDEX$.skin",
            // alias with modifiers: the array itself is not listed and
            // its elements are reached without an index
            "cl.main",
            "cl.main.skin",
            // plain rename
            "cl.all",
            "cl.all$INDEX$",
            "cl.all$INDEX$.skin",
        ]
    );
    assert_eq!(entries[0].0.usage, "");
    assert_eq!(entries[0].0.args[0].ty, CommandArgType::JsonObjectLike);
    assert_eq!(
        entries[1].0.usage,
        "array of [Player] (access/set: [numberic index], remove: `pop`-cmd, insert: `push`-cmd, assign whole array by JSON)"
    );
    assert_eq!(entries[1].0.args[0].ty, CommandArgType::JsonArrayLike);
    assert_eq!(entries[2].0.usage, "");
    assert_eq!(entries[2].0.description, "");
    assert_eq!(entries[3].0.usage, "rgb color, supports html syntax (#) & css syntax (rgb())");
    assert_eq!(entries[3].0.description, "skin color");
    assert_eq!(entries[3].0.args[0].ty, CommandArgType::Text);
    assert!(std::ptr::eq(entries[0].1, &val));
}

#[test]
fn conf_values_record() {
    let val = ConfigValue::JsonLikeRecord { val_ty: Box::new(ConfigValue::Int { min: 0, max: 9 }) };
    let entries = parse_conf_values_as_str_list("binds".to_string(), &val, "d".to_string(), AliasType::NoAlias);
    assert_eq!(entries.len(), 2);
    assert_eq!(entries[0].0.name, "binds");
    assert_eq!(
        entries[0].0.usage,
        "JSON-like record (access/insert/set: [alphabetic index], rem: `rem`-cmd + [alphabetic index], assign whole record by JSON) { \"index\": \"int [0..9]\" }"
    );
    assert_eq!(entries[1].0.name, "binds$KEY$");
    assert_eq!(entries[1].0.description, "");
    let entries = parse_conf_values_as_str_list("b".to_string(), &val, String::new(), AliasType::HasModifiers);
    assert_eq!(entries.len(), 1);
    assert_eq!(entries[0].0.name, "b");
}

#[test]
fn appending_a_modifier_adds_it_last() {
    let (base, mods) = find_modifiers("players[0]");
    let (text, more) = find_modifiers("players[0][name]");
    assert_eq!(text, base);
    let mut expected = mods.clone();
    expected.push("name".to_string());
    assert_eq!(more, expected);
}
