use oxidewm::auxiliary::user_command;
use oxidewm::config::commands::{WmCommand, WmCommandArgument};
use oxidewm::config::Config;
use oxidewm::ipc::commands::WmCommands;
use oxidewm::keybindings::{
    all_keys_resolve, convert_to_keycode, keycodes_map, keyname_to_keycode, parse_u8, split_lines,
    split_words, KeyBindings, KeyCode, ModifierKey,
};

fn keymap() -> Vec<(String, u8)> {
    vec![("t".to_string(), 28), ("Return".to_string(), 36), ("t".to_string(), 29)]
}

#[test]
fn modifier_keys_and_masks() {
    assert_eq!(ModifierKey::try_from("C".to_string()).unwrap().mask(), 4);
    assert_eq!(ModifierKey::try_from("A".to_string()).unwrap().mask(), 8);
    assert_eq!(ModifierKey::try_from("S".to_string()).unwrap().mask(), 1);
    assert_eq!(ModifierKey::try_from("M".to_string()).unwrap().mask(), 64);
    assert_eq!(ModifierKey::try_from("X".to_string()).unwrap_err(), "Invalid modifier key");
}

#[test]
fn key_lookup_takes_last_entry() {
    assert_eq!(keyname_to_keycode("t", &keymap()), Some(29));
    assert_eq!(keyname_to_keycode("Return", &keymap()), Some(36));
    assert_eq!(keyname_to_keycode("q", &keymap()), None);
}

#[test]
fn keycode_of_modifiers_and_key() {
    let mut keys = vec!["C".to_string(), "S".to_string(), "Return".to_string()];
    assert_eq!(convert_to_keycode(&mut keys, &keymap()), KeyCode { mask: 5, code: 36 });
    assert_eq!(keys, vec!["C".to_string(), "S".to_string()]);
    let mut alt_shift = vec!["A".to_string(), "S".to_string(), "t".to_string()];
    assert_eq!(convert_to_keycode(&mut alt_shift, &keymap()), KeyCode { mask: 9, code: 29 });
    assert_eq!(alt_shift, vec!["A".to_string(), "S".to_string()]);
}

#[test]
fn words_and_lines() {
    assert_eq!(split_words("  keycode  38 =\ta A "), vec!["keycode", "38", "=", "a", "A"]);
    assert_eq!(split_words(""), Vec::<String>::new());
    assert_eq!(split_lines("a\nb c\n"), vec!["a", "b c", ""]);
}

#[test]
fn u8_parsing() {
    assert_eq!(parse_u8("38"), Some(38));
    assert_eq!(parse_u8("+7"), Some(7));
    assert_eq!(parse_u8("255"), Some(255));
    assert_eq!(parse_u8("256"), None);
    assert_eq!(parse_u8("0012"), Some(12));
    assert_eq!(parse_u8("+"), None);
    assert_eq!(parse_u8(""), None);
    assert_eq!(parse_u8("3a"), None);
    assert_eq!(parse_u8("-1"), None);
}

#[test]
fn xmodmap_output() {
    let output = "keycode   8 =\nkeycode  24 = q Q q Q\nkeycode  36 = Return NoSymbol Return\n";
    let map = keycodes_map(output).unwrap();
    assert_eq!(map, vec![("q".to_string(), 24), ("Return".to_string(), 36)]);
}

#[test]
fn xmodmap_output_with_bad_code() {
    assert_eq!(keycodes_map("keycode x = a A\n"), None);
}

fn binding(keys: &[&str], commands: Vec<(WmCommands, Option<&str>)>) -> WmCommand {
    WmCommand {
        keys: keys.iter().map(|k| k.to_string()).collect(),
        commands: commands
            .into_iter()
            .map(|(command, args)| WmCommandArgument { command, args: args.map(|a| a.to_string()) })
            .collect(),
    }
}

fn config_with(cmds: Vec<WmCommand>) -> Config {
    let mut config = Config::default();
    config.cmds = cmds;
    config
}

#[test]
fn bindings_from_config() {
    let config = config_with(vec![
        binding(&["A", "t"], vec![(WmCommands::Exec, Some("kitty"))]),
        binding(&["C", "Return"], vec![(WmCommands::Focus, Some("left")), (WmCommands::Kill, None)]),
    ]);
    assert!(all_keys_resolve(&config, &keymap()));
    let kb = KeyBindings::new(&config, &keymap());
    assert_eq!(kb.events_vec.len(), 3);
    assert_eq!(kb.events_vec[0].keycode, KeyCode { mask: 8, code: 29 });
    assert_eq!(kb.events_vec[1].event, WmCommands::Focus);
    assert_eq!(kb.events_vec[2].keycode, KeyCode { mask: 4, code: 36 });
    assert_eq!(kb.events_map.get(&36).unwrap().len(), 2);
    assert_eq!(kb.events_map.get(&29).unwrap().len(), 1);
}

#[test]
fn unresolved_bindings_are_detected() {
    let unknown_key = config_with(vec![binding(&["A", "q"], vec![(WmCommands::Exec, None)])]);
    assert!(!all_keys_resolve(&unknown_key, &keymap()));
    let bad_modifier = config_with(vec![binding(&["Z", "t"], vec![(WmCommands::Exec, None)])]);
    assert!(!all_keys_resolve(&bad_modifier, &keymap()));
    let no_keys = config_with(vec![binding(&[], vec![(WmCommands::Exec, None)])]);
    assert!(!all_keys_resolve(&no_keys, &keymap()));
}

#[test]
fn key_press_lookup() {
    let config = config_with(vec![
        binding(&["C", "Return"], vec![(WmCommands::Focus, Some("left")), (WmCommands::Kill, None)]),
        binding(&["Return"], vec![(WmCommands::Fullscreen, None)]),
    ]);
    let kb = KeyBindings::new(&config, &keymap());
    let hit = kb.retreive_cmd(36, 4).unwrap();
    assert_eq!(hit.event, WmCommands::Focus);
    assert_eq!(hit.args, Some("left".to_string()));
    let num_lock = kb.retreive_cmd(36, 4 | 16).unwrap();
    assert_eq!(num_lock.event, WmCommands::Focus);
    assert_eq!(kb.retreive_cmd(36, 0).unwrap().event, WmCommands::Fullscreen);
    assert!(kb.retreive_cmd(36, 8).is_none());
    assert!(kb.retreive_cmd(99, 4).is_none());
    let all = kb.matching_events(36, 4);
    assert_eq!(all.len(), 2);
    assert_eq!(all[1].event, WmCommands::Kill);
}

#[test]
fn user_command_line() {
    let (program, args) = user_command("  kitty  -e   htop ").unwrap();
    assert_eq!(program, "kitty");
    assert_eq!(args, "-e htop");
    let (single, none) = user_command("firefox").unwrap();
    assert_eq!(single, "firefox");
    assert_eq!(none, "");
    assert!(user_command("   ").is_none());
}
