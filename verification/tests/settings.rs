use oxidewm::config::commands::{IterCmd, WmCommand, WmCommandArgument};
use oxidewm::config::{config_paths, normalize_optional_string, Config};
use oxidewm::ipc::commands::WmCommands;
use oxidewm::logging::teelogger::Teelogger;
use oxidewm::research::somefunc;
use oxidewm::text::{replace, to_decimal};

fn numbered_binding() -> IterCmd {
    IterCmd {
        iter: vec!["1".to_string(), "2".to_string(), "3".to_string()],
        command: WmCommand {
            keys: vec!["A".to_string(), "$VAR".to_string()],
            commands: vec![WmCommandArgument {
                command: WmCommands::GoToWorkspace,
                args: Some("$VAR".to_string()),
            }],
        },
    }
}

#[test]
fn iterated_bindings_expand_per_value() {
    let mut config = Config::default();
    config.iter_cmds = vec![numbered_binding()];
    config.parse_iter_cmds();
    assert_eq!(config.cmds.len(), 4);
    assert_eq!(config.cmds[1].keys, vec!["A".to_string(), "1".to_string()]);
    assert_eq!(config.cmds[3].keys, vec!["A".to_string(), "3".to_string()]);
    assert_eq!(config.cmds[2].commands[0].args, Some("2".to_string()));
    assert_eq!(config.cmds[2].commands[0].command, WmCommands::GoToWorkspace);
    assert_eq!(config.iter_cmds.len(), 1);
}

#[test]
fn optional_arguments() {
    assert_eq!(normalize_optional_string(None), None);
    assert_eq!(normalize_optional_string(Some("".to_string())), None);
    assert_eq!(normalize_optional_string(Some("None".to_string())), None);
    assert_eq!(normalize_optional_string(Some("left".to_string())), Some("left".to_string()));
}

#[test]
fn configuration_files_in_order() {
    assert_eq!(
        config_paths(Some("my.yml"), "/home/u", true),
        vec!["my.yml", "./config.yml", "/home/u/.config/oxide/config.yml", "/etc/oxide/config.yml"]
    );
    assert_eq!(
        config_paths(None, "/root", false),
        vec!["/root/.config/oxide/config.yml", "/etc/oxide/config.yml"]
    );
}

#[test]
fn text_helpers() {
    assert_eq!(replace("a$VARb$VAR", "$VAR", "x"), "axbx");
    assert_eq!(replace("$VA$VAR", "$VAR", "1"), "$VA1");
    assert_eq!(to_decimal(0), "0");
    assert_eq!(to_decimal(1207), "1207");
}

#[test]
fn practice_sum() {
    assert_eq!(somefunc(5, 7), "12");
    assert_eq!(somefunc(-20, 3), "-17");
    assert_eq!(somefunc(0, 0), "0");
}

#[test]
fn tee_keeps_loggers_in_order() {
    let mut tee: Teelogger<u8> = Teelogger::new();
    assert!(tee.loggers().is_empty());
    tee.add_logger(3).add_logger(1);
    assert_eq!(tee.loggers(), &vec![3, 1]);
}
