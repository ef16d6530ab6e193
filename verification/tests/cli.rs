use rhc_bot::cli::{
    cli_from_found, delete_target, parse_cli, reset_text, Action, Cli, CliError, DeleteTarget, Found,
    Refusal, WhitelistAction,
};
use rhc_bot::service::{ServiceAction, SERVICE_NAME};

fn args(words: &[&str]) -> Vec<String> {
    words.iter().map(|w| w.to_string()).collect()
}

#[test]
fn parses_service_management_commands() {
    for command in ["start", "stop", "restart", "enable", "disable"] {
        assert!(parse_cli(&args(&["rhc-bot", command]), None).is_ok());
    }
}

#[test]
fn parses_whitelist_commands() {
    assert!(parse_cli(&args(&["rhc-bot", "whitelist", "add", "123456"]), None).is_ok());
    assert!(parse_cli(&args(&["rhc-bot", "whitelist", "delete", "123456"]), None).is_ok());
    assert!(parse_cli(&args(&["rhc-bot", "whitelist", "delete", "--all"]), None).is_ok());
    assert!(parse_cli(&args(&["rhc-bot", "whitelist", "list"]), None).is_ok());
}

fn parse(words: &[&str]) -> Cli {
    parse_cli(&args(words), None).unwrap()
}

#[test]
fn each_command_has_its_action() {
    let cases = [
        ("run", Action::Run),
        ("config", Action::Config),
        ("reset", Action::Reset),
        ("cache-update", Action::CacheUpdate),
        ("start", Action::Service(ServiceAction::Start)),
        ("stop", Action::Service(ServiceAction::Stop)),
        ("restart", Action::Service(ServiceAction::Restart)),
        ("enable", Action::Service(ServiceAction::Enable)),
        ("disable", Action::Service(ServiceAction::Disable)),
    ];
    for (word, action) in cases {
        assert_eq!(parse(&["rhc-bot", word]).command, Some(action));
    }
    assert_eq!(parse(&["rhc-bot"]).command, None);
}

#[test]
fn each_list_command_has_its_action() {
    let list = |words: &[&str]| match parse(words).command {
        Some(Action::Whitelist(action)) => action,
        other => panic!("{other:?}"),
    };
    assert_eq!(
        list(&["rhc-bot", "whitelist", "add", "123456"]),
        WhitelistAction::Add { tg_id: 123456 }
    );
    assert_eq!(
        list(&["rhc-bot", "whitelist", "delete", "123456"]),
        WhitelistAction::Delete { tg_id: Some(123456), all: false }
    );
    assert_eq!(
        list(&["rhc-bot", "whitelist", "delete", "--all"]),
        WhitelistAction::Delete { tg_id: None, all: true }
    );
    assert_eq!(
        list(&["rhc-bot", "whitelist", "delete", "7", "--all"]),
        WhitelistAction::Delete { tg_id: Some(7), all: true }
    );
    assert_eq!(
        list(&["rhc-bot", "whitelist", "delete"]),
        WhitelistAction::Delete { tg_id: None, all: false }
    );
    assert_eq!(list(&["rhc-bot", "whitelist", "list"]), WhitelistAction::List);
}

#[test]
fn the_data_directory_has_three_sources() {
    let env = Some("/srv/env".to_owned());
    assert_eq!(parse(&["rhc-bot", "run"]).data, "/var/lib/rhc-bot");
    assert_eq!(parse(&["rhc-bot", "--data", "/srv/x", "run"]).data, "/srv/x");
    assert_eq!(parse(&["rhc-bot", "--data=/srv/y"]).data, "/srv/y");
    assert_eq!(parse_cli(&args(&["rhc-bot", "run"]), env.clone()).unwrap().data, "/srv/env");
    assert_eq!(
        parse_cli(&args(&["rhc-bot", "--data", "/srv/x", "run"]), env).unwrap().data,
        "/srv/x"
    );
}

fn refused(words: &[&str], env: Option<&str>) -> Refusal {
    match parse_cli(&args(words), env.map(str::to_owned)) {
        Err(CliError::Refused(refusal)) => refusal,
        other => panic!("{other:?}"),
    }
}

#[test]
fn an_empty_data_directory_is_refused() {
    let refusal = refused(&["rhc-bot", "--data", "", "run"], None);
    assert_eq!(refusal.code, 2);
    let error = parse_cli(&args(&["rhc-bot", "run"]), Some(String::new())).unwrap_err();
    assert_eq!(error.message(), refusal.text);
    assert_eq!(error.styled_message(), refusal.styled);
    assert_eq!(error.code(), 2);
    assert_eq!(
        error.message(),
        "error: a value is required for '--data <DATA>' but none was supplied\n\nFor more information, try '--help'.\n"
    );
    let cli = parse_cli(&args(&["rhc-bot", "--data", "x", "run"]), Some(String::new())).unwrap();
    assert_eq!(cli.data, "x");
}

#[test]
fn a_user_is_a_number() {
    for text in ["abc", "1.5", "9223372036854775808", ""] {
        let refusal = refused(&["rhc-bot", "whitelist", "add", text], None);
        assert_eq!(refusal.code, 2);
        assert!(refusal.text.contains("<TG_ID>"), "{}", refusal.text);
    }
    assert_eq!(
        refused(&["rhc-bot", "whitelist", "add", "abc"], None).text,
        "error: invalid value 'abc' for '<TG_ID>': invalid digit found in string\n\nFor more information, try '--help'.\n"
    );
    let largest = parse(&["rhc-bot", "whitelist", "add", "9223372036854775807"]);
    assert_eq!(
        largest.command,
        Some(Action::Whitelist(WhitelistAction::Add { tg_id: i64::MAX }))
    );
}

#[test]
fn a_wrong_value_is_refused_before_help_is_given() {
    let refusal = refused(&["rhc-bot", "whitelist", "add", "abc", "--help"], None);
    assert_eq!(refusal.code, 2);
    assert!(refusal.text.contains("invalid value 'abc' for '<TG_ID>'"));
    let refusal = refused(&["rhc-bot", "--data", "", "--help"], None);
    assert_eq!(refusal.code, 2);
    assert!(refusal.text.contains("a value is required for '--data <DATA>'"));
    let refusal = refused(&["rhc-bot", "--data=", "whitelist", "add", "abc"], None);
    assert!(refusal.text.contains("a value is required for '--data <DATA>'"));
    let refusal = refused(&["rhc-bot", "--data", "", "whitelist", "add", "abc"], None);
    assert!(refusal.text.contains("invalid value 'abc' for '<TG_ID>'"));
    let refusal = refused(&["rhc-bot", "whitelist", "add", "abc"], Some(""));
    assert!(refusal.text.contains("invalid value 'abc' for '<TG_ID>'"));
}

#[test]
fn help_shows_the_environment() {
    for (env, shown) in [
        (None, "[env: RHC_BOT_DATA=] [default: /var/lib/rhc-bot]"),
        (Some(""), "[env: RHC_BOT_DATA=] [default: /var/lib/rhc-bot]"),
        (Some("/srv/x y"), "[env: RHC_BOT_DATA=/srv/x y] [default: /var/lib/rhc-bot]"),
        (Some("a{n}b"), "[env: RHC_BOT_DATA=a{n}b] [default: /var/lib/rhc-bot]"),
    ] {
        let refusal = refused(&["rhc-bot", "--help"], env);
        assert_eq!(refusal.code, 0);
        assert!(refusal.text.contains(shown), "{}", refusal.text);
    }
}

#[test]
fn other_command_lines_are_refused() {
    for words in [
        vec!["rhc-bot", "launch"],
        vec!["rhc-bot", "run", "now"],
        vec!["rhc-bot", "run", "--data", "x"],
        vec!["rhc-bot", "whitelist"],
        vec!["rhc-bot", "whitelist", "add"],
        vec!["rhc-bot", "whitelist", "add", "1", "2"],
        vec!["rhc-bot", "whitelist", "add", "-1"],
        vec!["rhc-bot", "whitelist", "list", "--all"],
        vec!["rhc-bot", "--data"],
    ] {
        match parse_cli(&args(&words), None) {
            Err(CliError::Refused(refusal)) => assert_eq!(refusal.code, 2, "{words:?}"),
            other => panic!("{words:?} {other:?}"),
        }
    }
}

#[test]
fn help_is_answered() {
    match parse_cli(&args(&["rhc-bot", "--help"]), None) {
        Err(CliError::Refused(refusal)) => {
            assert_eq!(refusal.code, 0);
            assert!(refusal.text.contains("Usage: rhc-bot [OPTIONS] [COMMAND]"));
            assert!(refusal.text.contains("管理 Telegram 数字 ID 白名单"));
            assert!(refusal.text.contains("--data <DATA>"));
            assert!(refusal.text.contains("[env: RHC_BOT_DATA=] [default: /var/lib/rhc-bot]"));
            assert!(refusal.text.contains("cache-update"));
        }
        other => panic!("{other:?}"),
    }
}

#[test]
fn a_refusal_is_styled_for_a_terminal() {
    let refusal = refused(&["rhc-bot", "--help"], None);
    assert!(!refusal.text.contains('\x1b'));
    assert!(refusal.styled.contains("\x1b["));
    let mut plain = String::new();
    let mut code = false;
    for c in refusal.styled.chars() {
        if c == '\x1b' {
            code = true;
        } else if !code {
            plain.push(c);
        } else if c == 'm' {
            code = false;
        }
    }
    assert_eq!(plain, refusal.text);
    let error = CliError::Refused(refusal);
    assert!(error.styled_message().contains("\x1b["));
}

#[test]
fn what_was_found_decides() {
    let found = |path: &[&str], values: &[(&str, &str)]| Found {
        path: args(path),
        values: values.iter().map(|(a, b)| (a.to_string(), b.to_string())).collect(),
    };
    let add = found(&["whitelist", "add"], &[("tg_id", "-9")]);
    let cli = cli_from_found(&add, None).unwrap();
    assert_eq!(cli.command, Some(Action::Whitelist(WhitelistAction::Add { tg_id: -9 })));
    assert_eq!(cli.data, "/var/lib/rhc-bot");
    let empty = cli_from_found(&add, Some(String::new())).unwrap_err();
    assert!(matches!(empty, CliError::EmptyData));
    assert_eq!(empty.message(), "error: the data directory is empty\n");
    assert_eq!(empty.styled_message(), empty.message());
    assert_eq!(empty.code(), 2);
    let delete = found(&["whitelist", "delete"], &[("data", "d"), ("all", "false")]);
    let cli = cli_from_found(&delete, Some("e".to_owned())).unwrap();
    assert_eq!(
        cli.command,
        Some(Action::Whitelist(WhitelistAction::Delete { tg_id: None, all: false }))
    );
    assert_eq!(cli.data, "d");
    for path in [vec!["whitelist"], vec!["other"], vec!["whitelist", "add"], vec!["a", "b", "c"]] {
        let error = cli_from_found(&found(&path, &[]), None).unwrap_err();
        assert!(matches!(error, CliError::Incomplete));
        assert_eq!(error.message(), "error: incomplete command line\n");
        assert_eq!(error.code(), 2);
    }
    for name in ["add", "delete"] {
        let wrong = found(&["whitelist", name], &[("tg_id", "x")]);
        assert!(matches!(cli_from_found(&wrong, None), Err(CliError::Incomplete)));
    }
}

#[test]
fn a_deletion_needs_a_target() {
    assert_eq!(delete_target(Some(4), false), DeleteTarget::One(4));
    assert_eq!(delete_target(Some(4), true), DeleteTarget::All);
    assert_eq!(delete_target(None, true), DeleteTarget::All);
    assert_eq!(delete_target(None, false), DeleteTarget::Missing);
    assert_eq!(
        DeleteTarget::Missing.refusal().unwrap(),
        "请提供要删除的 Telegram 数字 ID，或使用 --all 删除全部"
    );
    assert_eq!(DeleteTarget::All.refusal(), None);
    assert_eq!(DeleteTarget::One(4).refusal(), None);
    assert_eq!(reset_text(), "数据已重置");
}

#[test]
fn service_actions_run_systemctl() {
    assert_eq!(SERVICE_NAME, "rhc-bot.service");
    let action = ServiceAction::Restart;
    assert_eq!(action.verb(), "restart");
    assert_eq!(action.arguments(), args(&["restart", "rhc-bot.service"]));
    assert_eq!(action.launch_failure(), "无法运行 systemctl restart");
    assert_eq!(
        action.failure(),
        "systemctl restart rhc-bot.service 执行失败，请确认当前用户有管理服务的权限"
    );
    let done: Vec<String> = [
        ServiceAction::Start,
        ServiceAction::Stop,
        ServiceAction::Restart,
        ServiceAction::Enable,
        ServiceAction::Disable,
    ]
    .iter()
    .map(|a| a.done())
    .collect();
    assert_eq!(done, args(&["服务已启动", "服务已停止", "服务已重启", "已设置开机自启", "已关闭开机自启"]));
}
