use rhc_bot::menu::{
    menu_step, menu_text, prompt, read_tg_id, report, MenuAction, MenuStage, CHOICE_PROMPT,
};
use rhc_bot::number::NumberError;
use rhc_bot::service::ServiceAction;

#[test]
fn the_menu_shows_its_choices() {
    let text = menu_text("live", "24h");
    let lines: Vec<&str> = text.lines().collect();
    assert_eq!(lines.len(), 18);
    assert_eq!(lines[0], "");
    assert_eq!(lines[1], "\x1b[0;32mRHC Bot 管理界面\x1b[0m");
    assert_eq!(lines[2], "0. 退出");
    assert_eq!(lines[15], "13. 删除全部白名单 TG ID");
    assert_eq!(lines[17], "镜像模式: live | 缓存更新周期: 24h");
    assert_eq!(CHOICE_PROMPT, "请选择 [0-13]: ");
}

#[test]
fn each_choice_has_its_action() {
    let cases = [
        ("0", MenuAction::Leave),
        ("1\n", MenuAction::Configure),
        (" 2 \n", MenuAction::Show),
        ("3", MenuAction::UpdateCache),
        ("4", MenuAction::Reset),
        ("5", MenuAction::Service(ServiceAction::Start)),
        ("6", MenuAction::Service(ServiceAction::Stop)),
        ("7", MenuAction::Service(ServiceAction::Restart)),
        ("8", MenuAction::Service(ServiceAction::Enable)),
        ("9", MenuAction::Service(ServiceAction::Disable)),
        ("12", MenuAction::List),
        ("13\r\n", MenuAction::Clear),
        ("14", MenuAction::Unknown),
        ("00", MenuAction::Unknown),
        ("", MenuAction::Unknown),
    ];
    for (line, action) in cases {
        assert_eq!(menu_step(MenuStage::Choice, line), (MenuStage::Choice, action), "{line}");
    }
}

#[test]
fn numbers_are_asked_for() {
    assert_eq!(menu_step(MenuStage::Choice, "10\n"), (MenuStage::Add, MenuAction::Ask));
    assert_eq!(menu_step(MenuStage::Choice, "11\n"), (MenuStage::Delete, MenuAction::Ask));
    assert_eq!(prompt(MenuStage::Choice), "请选择 [0-13]: ");
    assert_eq!(prompt(MenuStage::Add), "请输入要添加的 Telegram 数字 ID: ");
    assert_eq!(prompt(MenuStage::Delete), "请输入要删除的 Telegram 数字 ID: ");
    assert_eq!(menu_step(MenuStage::Add, " 123 \n"), (MenuStage::Choice, MenuAction::Add(123)));
    assert_eq!(menu_step(MenuStage::Delete, "-5"), (MenuStage::Choice, MenuAction::Delete(-5)));
    assert_eq!(menu_step(MenuStage::Add, "x"), (MenuStage::Choice, MenuAction::NoNumber(NumberError::InvalidDigit)));
    assert_eq!(menu_step(MenuStage::Delete, " \n"), (MenuStage::Choice, MenuAction::NoNumber(NumberError::Empty)));
    assert_eq!(read_tg_id("+7\n"), Ok(7));
    assert_eq!(read_tg_id("7 8"), Err(NumberError::InvalidDigit));
}

#[test]
fn what_was_done_is_reported() {
    let said = |action, count| report(action, count);
    assert_eq!(said(MenuAction::UpdateCache, 0).unwrap(), "本地 UBI 缓存已更新");
    assert_eq!(said(MenuAction::Reset, 0).unwrap(), "验证数据已重置");
    assert_eq!(said(MenuAction::Service(ServiceAction::Stop), 0).unwrap(), "服务已停止");
    assert_eq!(said(MenuAction::Add(4), 0).unwrap(), "已添加白名单 TG ID: 4");
    assert_eq!(said(MenuAction::Delete(4), 0).unwrap(), "白名单中没有 TG ID: 4");
    assert_eq!(said(MenuAction::Delete(4), 1).unwrap(), "已删除白名单 TG ID: 4");
    assert_eq!(said(MenuAction::Clear, 3).unwrap(), "已删除全部白名单 TG ID，共 3 个");
    assert_eq!(said(MenuAction::Unknown, 0).unwrap(), "输入无效");
    assert_eq!(said(MenuAction::NoNumber(NumberError::Empty), 0).unwrap(), "请输入 Telegram 数字 ID");
    for action in [
        MenuAction::Leave,
        MenuAction::Configure,
        MenuAction::Show,
        MenuAction::Ask,
        MenuAction::List,
    ] {
        assert_eq!(said(action, 0), None);
    }
}
