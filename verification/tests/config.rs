use rhc_bot::config::{
    default_cache_update_interval, default_image_mode, default_log_retention_days, expand_newlines,
    Config, ConfigError, Dialog, DEFAULT_DATA,
};
use rhc_bot::interval::IntervalError;
use rhc_bot::number::NumberError;

#[test]
fn prompt_config_supports_escaped_newlines() {
    let prompt = expand_newlines(r"请输入验证命令。\nEnter the verification command.");
    assert_eq!(prompt, "请输入验证命令。\nEnter the verification command.");
}

#[test]
fn expanding_twice_changes_nothing_more() {
    let once = expand_newlines(r"a\nb\\nc\");
    assert_eq!(once, "a\nb\\\nc\\");
    assert_eq!(expand_newlines(&once), once);
}

#[test]
fn defaults_of_a_new_bot() {
    let c = Config::default();
    assert_eq!(c.token, "");
    assert_eq!(c.max_verifications, 2);
    assert_eq!(c.welcome, "欢迎新成员，请在 10 分钟内私聊完成验证。\nWelcome. Please complete verification by private message within 10 minutes.");
    assert_eq!(c.button, "开始验证");
    assert_eq!(c.prompt, "请输入 rhc connect 或 subscription-manager register 命令。\nEnter an rhc connect or subscription-manager register command.");
    assert_eq!(c.timeout_seconds, 600);
    assert_eq!(c.image, "registry.access.redhat.com/ubi10/ubi:latest");
    assert_eq!(c.image_mode, "live");
    assert_eq!(c.cache_update_interval, "24h");
    assert_eq!(c.log_retention_days, 7);
    assert_eq!(default_image_mode(), "live");
    assert_eq!(default_cache_update_interval(), "24h");
    assert_eq!(default_log_retention_days(), 7);
    assert_eq!(DEFAULT_DATA, "/var/lib/rhc-bot");
}

fn answer_all(dialog: &mut Dialog, lines: &[&str]) -> Result<(), ConfigError> {
    for line in lines {
        dialog.answer(line)?;
    }
    Ok(())
}

#[test]
fn the_dialog_asks_for_every_setting() {
    let mut dialog = Dialog::new(Config::default());
    let mut questions = Vec::new();
    while let Some(question) = dialog.question() {
        questions.push(question);
        assert_eq!(dialog.answer("\n"), Ok(()));
    }
    assert_eq!(questions.len(), 10);
    assert_eq!(questions[0], "Bot token []: ");
    assert_eq!(questions[1], "同时验证人数 [2]: ");
    assert_eq!(questions[2], "群欢迎语（支持 {fullname}，使用 \\n 换行） [欢迎新成员，请在 10 分钟内私聊完成验证。\nWelcome. Please complete verification by private message within 10 minutes.]: ");
    assert_eq!(questions[3], "按钮文案 [开始验证]: ");
    assert_eq!(questions[5], "验证时长（秒） [600]: ");
    assert_eq!(questions[6], "UBI 镜像 [registry.access.redhat.com/ubi10/ubi:latest]: ");
    assert_eq!(questions[7], "镜像模式（live 实时拉取/cache 本地缓存） [live]: ");
    assert_eq!(questions[8], "缓存自动更新时间（例如 21h/30d） [24h]: ");
    assert_eq!(questions[9], "日志保留天数 [7]: ");
    assert_eq!(format!("{:?}", dialog.into_config()), format!("{:?}", Config::default()));
}

#[test]
fn the_dialog_takes_what_is_typed() {
    let mut dialog = Dialog::new(Config::default());
    let lines = [
        " 12:token \n", "5\n", r"Hi {fullname}\nWelcome", "Go\n", r"Now\nplease", "90", "img", "cache",
        "30d\n", " 14 \n",
    ];
    assert_eq!(answer_all(&mut dialog, &lines), Ok(()));
    assert_eq!(dialog.question(), None);
    assert_eq!(dialog.answer("more"), Ok(()));
    let c = dialog.into_config();
    assert_eq!(c.token, "12:token");
    assert_eq!(c.max_verifications, 5);
    assert_eq!(c.welcome, "Hi {fullname}\nWelcome");
    assert_eq!(c.button, "Go");
    assert_eq!(c.prompt, "Now\nplease");
    assert_eq!(c.timeout_seconds, 90);
    assert_eq!(c.image, "img");
    assert_eq!(c.image_mode, "cache");
    assert_eq!(c.cache_update_interval, "30d");
    assert_eq!(c.log_retention_days, 14);
}

#[test]
fn the_dialog_refuses_wrong_answers() {
    let mut dialog = Dialog::new(Config::default());
    assert_eq!(dialog.answer(""), Ok(()));
    assert_eq!(dialog.answer("-1"), Err(ConfigError::InvalidInput(NumberError::InvalidDigit)));
    assert_eq!(dialog.answer("4294967296"), Err(ConfigError::InvalidInput(NumberError::PosOverflow)));
    assert_eq!(dialog.question(), Some("同时验证人数 [2]: ".to_owned()));
    assert_eq!(answer_all(&mut dialog, &["", "", "", ""]), Ok(()));
    assert_eq!(dialog.answer("ten"), Err(ConfigError::InvalidInput(NumberError::InvalidDigit)));
    assert_eq!(answer_all(&mut dialog, &["", ""]), Ok(()));
    assert_eq!(dialog.answer("Live"), Err(ConfigError::ImageMode));
    assert_eq!(dialog.answer("live"), Ok(()));
    assert_eq!(dialog.answer("24"), Err(ConfigError::Interval(IntervalError::Format)));
    assert_eq!(
        dialog.answer("9223372036854775808d"),
        Err(ConfigError::Interval(IntervalError::TooLarge))
    );
    assert_eq!(dialog.answer("9223372036854775807d"), Err(ConfigError::IntervalOverflow));
    assert_eq!(dialog.answer(""), Ok(()));
    assert_eq!(dialog.answer("1.5"), Err(ConfigError::InvalidInput(NumberError::InvalidDigit)));
    let invalid = ConfigError::InvalidInput(NumberError::PosOverflow);
    assert_eq!(invalid.message(), "输入无效");
    assert_eq!(invalid.cause(), Some(NumberError::PosOverflow));
    assert_eq!(ConfigError::ImageMode.cause(), None);
    assert_eq!(ConfigError::ImageMode.message(), "镜像模式只能是 live 或 cache");
    assert_eq!(
        ConfigError::Interval(IntervalError::Format).message(),
        "更新时间必须类似 21h 或 30d"
    );
    assert_eq!(ConfigError::IntervalOverflow.message(), "attempt to multiply with overflow");
}

#[test]
fn a_copy_of_the_settings_is_equal() {
    let c = Config::default();
    assert_eq!(format!("{:?}", c.clone()), format!("{c:?}"));
}
