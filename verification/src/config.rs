//! The settings of the bot and the dialog that changes them.

use vstd::prelude::*;
use crate::interval::{
    interval_fits, interval_in_range, interval_seconds, interval_spec, IntervalError,
};
use crate::number::{
    decimal_nat, digits_value, law_decimal_is_read, parse_u32, parse_u64, read_int, u64_text,
    NumberError,
};
use crate::text::{
    has_prefix, law_replace_absent, occurs, replace, replace_spec, str_eq, trim, trim_spec,
};

verus! {

/// Where the bot keeps its data unless told otherwise.
pub const DEFAULT_DATA: &'static str = "/var/lib/rhc-bot";

/// The settings.
#[derive(Debug)]
pub struct Config {
    pub token: String,
    pub max_verifications: u32,
    pub welcome: String,
    pub button: String,
    pub prompt: String,
    pub timeout_seconds: u64,
    pub image: String,
    pub image_mode: String,
    pub cache_update_interval: String,
    pub log_retention_days: u64,
}

/// The settings, as values to reason about.
pub struct ConfigView {
    pub token: Seq<char>,
    pub max_verifications: u32,
    pub welcome: Seq<char>,
    pub button: Seq<char>,
    pub prompt: Seq<char>,
    pub timeout_seconds: u64,
    pub image: Seq<char>,
    pub image_mode: Seq<char>,
    pub cache_update_interval: Seq<char>,
    pub log_retention_days: u64,
}

impl View for Config {
    type V = ConfigView;

    open spec fn view(&self) -> ConfigView {
        ConfigView {
            token: self.token@,
            max_verifications: self.max_verifications,
            welcome: self.welcome@,
            button: self.button@,
            prompt: self.prompt@,
            timeout_seconds: self.timeout_seconds,
            image: self.image@,
            image_mode: self.image_mode@,
            cache_update_interval: self.cache_update_interval@,
            log_retention_days: self.log_retention_days,
        }
    }
}

impl Clone for Config {
    fn clone(&self) -> (r: Config)
        ensures
            r@ == self@,
    {
        Config {
            token: self.token.clone(),
            max_verifications: self.max_verifications,
            welcome: self.welcome.clone(),
            button: self.button.clone(),
            prompt: self.prompt.clone(),
            timeout_seconds: self.timeout_seconds,
            image: self.image.clone(),
            image_mode: self.image_mode.clone(),
            cache_update_interval: self.cache_update_interval.clone(),
            log_retention_days: self.log_retention_days,
        }
    }
}

/// The image is pulled anew for each verification.
pub fn default_image_mode() -> (r: String)
    ensures
        r@ == "live"@,
{
    "live".to_string()
}

/// The cached image is updated daily.
pub fn default_cache_update_interval() -> (r: String)
    ensures
        r@ == "24h"@,
{
    "24h".to_string()
}

/// Logs are kept for a week.
pub fn default_log_retention_days() -> (r: u64)
    ensures
        r == 7,
{
    7
}

/// The settings of a bot that has not been configured.
pub open spec fn default_config() -> ConfigView {
    ConfigView {
        token: ""@,
        max_verifications: 2,
        welcome: "欢迎新成员，请在 10 分钟内私聊完成验证。\nWelcome. Please complete verification by private message within 10 minutes."@,
        button: "开始验证"@,
        prompt: "请输入 rhc connect 或 subscription-manager register 命令。\nEnter an rhc connect or subscription-manager register command."@,
        timeout_seconds: 600,
        image: "registry.access.redhat.com/ubi10/ubi:latest"@,
        image_mode: "live"@,
        cache_update_interval: "24h"@,
        log_retention_days: 7,
    }
}

impl Default for Config {
    fn default() -> (r: Config)
        ensures
            r@ == default_config(),
    {
        Config {
            token: "".to_string(),
            max_verifications: 2,
            welcome: "欢迎新成员，请在 10 分钟内私聊完成验证。\nWelcome. Please complete verification by private message within 10 minutes.".to_string(),
            button: "开始验证".to_string(),
            prompt: "请输入 rhc connect 或 subscription-manager register 命令。\nEnter an rhc connect or subscription-manager register command.".to_string(),
            timeout_seconds: 600,
            image: "registry.access.redhat.com/ubi10/ubi:latest".to_string(),
            image_mode: default_image_mode(),
            cache_update_interval: default_cache_update_interval(),
            log_retention_days: default_log_retention_days(),
        }
    }
}

/// `s` with each `\n`, written as a backslash and a letter, turned into a line
/// feed.
pub open spec fn expand_spec(s: Seq<char>) -> Seq<char> {
    replace_spec(s, "\\n"@, "\n"@)
}

/// `s` with each `\n`, written as a backslash and a letter, turned into a line
/// feed.
pub fn expand_newlines(s: &str) -> (r: String)
    ensures
        r@ == expand_spec(s@),
{
    proof {
        reveal_strlit("\\n");
    }
    replace(s, "\\n", "\n")
}

/// Whether the image is taken in one of the two known ways.
pub open spec fn image_mode_valid(mode: Seq<char>) -> bool {
    mode == "live"@ || mode == "cache"@
}

/// A setting that the dialog asks for.
#[derive(Debug, Clone, Copy, PartialEq, Eq, Structural)]
pub enum Field {
    Token,
    MaxVerifications,
    Welcome,
    Button,
    Prompt,
    TimeoutSeconds,
    Image,
    ImageMode,
    CacheUpdateInterval,
    LogRetentionDays,
}

/// Why an answer is refused.
#[derive(Debug, Clone, Copy, PartialEq, Eq, Structural)]
pub enum ConfigError {
    /// It is not a number of the setting's type.
    InvalidInput(NumberError),
    /// It is not a known way to take the image.
    ImageMode,
    /// It is no time span.
    Interval(IntervalError),
    /// It is a time span too long to be counted in seconds.
    IntervalOverflow,
}

impl ConfigError {
    /// What to tell the user.
    pub fn message(&self) -> (r: String)
        ensures
            r@ == (match *self {
                ConfigError::InvalidInput(_) => "输入无效"@,
                ConfigError::ImageMode => "镜像模式只能是 live 或 cache"@,
                ConfigError::Interval(IntervalError::Format) => "更新时间必须类似 21h 或 30d"@,
                ConfigError::Interval(IntervalError::TooLarge) => "number too large to fit in target type"@,
                ConfigError::IntervalOverflow => "attempt to multiply with overflow"@,
            }),
    {
        match self {
            ConfigError::InvalidInput(_) => "输入无效".to_string(),
            ConfigError::ImageMode => "镜像模式只能是 live 或 cache".to_string(),
            ConfigError::Interval(e) => e.message(),
            ConfigError::IntervalOverflow => "attempt to multiply with overflow".to_string(),
        }
    }

    /// What lies behind it, to tell the user as well.
    pub fn cause(&self) -> (r: Option<NumberError>)
        ensures
            r == (match *self {
                ConfigError::InvalidInput(e) => Some(e),
                _ => None,
            }),
    {
        match self {
            ConfigError::InvalidInput(e) => Some(*e),
            _ => None,
        }
    }
}

/// How the dialog names a setting.
pub open spec fn label_spec(field: Field) -> Seq<char> {
    match field {
        Field::Token => "Bot token"@,
        Field::MaxVerifications => "同时验证人数"@,
        Field::Welcome => "群欢迎语（支持 {fullname}，使用 \\n 换行）"@,
        Field::Button => "按钮文案"@,
        Field::Prompt => "提问文案（使用 \\n 换行）"@,
        Field::TimeoutSeconds => "验证时长（秒）"@,
        Field::Image => "UBI 镜像"@,
        Field::ImageMode => "镜像模式（live 实时拉取/cache 本地缓存）"@,
        Field::CacheUpdateInterval => "缓存自动更新时间（例如 21h/30d）"@,
        Field::LogRetentionDays => "日志保留天数"@,
    }
}

/// The current value of a setting, as text.
pub open spec fn value_spec(config: ConfigView, field: Field) -> Seq<char> {
    match field {
        Field::Token => config.token,
        Field::MaxVerifications => decimal_nat(config.max_verifications as nat),
        Field::Welcome => config.welcome,
        Field::Button => config.button,
        Field::Prompt => config.prompt,
        Field::TimeoutSeconds => decimal_nat(config.timeout_seconds as nat),
        Field::Image => config.image,
        Field::ImageMode => config.image_mode,
        Field::CacheUpdateInterval => config.cache_update_interval,
        Field::LogRetentionDays => decimal_nat(config.log_retention_days as nat),
    }
}

/// The setting that the dialog asks for next.
pub open spec fn next_field(field: Field) -> Option<Field> {
    match field {
        Field::Token => Some(Field::MaxVerifications),
        Field::MaxVerifications => Some(Field::Welcome),
        Field::Welcome => Some(Field::Button),
        Field::Button => Some(Field::Prompt),
        Field::Prompt => Some(Field::TimeoutSeconds),
        Field::TimeoutSeconds => Some(Field::Image),
        Field::Image => Some(Field::ImageMode),
        Field::ImageMode => Some(Field::CacheUpdateInterval),
        Field::CacheUpdateInterval => Some(Field::LogRetentionDays),
        Field::LogRetentionDays => None,
    }
}

/// The text that an answer leaves in a setting: the answer without the white
/// space around it, or the current text where nothing is left of it.
pub open spec fn chosen(current: Seq<char>, line: Seq<char>) -> Seq<char> {
    if trim_spec(line).len() == 0 {
        current
    } else {
        trim_spec(line)
    }
}

/// The number that an answer leaves in a setting, or why it is none.
pub open spec fn chosen_number(current: int, line: Seq<char>, max: int) -> Result<
    int,
    NumberError,
> {
    if trim_spec(line).len() == 0 {
        Ok(current)
    } else {
        read_int(trim_spec(line), 0, max)
    }
}

/// The settings after an answer to the question for `field`, or why it is refused.
pub open spec fn answer_spec(config: ConfigView, field: Field, line: Seq<char>) -> Result<
    ConfigView,
    ConfigError,
> {
    match field {
        Field::Token => Ok(ConfigView { token: chosen(config.token, line), ..config }),
        Field::MaxVerifications => match chosen_number(
            config.max_verifications as int,
            line,
            u32::MAX as int,
        ) {
            Ok(n) => Ok(ConfigView { max_verifications: n as u32, ..config }),
            Err(e) => Err(ConfigError::InvalidInput(e)),
        },
        Field::Welcome => Ok(
            ConfigView { welcome: expand_spec(chosen(config.welcome, line)), ..config },
        ),
        Field::Button => Ok(ConfigView { button: chosen(config.button, line), ..config }),
        Field::Prompt => Ok(
            ConfigView { prompt: expand_spec(chosen(config.prompt, line)), ..config },
        ),
        Field::TimeoutSeconds => match chosen_number(
            config.timeout_seconds as int,
            line,
            u64::MAX as int,
        ) {
            Ok(n) => Ok(ConfigView { timeout_seconds: n as u64, ..config }),
            Err(e) => Err(ConfigError::InvalidInput(e)),
        },
        Field::Image => Ok(ConfigView { image: chosen(config.image, line), ..config }),
        Field::ImageMode => {
            let mode = chosen(config.image_mode, line);
            if image_mode_valid(mode) {
                Ok(ConfigView { image_mode: mode, ..config })
            } else {
                Err(ConfigError::ImageMode)
            }
        },
        Field::CacheUpdateInterval => {
            let span = chosen(config.cache_update_interval, line);
            match interval_spec(span) {
                Err(e) => Err(ConfigError::Interval(e)),
                Ok(_) => if interval_in_range(span) {
                    Ok(ConfigView { cache_update_interval: span, ..config })
                } else {
                    Err(ConfigError::IntervalOverflow)
                },
            }
        },
        Field::LogRetentionDays => match chosen_number(
            config.log_retention_days as int,
            line,
            u64::MAX as int,
        ) {
            Ok(n) => Ok(ConfigView { log_retention_days: n as u64, ..config }),
            Err(e) => Err(ConfigError::InvalidInput(e)),
        },
    }
}

fn choose_text(current: &String, line: &str) -> (r: String)
    ensures
        r@ == chosen(current@, line@),
{
    let t = trim(line);
    if t.is_empty() {
        current.clone()
    } else {
        t.to_owned()
    }
}

fn choose_u64(current: u64, line: &str) -> (r: Result<u64, NumberError>)
    ensures
        chosen_number(current as int, line@, u64::MAX as int) == (match r {
            Ok(n) => Ok::<int, NumberError>(n as int),
            Err(e) => Err::<int, NumberError>(e),
        }),
{
    let t = trim(line);
    if t.is_empty() {
        Ok(current)
    } else {
        parse_u64(t)
    }
}

fn choose_u32(current: u32, line: &str) -> (r: Result<u32, NumberError>)
    ensures
        chosen_number(current as int, line@, u32::MAX as int) == (match r {
            Ok(n) => Ok::<int, NumberError>(n as int),
            Err(e) => Err::<int, NumberError>(e),
        }),
{
    let t = trim(line);
    if t.is_empty() {
        Ok(current)
    } else {
        parse_u32(t)
    }
}

/// How the dialog names a setting.
fn label(field: Field) -> (r: &'static str)
    ensures
        r@ == label_spec(field),
{
    match field {
        Field::Token => "Bot token",
        Field::MaxVerifications => "同时验证人数",
        Field::Welcome => "群欢迎语（支持 {fullname}，使用 \\n 换行）",
        Field::Button => "按钮文案",
        Field::Prompt => "提问文案（使用 \\n 换行）",
        Field::TimeoutSeconds => "验证时长（秒）",
        Field::Image => "UBI 镜像",
        Field::ImageMode => "镜像模式（live 实时拉取/cache 本地缓存）",
        Field::CacheUpdateInterval => "缓存自动更新时间（例如 21h/30d）",
        Field::LogRetentionDays => "日志保留天数",
    }
}

/// The current value of a setting, as text.
fn value(config: &Config, field: Field) -> (r: String)
    ensures
        r@ == value_spec(config@, field),
{
    match field {
        Field::Token => config.token.clone(),
        Field::MaxVerifications => u64_text(config.max_verifications as u64),
        Field::Welcome => config.welcome.clone(),
        Field::Button => config.button.clone(),
        Field::Prompt => config.prompt.clone(),
        Field::TimeoutSeconds => u64_text(config.timeout_seconds),
        Field::Image => config.image.clone(),
        Field::ImageMode => config.image_mode.clone(),
        Field::CacheUpdateInterval => config.cache_update_interval.clone(),
        Field::LogRetentionDays => u64_text(config.log_retention_days),
    }
}

fn following(field: Field) -> (r: Option<Field>)
    ensures
        r == next_field(field),
{
    match field {
        Field::Token => Some(Field::MaxVerifications),
        Field::MaxVerifications => Some(Field::Welcome),
        Field::Welcome => Some(Field::Button),
        Field::Button => Some(Field::Prompt),
        Field::Prompt => Some(Field::TimeoutSeconds),
        Field::TimeoutSeconds => Some(Field::Image),
        Field::Image => Some(Field::ImageMode),
        Field::ImageMode => Some(Field::CacheUpdateInterval),
        Field::CacheUpdateInterval => Some(Field::LogRetentionDays),
        Field::LogRetentionDays => None,
    }
}

/// The dialog that asks for the settings one after the other. A refused answer
/// ends it.
pub struct Dialog {
    config: Config,
    field: Option<Field>,
}

impl Dialog {
    /// The settings as they stand.
    pub closed spec fn settings(&self) -> ConfigView {
        self.config@
    }

    /// The setting that is asked for, unless the dialog is over.
    pub closed spec fn asking(&self) -> Option<Field> {
        self.field
    }

    /// Begins with the first question.
    pub fn new(config: Config) -> (r: Dialog)
        ensures
            r.settings() == config@,
            r.asking() == Some(Field::Token),
    {
        Dialog { config, field: Some(Field::Token) }
    }

    /// The question to show: the name of the setting and its current value.
    /// None where the dialog is over.
    pub fn question(&self) -> (r: Option<String>)
        ensures
            match self.asking() {
                Some(field) => r is Some && r->0@ == label_spec(field) + " ["@ + value_spec(
                    self.settings(),
                    field,
                ) + "]: "@,
                None => r is None,
            },
    {
        match self.field {
            Some(field) => {
                let mut out = label(field).to_owned();
                out.append(" [");
                out.append(value(&self.config, field).as_str());
                out.append("]: ");
                Some(out)
            },
            None => None,
        }
    }

    /// Takes the answer to the question and goes on to the next one. A dialog
    /// that is over stays as it is.
    pub fn answer(&mut self, line: &str) -> (r: Result<(), ConfigError>)
        ensures
            match old(self).asking() {
                Some(field) => match answer_spec(old(self).settings(), field, line@) {
                    Ok(config) => {
                        &&& r is Ok
                        &&& final(self).settings() == config
                        &&& final(self).asking() == next_field(field)
                    },
                    Err(e) => {
                        &&& r == Err::<(), ConfigError>(e)
                        &&& *final(self) == *old(self)
                    },
                },
                None => r is Ok && *final(self) == *old(self),
            },
    {
        let field = match self.field {
            Some(field) => field,
            None => {
                return Ok(());
            },
        };
        match field {
            Field::Token => {
                self.config.token = choose_text(&self.config.token, line);
            },
            Field::MaxVerifications => match choose_u32(self.config.max_verifications, line) {
                Ok(n) => {
                    self.config.max_verifications = n;
                },
                Err(e) => {
                    return Err(ConfigError::InvalidInput(e));
                },
            },
            Field::Welcome => {
                let text = choose_text(&self.config.welcome, line);
                self.config.welcome = expand_newlines(text.as_str());
            },
            Field::Button => {
                self.config.button = choose_text(&self.config.button, line);
            },
            Field::Prompt => {
                let text = choose_text(&self.config.prompt, line);
                self.config.prompt = expand_newlines(text.as_str());
            },
            Field::TimeoutSeconds => match choose_u64(self.config.timeout_seconds, line) {
                Ok(n) => {
                    self.config.timeout_seconds = n;
                },
                Err(e) => {
                    return Err(ConfigError::InvalidInput(e));
                },
            },
            Field::Image => {
                self.config.image = choose_text(&self.config.image, line);
            },
            Field::ImageMode => {
                let mode = choose_text(&self.config.image_mode, line);
                if !str_eq(mode.as_str(), "live") && !str_eq(mode.as_str(), "cache") {
                    return Err(ConfigError::ImageMode);
                }
                self.config.image_mode = mode;
            },
            Field::CacheUpdateInterval => {
                let span = choose_text(&self.config.cache_update_interval, line);
                if !interval_fits(span.as_str()) {
                    return Err(ConfigError::IntervalOverflow);
                }
                match interval_seconds(span.as_str()) {
                    Ok(_) => {
                        self.config.cache_update_interval = span;
                    },
                    Err(e) => {
                        return Err(ConfigError::Interval(e));
                    },
                }
            },
            Field::LogRetentionDays => match choose_u64(self.config.log_retention_days, line) {
                Ok(n) => {
                    self.config.log_retention_days = n;
                },
                Err(e) => {
                    return Err(ConfigError::InvalidInput(e));
                },
            },
        }
        self.field = following(field);
        Ok(())
    }

    /// The settings as they stand.
    pub fn into_config(self) -> (r: Config)
        ensures
            r@ == self.settings(),
    {
        self.config
    }
}

/// The settings after answers to the questions from `field` on, or why one of
/// them is refused.
pub open spec fn answers_spec(
    config: ConfigView,
    field: Option<Field>,
    lines: Seq<Seq<char>>,
) -> Result<ConfigView, ConfigError>
    decreases lines.len(),
{
    if field is None || lines.len() == 0 {
        Ok(config)
    } else {
        match answer_spec(config, field->0, lines[0]) {
            Ok(next) => answers_spec(next, next_field(field->0), lines.skip(1)),
            Err(e) => Err(e),
        }
    }
}

/// Where a backslash and an `n` stood, a line feed stands: nothing is left to
/// expand.
pub proof fn law_expanded(s: Seq<char>)
    ensures
        !occurs(expand_spec(s), "\\n"@),
{
    reveal_strlit("\\n");
    reveal_strlit("\n");
    lemma_no_escape(s);
    assert forall|i: int| 0 <= i <= expand_spec(s).len() implies !has_prefix(
        #[trigger] expand_spec(s).skip(i),
        "\\n"@,
    ) by {
        let rest = expand_spec(s).skip(i);
        if has_prefix(rest, "\\n"@) {
            let head = rest.take(2);
            assert(head[0] == expand_spec(s)[i]);
            assert(head[1] == expand_spec(s)[i + 1]);
        }
    }
}

/// Expanding twice is the same as expanding once.
pub proof fn law_expand_idempotent(s: Seq<char>)
    ensures
        expand_spec(expand_spec(s)) == expand_spec(s),
{
    reveal_strlit("\\n");
    law_expanded(s);
    law_replace_absent(expand_spec(s), "\\n"@, "\n"@);
}

proof fn lemma_no_escape(s: Seq<char>)
    ensures
        forall|i: int|
            #![trigger expand_spec(s)[i]]
            0 <= i < expand_spec(s).len() - 1 ==> !(expand_spec(s)[i] == '\\' && expand_spec(s)[i
                + 1] == 'n'),
        expand_spec(s).len() > 0 ==> s.len() > 0 && (expand_spec(s)[0] == s[0] || expand_spec(s)[0]
            == '\n'),
    decreases s.len(),
{
    reveal_strlit("\\n");
    reveal_strlit("\n");
    if s.len() > 0 {
        let r = expand_spec(s);
        if has_prefix(s, "\\n"@) {
            lemma_no_escape(s.skip(2));
            let rest = expand_spec(s.skip(2));
            assert(r == "\n"@ + rest);
            assert forall|i: int| #![trigger r[i]] 0 <= i < r.len() - 1 implies !(r[i] == '\\'
                && r[i + 1] == 'n') by {
                if i > 0 {
                    assert(rest[i - 1] == r[i]);
                    assert(rest[i - 1 + 1] == r[i + 1]);
                }
            }
        } else {
            lemma_no_escape(s.skip(1));
            let rest = expand_spec(s.skip(1));
            assert(r == seq![s[0]] + rest);
            assert forall|i: int| #![trigger r[i]] 0 <= i < r.len() - 1 implies !(r[i] == '\\'
                && r[i + 1] == 'n') by {
                if i > 0 {
                    assert(rest[i - 1] == r[i]);
                    assert(rest[i - 1 + 1] == r[i + 1]);
                } else if r[0] == '\\' && r[1] == 'n' {
                    assert(rest[0] == 'n');
                    assert(s.skip(1)[0] == s[1]);
                    assert(s.take(2) =~= "\\n"@);
                }
            }
        }
    }
}

/// Settings that the dialog would leave: a known way to take the image, a time
/// span that can be counted in seconds, no line feed left to expand.
pub open spec fn settled(config: ConfigView) -> bool {
    &&& image_mode_valid(config.image_mode)
    &&& interval_spec(config.cache_update_interval) is Ok
    &&& interval_in_range(config.cache_update_interval)
    &&& !occurs(config.welcome, "\\n"@)
    &&& !occurs(config.prompt, "\\n"@)
}

/// A dialog that has been answered to its end leaves settings with a known way
/// to take the image, with a time span that can be counted in seconds, and with
/// no line feed left to expand.
pub proof fn law_dialog_leaves_valid_settings(config: ConfigView, lines: Seq<Seq<char>>)
    requires
        lines.len() == 10,
        answers_spec(config, Some(Field::Token), lines) is Ok,
    ensures
        settled(answers_spec(config, Some(Field::Token), lines)->Ok_0),
{
    let l1 = lines.skip(1);
    let l2 = l1.skip(1);
    let l3 = l2.skip(1);
    let l4 = l3.skip(1);
    let c1 = lemma_one_answer(config, Field::Token, lines);
    let c2 = lemma_one_answer(c1, Field::MaxVerifications, l1);
    let c3 = lemma_one_answer(c2, Field::Welcome, l2);
    law_expanded(chosen(c2.welcome, l2[0]));
    let c4 = lemma_one_answer(c3, Field::Button, l3);
    let c5 = lemma_one_answer(c4, Field::Prompt, l4);
    law_expanded(chosen(c4.prompt, l4[0]));
    let l5 = l4.skip(1);
    let l6 = l5.skip(1);
    let l7 = l6.skip(1);
    let l8 = l7.skip(1);
    let l9 = l8.skip(1);
    let c6 = lemma_one_answer(c5, Field::TimeoutSeconds, l5);
    let c7 = lemma_one_answer(c6, Field::Image, l6);
    let c8 = lemma_one_answer(c7, Field::ImageMode, l7);
    let c9 = lemma_one_answer(c8, Field::CacheUpdateInterval, l8);
    let c10 = lemma_one_answer(c9, Field::LogRetentionDays, l9);
}

/// Answers that are taken begin with one that is.
proof fn lemma_one_answer(config: ConfigView, field: Field, lines: Seq<Seq<char>>) -> (r:
    ConfigView)
    requires
        lines.len() > 0,
        answers_spec(config, Some(field), lines) is Ok,
    ensures
        answer_spec(config, field, lines[0]) == Ok::<ConfigView, ConfigError>(r),
        answers_spec(config, Some(field), lines) == answers_spec(
            r,
            next_field(field),
            lines.skip(1),
        ),
{
    answer_spec(config, field, lines[0])->Ok_0
}

/// Blank answers leave settled settings as they are.
pub proof fn law_blank_answers_keep(
    config: ConfigView,
    field: Option<Field>,
    lines: Seq<Seq<char>>,
)
    requires
        settled(config),
        forall|i: int| 0 <= i < lines.len() ==> trim_spec(#[trigger] lines[i]).len() == 0,
    ensures
        answers_spec(config, field, lines) == Ok::<ConfigView, ConfigError>(config),
    decreases lines.len(),
{
    if field is Some && lines.len() > 0 {
        reveal_strlit("\\n");
        law_replace_absent(config.welcome, "\\n"@, "\n"@);
        law_replace_absent(config.prompt, "\\n"@, "\n"@);
        assert(trim_spec(lines[0]).len() == 0);
        let rest = lines.skip(1);
        assert forall|i: int| 0 <= i < rest.len() implies trim_spec(#[trigger] rest[i]).len()
            == 0 by {
            assert(rest[i] == lines[i + 1]);
        }
        law_blank_answers_keep(config, next_field(field->0), rest);
    }
}

proof fn lemma_no_backslash(s: Seq<char>)
    requires
        forall|i: int| 0 <= i < s.len() ==> #[trigger] s[i] != '\\',
    ensures
        !occurs(s, "\\n"@),
{
    reveal_strlit("\\n");
    assert forall|i: int| 0 <= i <= s.len() implies !has_prefix(#[trigger] s.skip(i), "\\n"@) by {
        if has_prefix(s.skip(i), "\\n"@) {
            assert(s.skip(i).take(2)[0] == s[i]);
        }
    }
}

/// The default settings are settled.
pub proof fn law_default_settled()
    ensures
        settled(default_config()),
        interval_spec(default_config().cache_update_interval) == Ok::<int, IntervalError>(86_400),
{
    reveal_strlit(
        "欢迎新成员，请在 10 分钟内私聊完成验证。\nWelcome. Please complete verification by private message within 10 minutes.",
    );
    reveal_strlit(
        "请输入 rhc connect 或 subscription-manager register 命令。\nEnter an rhc connect or subscription-manager register command.",
    );
    lemma_no_backslash(default_config().welcome);
    lemma_no_backslash(default_config().prompt);
    reveal_strlit("24h");
    let count = "24h"@.drop_last();
    assert(count =~= seq!['2', '4']);
    assert(count.drop_last() =~= seq!['2']);
    assert(count.drop_last().drop_last().len() == 0);
    reveal_with_fuel(digits_value, 3);
    assert(digits_value(count) == 24);
}

/// An answer counts by its text without the white space around it alone.
pub proof fn law_answer_is_trimmed(
    config: ConfigView,
    field: Field,
    line: Seq<char>,
    other: Seq<char>,
)
    requires
        trim_spec(line) == trim_spec(other),
    ensures
        answer_spec(config, field, line) == answer_spec(config, field, other),
{
}

/// A text that is typed is kept without the white space around it: as it is where
/// no line feed is to be expanded, and else with it expanded.
pub proof fn law_typed_text_is_kept(config: ConfigView, line: Seq<char>)
    requires
        trim_spec(line).len() > 0,
    ensures
        answer_spec(config, Field::Token, line) == Ok::<ConfigView, ConfigError>(
            ConfigView { token: trim_spec(line), ..config },
        ),
        answer_spec(config, Field::Button, line) == Ok::<ConfigView, ConfigError>(
            ConfigView { button: trim_spec(line), ..config },
        ),
        answer_spec(config, Field::Image, line) == Ok::<ConfigView, ConfigError>(
            ConfigView { image: trim_spec(line), ..config },
        ),
        answer_spec(config, Field::Welcome, line) == Ok::<ConfigView, ConfigError>(
            ConfigView { welcome: replace_spec(trim_spec(line), "\\n"@, "\n"@), ..config },
        ),
        answer_spec(config, Field::Prompt, line) == Ok::<ConfigView, ConfigError>(
            ConfigView { prompt: replace_spec(trim_spec(line), "\\n"@, "\n"@), ..config },
        ),
{
}

/// A number that is typed, with or without white space around it, is kept if its
/// setting can hold it, and is refused if it cannot.
pub proof fn law_typed_number_is_kept(config: ConfigView, line: Seq<char>, n: nat)
    requires
        trim_spec(line) == decimal_nat(n),
    ensures
        n <= u32::MAX ==> answer_spec(config, Field::MaxVerifications, line) == Ok::<
            ConfigView,
            ConfigError,
        >(ConfigView { max_verifications: n as u32, ..config }),
        n > u32::MAX ==> answer_spec(config, Field::MaxVerifications, line) == Err::<
            ConfigView,
            ConfigError,
        >(ConfigError::InvalidInput(NumberError::PosOverflow)),
        n <= u64::MAX ==> answer_spec(config, Field::TimeoutSeconds, line) == Ok::<
            ConfigView,
            ConfigError,
        >(ConfigView { timeout_seconds: n as u64, ..config }) && answer_spec(
            config,
            Field::LogRetentionDays,
            line,
        ) == Ok::<ConfigView, ConfigError>(ConfigView { log_retention_days: n as u64, ..config }),
        n > u64::MAX ==> answer_spec(config, Field::TimeoutSeconds, line) == Err::<
            ConfigView,
            ConfigError,
        >(ConfigError::InvalidInput(NumberError::PosOverflow)) && answer_spec(
            config,
            Field::LogRetentionDays,
            line,
        ) == Err::<ConfigView, ConfigError>(ConfigError::InvalidInput(NumberError::PosOverflow)),
{
    law_decimal_is_read(n, u32::MAX as int);
    law_decimal_is_read(n, u64::MAX as int);
}

/// Of the ways to take the image that are typed, with or without white space
/// around them, `live` and `cache` are kept and all others are refused.
pub proof fn law_typed_mode_is_kept(config: ConfigView, line: Seq<char>)
    requires
        trim_spec(line).len() > 0,
    ensures
        trim_spec(line) == "live"@ || trim_spec(line) == "cache"@ ==> answer_spec(
            config,
            Field::ImageMode,
            line,
        ) == Ok::<ConfigView, ConfigError>(ConfigView { image_mode: trim_spec(line), ..config }),
        trim_spec(line) != "live"@ && trim_spec(line) != "cache"@ ==> answer_spec(
            config,
            Field::ImageMode,
            line,
        ) == Err::<ConfigView, ConfigError>(ConfigError::ImageMode),
{
}

/// A time span that is typed, with or without white space around it, is kept just
/// if it can be counted in seconds.
pub proof fn law_typed_span_is_kept(config: ConfigView, line: Seq<char>)
    requires
        trim_spec(line).len() > 0,
    ensures
        ({
            let answer = answer_spec(config, Field::CacheUpdateInterval, line);
            match interval_spec(trim_spec(line)) {
                Ok(seconds) => if seconds <= i64::MAX {
                    answer == Ok::<ConfigView, ConfigError>(
                        ConfigView { cache_update_interval: trim_spec(line), ..config },
                    )
                } else {
                    answer == Err::<ConfigView, ConfigError>(ConfigError::IntervalOverflow)
                },
                Err(e) => answer == Err::<ConfigView, ConfigError>(ConfigError::Interval(e)),
            }
        }),
{
}

/// A blank answer keeps every setting but the one it is for, and that one too,
/// unless line feeds are to be expanded in it, or it could not have been typed.
pub proof fn law_blank_answer_keeps(config: ConfigView, field: Field, line: Seq<char>)
    requires
        trim_spec(line).len() == 0,
    ensures
        match field {
            Field::Welcome => answer_spec(config, field, line) == Ok::<ConfigView, ConfigError>(
                ConfigView { welcome: replace_spec(config.welcome, "\\n"@, "\n"@), ..config },
            ),
            Field::Prompt => answer_spec(config, field, line) == Ok::<ConfigView, ConfigError>(
                ConfigView { prompt: replace_spec(config.prompt, "\\n"@, "\n"@), ..config },
            ),
            Field::ImageMode => answer_spec(config, field, line) == (if config.image_mode
                == "live"@ || config.image_mode == "cache"@ {
                Ok::<ConfigView, ConfigError>(config)
            } else {
                Err::<ConfigView, ConfigError>(ConfigError::ImageMode)
            }),
            Field::CacheUpdateInterval => interval_spec(config.cache_update_interval) is Ok
                && interval_spec(config.cache_update_interval)->Ok_0 <= i64::MAX ==> answer_spec(
                config,
                field,
                line,
            ) == Ok::<ConfigView, ConfigError>(config),
            _ => answer_spec(config, field, line) == Ok::<ConfigView, ConfigError>(config),
        },
{
}

/// The ten settings are asked for one after the other, each once.
pub proof fn law_questions_in_order()
    ensures
        next_field(Field::Token) == Some(Field::MaxVerifications),
        next_field(Field::MaxVerifications) == Some(Field::Welcome),
        next_field(Field::Welcome) == Some(Field::Button),
        next_field(Field::Button) == Some(Field::Prompt),
        next_field(Field::Prompt) == Some(Field::TimeoutSeconds),
        next_field(Field::TimeoutSeconds) == Some(Field::Image),
        next_field(Field::Image) == Some(Field::ImageMode),
        next_field(Field::ImageMode) == Some(Field::CacheUpdateInterval),
        next_field(Field::CacheUpdateInterval) == Some(Field::LogRetentionDays),
        next_field(Field::LogRetentionDays) is None,
{
}

/// The value that a question shows is the one that, typed again, keeps the
/// settings as they are, for settings that the dialog has left, without white
/// space around them.
pub proof fn law_shown_value_keeps(config: ConfigView, field: Field, line: Seq<char>)
    requires
        settled(config),
        line == value_spec(config, field),
        trim_spec(line) == line,
    ensures
        answer_spec(config, field, line) == Ok::<ConfigView, ConfigError>(config),
{
    reveal_strlit("\\n");
    law_replace_absent(config.welcome, "\\n"@, "\n"@);
    law_replace_absent(config.prompt, "\\n"@, "\n"@);
    law_decimal_is_read(config.max_verifications as nat, u32::MAX as int);
    law_decimal_is_read(config.timeout_seconds as nat, u64::MAX as int);
    law_decimal_is_read(config.log_retention_days as nat, u64::MAX as int);
}

} // verus!
