//! The service that runs the bot.

use vstd::prelude::*;

verus! {

/// The name of the service.
pub const SERVICE_NAME: &'static str = "rhc-bot.service";

/// What can be done to the service.
#[derive(Debug, Clone, Copy, PartialEq, Eq, Structural)]
pub enum ServiceAction {
    Start,
    Stop,
    Restart,
    Enable,
    Disable,
}

/// The word for an action.
pub open spec fn verb_spec(action: ServiceAction) -> Seq<char> {
    match action {
        ServiceAction::Start => "start"@,
        ServiceAction::Stop => "stop"@,
        ServiceAction::Restart => "restart"@,
        ServiceAction::Enable => "enable"@,
        ServiceAction::Disable => "disable"@,
    }
}

impl ServiceAction {
    /// The word for the action.
    pub fn verb(self) -> (r: &'static str)
        ensures
            r@ == verb_spec(self),
    {
        match self {
            ServiceAction::Start => "start",
            ServiceAction::Stop => "stop",
            ServiceAction::Restart => "restart",
            ServiceAction::Enable => "enable",
            ServiceAction::Disable => "disable",
        }
    }

    /// The arguments with which `systemctl` performs the action.
    pub fn arguments(self) -> (r: Vec<String>)
        ensures
            r@.len() == 2,
            r@[0]@ == verb_spec(self),
            r@[1]@ == SERVICE_NAME@,
    {
        let mut out: Vec<String> = Vec::new();
        out.push(self.verb().to_owned());
        out.push(SERVICE_NAME.to_owned());
        out
    }

    /// What is said when `systemctl` cannot be run.
    pub fn launch_failure(self) -> (r: String)
        ensures
            r@ == "无法运行 systemctl "@ + verb_spec(self),
    {
        let mut out = "无法运行 systemctl ".to_owned();
        out.append(self.verb());
        out
    }

    /// What is said when `systemctl` reports a failure.
    pub fn failure(self) -> (r: String)
        ensures
            r@ == "systemctl "@ + verb_spec(self) + " "@ + SERVICE_NAME@
                + " 执行失败，请确认当前用户有管理服务的权限"@,
    {
        let mut out = "systemctl ".to_owned();
        out.append(self.verb());
        out.append(" ");
        out.append(SERVICE_NAME);
        out.append(" 执行失败，请确认当前用户有管理服务的权限");
        out
    }

    /// What the menu says when the action has been performed.
    pub fn done(self) -> (r: String)
        ensures
            r@ == (match self {
                ServiceAction::Start => "服务已启动"@,
                ServiceAction::Stop => "服务已停止"@,
                ServiceAction::Restart => "服务已重启"@,
                ServiceAction::Enable => "已设置开机自启"@,
                ServiceAction::Disable => "已关闭开机自启"@,
            }),
    {
        match self {
            ServiceAction::Start => "服务已启动".to_owned(),
            ServiceAction::Stop => "服务已停止".to_owned(),
            ServiceAction::Restart => "服务已重启".to_owned(),
            ServiceAction::Enable => "已设置开机自启".to_owned(),
            ServiceAction::Disable => "已关闭开机自启".to_owned(),
        }
    }
}

} // verus!
