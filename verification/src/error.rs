//! [`CoreError`]: every failure that the runtime reports, with its message.

use crate::config::ConfigId;
use crate::plugin::PluginKey;
use crate::service::ServiceId;
use crate::text;
use crate::text::{debug_list, sandwich};
use vstd::prelude::*;
use vstd::string::*;

verus! {

#[derive(Debug, Clone)]
pub enum CoreError {
    ContextDisposed,
    ServiceUnavailable { service: ServiceId },
    ServiceConflict { service: ServiceId },
    ServiceTypeMismatch { service: ServiceId },
    ServiceKeyTypeConflict { service: ServiceId },
    EventTypeMismatch { event: &'static str },
    EventKeyTypeConflict { event: &'static str },
    EventModeMismatch { event: &'static str },
    EventAnswerTypeConflict { event: &'static str },
    EmptyInjection,
    SchedulerUnavailable,
    EventListener(String),
    ParallelDispatchFailed { event: &'static str, errors: Vec<String> },
    PluginApply(String),
    IsolationRuntimeMismatch,
    FiberDisposed,
    FiberBusy,
    ConfigUnavailable { config: ConfigId },
    ConfigTypeMismatch { config: ConfigId },
    ConfigKeyTypeConflict { config: ConfigId },
    PluginUnmounting { plugin: PluginKey },
    PluginKeyMismatch { expected: PluginKey, actual: PluginKey },
    DisposeFailed { errors: Vec<String> },
    ProviderDisposed { service: ServiceId },
    ProviderCheck(String),
    CoordinatorAborted { reason: String },
    ShutdownReentrant,
}

impl CoreError {
    /// The text shown to a user.
    pub open spec fn message_text(self) -> Seq<char> {
        match self {
            CoreError::ContextDisposed => "Context 已释放"@,
            CoreError::ServiceUnavailable { service } => "Service "@ + service@ + " 当前不可用"@,
            CoreError::ServiceConflict { service } => "Service "@ + service@
                + " 已在当前 Context 注册"@,
            CoreError::ServiceTypeMismatch { service } => "Service "@ + service@
                + " 的 Rust 类型不匹配"@,
            CoreError::ServiceKeyTypeConflict { service } => "Service "@ + service@
                + " 已绑定其他 Rust 类型"@,
            CoreError::EventTypeMismatch { event } => "事件 "@ + event@ + " 的 Rust 类型不匹配"@,
            CoreError::EventKeyTypeConflict { event } => "事件 "@ + event@
                + " 已绑定其他 Rust 类型"@,
            CoreError::EventModeMismatch { event } => "事件 "@ + event@
                + " 已绑定其他分发模式"@,
            CoreError::EventAnswerTypeConflict { event } => "事件 "@ + event@
                + " 的答案类型已绑定其他 Rust 类型"@,
            CoreError::EmptyInjection => "注入依赖不能为空"@,
            CoreError::SchedulerUnavailable =>
                "运行时调度器不可用；请在 Tokio Runtime 中创建 Runtime"@,
            CoreError::EventListener(message) => "事件监听器失败: "@ + message@ + ""@,
            CoreError::ParallelDispatchFailed { event, errors } => "并行事件 "@ + event@
                + " 分发失败: "@ + text::debug_text(text::texts(errors@)),
            CoreError::PluginApply(message) => "插件挂载失败: "@ + message@ + ""@,
            CoreError::IsolationRuntimeMismatch => "IsolationLabel 不属于当前 Runtime"@,
            CoreError::FiberDisposed => "Fiber 已释放"@,
            CoreError::FiberBusy => "Fiber 正在执行生命周期操作"@,
            CoreError::ConfigUnavailable { config } => "Config "@ + config@ + " 当前不可用"@,
            CoreError::ConfigTypeMismatch { config } => "Config "@ + config@
                + " 的 Rust 类型不匹配"@,
            CoreError::ConfigKeyTypeConflict { config } => "Config "@ + config@
                + " 已绑定其他 Rust 类型"@,
            CoreError::PluginUnmounting { plugin } => "插件 "@ + plugin@ + " 正在卸载"@,
            CoreError::PluginKeyMismatch { expected, actual } => "插件 Key 不匹配：期望 "@
                + expected@ + "，实际 "@ + actual@,
            CoreError::DisposeFailed { errors } => "释放失败: "@ + text::debug_text(text::texts(errors@))
                + ""@,
            CoreError::ProviderDisposed { service } => "Service "@ + service@
                + " 的 Provider 已释放"@,
            CoreError::ProviderCheck(message) => "Provider 检查失败: "@ + message@ + ""@,
            CoreError::CoordinatorAborted { reason } => "生命周期协调器已中止: "@ + reason@ + ""@,
            CoreError::ShutdownReentrant => "shutdown 只能由宿主在生命周期回调之外调用"@,
        }
    }

    /// The text shown to a user.
    pub fn message(&self) -> (r: String)
        ensures
            r@ == self.message_text(),
    {
        match self {
            CoreError::ContextDisposed => "Context 已释放".to_owned(),
            CoreError::ServiceUnavailable { service } => sandwich(
                "Service ",
                service.as_str(),
                " 当前不可用",
            ),
            CoreError::ServiceConflict { service } => sandwich(
                "Service ",
                service.as_str(),
                " 已在当前 Context 注册",
            ),
            CoreError::ServiceTypeMismatch { service } => sandwich(
                "Service ",
                service.as_str(),
                " 的 Rust 类型不匹配",
            ),
            CoreError::ServiceKeyTypeConflict { service } => sandwich(
                "Service ",
                service.as_str(),
                " 已绑定其他 Rust 类型",
            ),
            CoreError::EventTypeMismatch { event } => sandwich(
                "事件 ",
                event,
                " 的 Rust 类型不匹配",
            ),
            CoreError::EventKeyTypeConflict { event } => sandwich(
                "事件 ",
                event,
                " 已绑定其他 Rust 类型",
            ),
            CoreError::EventModeMismatch { event } => sandwich(
                "事件 ",
                event,
                " 已绑定其他分发模式",
            ),
            CoreError::EventAnswerTypeConflict { event } => sandwich(
                "事件 ",
                event,
                " 的答案类型已绑定其他 Rust 类型",
            ),
            CoreError::EmptyInjection => "注入依赖不能为空".to_owned(),
            CoreError::SchedulerUnavailable =>
                "运行时调度器不可用；请在 Tokio Runtime 中创建 Runtime".to_owned(),
            CoreError::EventListener(message) => sandwich(
                "事件监听器失败: ",
                message.as_str(),
                "",
            ),
            CoreError::ParallelDispatchFailed { event, errors } => {
                let mut out = sandwich("并行事件 ", event, " 分发失败: ");
                out.append(debug_list(errors).as_str());
                out
            },
            CoreError::PluginApply(message) => sandwich(
                "插件挂载失败: ",
                message.as_str(),
                "",
            ),
            CoreError::IsolationRuntimeMismatch => "IsolationLabel 不属于当前 Runtime".to_owned(),
            CoreError::FiberDisposed => "Fiber 已释放".to_owned(),
            CoreError::FiberBusy => "Fiber 正在执行生命周期操作".to_owned(),
            CoreError::ConfigUnavailable { config } => sandwich(
                "Config ",
                config.as_str(),
                " 当前不可用",
            ),
            CoreError::ConfigTypeMismatch { config } => sandwich(
                "Config ",
                config.as_str(),
                " 的 Rust 类型不匹配",
            ),
            CoreError::ConfigKeyTypeConflict { config } => sandwich(
                "Config ",
                config.as_str(),
                " 已绑定其他 Rust 类型",
            ),
            CoreError::PluginUnmounting { plugin } => sandwich(
                "插件 ",
                plugin.as_str(),
                " 正在卸载",
            ),
            CoreError::PluginKeyMismatch { expected, actual } => {
                let mut out = sandwich(
                    "插件 Key 不匹配：期望 ",
                    expected.as_str(),
                    "，实际 ",
                );
                out.append(actual.as_str());
                out
            },
            CoreError::DisposeFailed { errors } => sandwich(
                "释放失败: ",
                debug_list(errors).as_str(),
                "",
            ),
            CoreError::ProviderDisposed { service } => sandwich(
                "Service ",
                service.as_str(),
                " 的 Provider 已释放",
            ),
            CoreError::ProviderCheck(message) => sandwich(
                "Provider 检查失败: ",
                message.as_str(),
                "",
            ),
            CoreError::CoordinatorAborted { reason } => sandwich(
                "生命周期协调器已中止: ",
                reason.as_str(),
                "",
            ),
            CoreError::ShutdownReentrant =>
                "shutdown 只能由宿主在生命周期回调之外调用".to_owned(),
        }
    }
}

/// The message of a panic in a callback; `cause` is what the panic said, if that is text.
pub fn format_panic_message(place: &str, cause: Option<&str>) -> (r: String)
    ensures
        r@ == place@ + " panicked: "@ + (match cause {
            Some(text) => text@,
            None => "unknown panic"@,
        }),
{
    match cause {
        Some(text) => sandwich(place, " panicked: ", text),
        None => sandwich(place, " panicked: ", "unknown panic"),
    }
}

} // verus!
