//! Records and messages: what they say is what was put in.

use crate::config::ConfigId;
use crate::diagnostics::FiberStateChange;
use crate::effect::dispose::DisposeFrame;
use crate::effect::Scope;
use crate::error::CoreError;
use crate::event::{EventContract, EventKey, ParallelKey, SerialKey, WaterfallKey};
use crate::fiber::{FiberModel, FiberRecord};
use crate::injection::{InjectionModel, InjectionPhase, InjectionRecord, InjectionState};
use crate::laws::snapshots;
use crate::plugin::PluginKey;
use crate::logger::LogLevel;
use crate::provider::ProviderRecord;
use crate::registry::{EffectModel, EffectRecord, PluginGroup, RegistryModel};
use crate::runtime::{Runtime, RuntimeModel};
use crate::service::ServiceId;
use crate::text;
use std::any::TypeId;
use vstd::prelude::*;

verus! {

/// The model of a fiber tells all that its record holds.
pub proof fn law_fiber_model_is_faithful(record: FiberRecord)
    ensures
        record@.plugin_key == record.plugin_key,
        record@.layers == record.layers@,
        record@.parent_scope == record.parent_scope,
        record@.plugin == record.plugin,
        record@.dependencies == record.dependencies@,
        record@.ownership == record.ownership,
        record@.state == record.state,
        record@.resolved == record.resolved@,
        record@.disposed == record.disposed,
        record@.busy == record.busy,
        record@.lifecycle == record.lifecycle,
        record@.registered == record.registered,
        record@.handoff == record.handoff,
        snapshots::same_note(record.last_error, record@.last_error),
        record.dispose_result is Some <==> record@.dispose_result is Some,
        record.dispose_result matches Some(errors) ==> record@.dispose_result->0.len()
            == errors@.len() && forall|i: int|
            0 <= i < errors@.len() ==> #[trigger] record@.dispose_result->0[i] == errors@[i]@,
{
}

/// The model of an injection tells all that its record holds.
pub proof fn law_injection_model_is_faithful(record: InjectionRecord)
    ensures
        record@.layers == record.layers@,
        record@.parent_scope == record.parent_scope,
        record@.dependencies == record.dependencies@,
        record@.callback == record.callback,
        record@.child_scope == record.child_scope,
        record@.phase == record.phase,
        record@.resolved == record.resolved@,
        snapshots::same_note(record.last_error, record@.last_error),
{
}

/// The model of a scope tells all that the scope holds.
pub proof fn law_scope_model_is_faithful(scope: Scope)
    ensures
        scope@.name == scope.name@,
        scope@.parent == scope.parent,
        scope@.ancestors == scope.ancestors@,
        scope@.disposed == scope.disposed,
        scope@.children == scope.children@,
        scope@.cleanups == scope.cleanups@,
        scope@.disposers == scope.disposers@,
        scope@.work == scope.work@,
        scope.completion is None <==> scope@.completion is None,
        scope.completion matches Some(completion) ==> scope@.completion == Some(completion@),
{
}

/// The model of a frame tells all that the frame holds.
pub proof fn law_frame_model_is_faithful(frame: DisposeFrame)
    ensures
        frame@.scope == frame.scope,
        frame@.policy == frame.policy,
        frame@.children == frame.children@,
        frame@.cleanups == frame.cleanups@,
        frame@.disposers == frame.disposers@,
        frame@.work == frame.work@,
        frame@.errors == frame.errors@,
{
}

/// The models of an effect, a group and an announcement tell all that these hold.
pub proof fn law_small_models_are_faithful(
    effect: EffectRecord,
    group: PluginGroup,
    change: FiberStateChange,
)
    ensures
        effect@.name == effect.name@,
        effect@.parent == effect.parent,
        effect@.depth == effect.depth,
        effect@.fiber_id == effect.fiber_id,
        group@.key == group.key,
        group@.fibers == group.fibers@,
        group@.unmounting == group.unmounting,
        group@.completion == group.completion,
        change@.fiber_id == change.fiber_id,
        change@.plugin_key == change.plugin_key,
        change@.previous == change.previous,
        change@.current == change.current,
        change@.unavailable.len() == change.unavailable_dependencies@.len(),
        forall|i: int|
            0 <= i < change@.unavailable.len() ==> (#[trigger] change@.unavailable[i]).service
                == change.unavailable_dependencies@[i].service@ && change@.unavailable[i].reason
                == change.unavailable_dependencies@[i].reason@,
{
}

/// The model of a runtime tells all that the runtime holds.
pub proof fn law_runtime_model_is_faithful(runtime: Runtime)
    ensures
        runtime@.registry == runtime.registry@,
        runtime@.scopes == runtime.scopes@,
        runtime@.next_scope == runtime.scopes.next_id(),
        runtime@.logger == runtime.logger@,
        runtime@.root_layers == runtime.root_layers@,
        runtime@.root_scope == runtime.root_scope,
        runtime.closing is None <==> runtime@.closing is None,
        runtime.closing matches Some(completion) ==> runtime@.closing == Some(completion@),
{
}

/// The state of an injection that a user sees is its phase.
pub proof fn law_injection_state_is_its_phase(phase: InjectionPhase)
    ensures
        phase is Pending <==> InjectionState::of_phase(phase) is Pending,
        phase is Active <==> InjectionState::of_phase(phase) is Active,
        phase is Failed <==> InjectionState::of_phase(phase) is Failed,
        phase is Disposed <==> InjectionState::of_phase(phase) is Disposed,
{
}

/// The texts of a list of strings are theirs, one for one.
pub proof fn law_texts_are_those_of_the_strings(items: Seq<String>)
    ensures
        text::texts(items).len() == items.len(),
        forall|i: int| 0 <= i < items.len() ==> #[trigger] text::texts(items)[i] == items[i]@,
{
}

/// Names are ordered by the first character in which they differ; a name stands before those
/// that it begins.
pub proof fn law_names_are_ordered_by_characters(a: Seq<char>, b: Seq<char>)
    ensures
        text::text_before(a, b) <==> exists|i: int| first_difference(a, b, i),
    decreases a.len(),
{
    if a.len() > 0 && b.len() > 0 && a[0] == b[0] {
        let x = a.drop_first();
        let y = b.drop_first();
        law_names_are_ordered_by_characters(x, y);
        if exists|i: int| first_difference(x, y, i) {
            let i = choose|i: int| first_difference(x, y, i);
            assert forall|j: int| 0 <= j < i + 1 implies #[trigger] a[j] == b[j] by {
                if j > 0 {
                    assert(x[j - 1] == y[j - 1]);
                }
            }
            assert(first_difference(a, b, i + 1));
        }
        if exists|i: int| first_difference(a, b, i) {
            let i = choose|i: int| first_difference(a, b, i);
            assert(i > 0);
            assert forall|j: int| 0 <= j < i - 1 implies #[trigger] x[j] == y[j] by {
                assert(a[j + 1] == b[j + 1]);
            }
            assert(first_difference(x, y, i - 1));
        }
    } else if b.len() > 0 {
        if text::text_before(a, b) {
            assert(first_difference(a, b, 0));
        }
        if exists|i: int| first_difference(a, b, i) {
            let i = choose|i: int| first_difference(a, b, i);
            if i > 0 {
                assert(a[0] == b[0]);
            }
        }
    }
}

/// Up to here both texts are the same, and here the first ends or has the smaller character.
pub open spec fn first_difference(a: Seq<char>, b: Seq<char>, i: int) -> bool {
    &&& 0 <= i < b.len()
    &&& i <= a.len()
    &&& forall|j: int| 0 <= j < i ==> #[trigger] a[j] == b[j]
    &&& i == a.len() || (a[i] as int) < (b[i] as int)
}

/// The message of an error about something names it in full, whatever it is called, between
/// words that depend on the error alone.
pub proof fn law_messages_name_their_subject(
    service: ServiceId,
    event: &'static str,
    config: ConfigId,
    plugin: PluginKey,
    other: PluginKey,
    errors: Vec<String>,
)
    ensures
        (CoreError::ServiceUnavailable { service }).message_text() == "Service "@ + service@
            + " 当前不可用"@,
        (CoreError::ServiceConflict { service }).message_text() == "Service "@ + service@
            + " 已在当前 Context 注册"@,
        (CoreError::ServiceTypeMismatch { service }).message_text() == "Service "@ + service@
            + " 的 Rust 类型不匹配"@,
        (CoreError::ServiceKeyTypeConflict { service }).message_text() == "Service "@ + service@
            + " 已绑定其他 Rust 类型"@,
        (CoreError::ProviderDisposed { service }).message_text() == "Service "@ + service@
            + " 的 Provider 已释放"@,
        (CoreError::EventTypeMismatch { event }).message_text() == "事件 "@ + event@
            + " 的 Rust 类型不匹配"@,
        (CoreError::EventKeyTypeConflict { event }).message_text() == "事件 "@ + event@
            + " 已绑定其他 Rust 类型"@,
        (CoreError::EventModeMismatch { event }).message_text() == "事件 "@ + event@
            + " 已绑定其他分发模式"@,
        (CoreError::EventAnswerTypeConflict { event }).message_text() == "事件 "@ + event@
            + " 的答案类型已绑定其他 Rust 类型"@,
        (CoreError::ConfigUnavailable { config }).message_text() == "Config "@ + config@
            + " 当前不可用"@,
        (CoreError::ConfigTypeMismatch { config }).message_text() == "Config "@ + config@
            + " 的 Rust 类型不匹配"@,
        (CoreError::ConfigKeyTypeConflict { config }).message_text() == "Config "@ + config@
            + " 已绑定其他 Rust 类型"@,
        (CoreError::PluginUnmounting { plugin }).message_text() == "插件 "@ + plugin@
            + " 正在卸载"@,
        (CoreError::PluginKeyMismatch { expected: plugin, actual: other }).message_text()
            == "插件 Key 不匹配：期望 "@ + plugin@ + "，实际 "@ + other@,
        (CoreError::ParallelDispatchFailed { event, errors }).message_text() == "并行事件 "@
            + event@ + " 分发失败: "@ + text::debug_text(text::texts(errors@)),
{
}

/// The message of an error that passes a message on ends with that message, in full.
pub proof fn law_messages_pass_the_cause_on(message: String, errors: Vec<String>)
    ensures
        CoreError::EventListener(message).message_text() == "事件监听器失败: "@ + message@,
        CoreError::PluginApply(message).message_text() == "插件挂载失败: "@ + message@,
        CoreError::ProviderCheck(message).message_text() == "Provider 检查失败: "@ + message@,
        (CoreError::CoordinatorAborted { reason: message }).message_text()
            == "生命周期协调器已中止: "@ + message@,
        (CoreError::DisposeFailed { errors }).message_text() == "释放失败: "@ + text::debug_text(
            text::texts(errors@),
        ),
{
    reveal_strlit("");
    let told = message@;
    assert("事件监听器失败: "@ + told + ""@ =~= "事件监听器失败: "@ + told);
    assert("插件挂载失败: "@ + told + ""@ =~= "插件挂载失败: "@ + told);
    assert("Provider 检查失败: "@ + told + ""@ =~= "Provider 检查失败: "@ + told);
    assert("生命周期协调器已中止: "@ + told + ""@ =~= "生命周期协调器已中止: "@ + told);
    let listed = text::debug_text(text::texts(errors@));
    assert("释放失败: "@ + listed + ""@ =~= "释放失败: "@ + listed);
}

/// The keys of the four sorts of events bind a name to their own mode and their own types; only
/// serial events are answered.
pub proof fn law_keys_bind_their_mode<T: Send + Sync + 'static, R: Send + Sync + 'static>(
    observed: EventKey<T>,
    waterfall: WaterfallKey<T>,
    parallel: ParallelKey<T>,
    serial: SerialKey<T, R>,
)
    ensures
        observed.contract_spec().mode is Observe,
        observed.contract_spec().payload == observed.tag_spec(),
        observed.contract_spec().answer is None,
        waterfall.contract_spec().mode is Waterfall,
        waterfall.contract_spec().payload == waterfall.tag_spec(),
        waterfall.contract_spec().answer is None,
        parallel.contract_spec().mode is Parallel,
        parallel.contract_spec().payload == parallel.tag_spec(),
        parallel.contract_spec().answer is None,
        serial.contract_spec().mode is Serial,
        serial.contract_spec().payload == serial.payload_spec(),
        serial.contract_spec().answer == Some(serial.answer_spec()),
{
}

/// A new runtime holds nothing but its root: one live scope without a parent and one layer. Its
/// scheduler runs and has nothing to do.
pub proof fn law_new_runtime_is_empty(identity: u64)
    ensures
        ({
            let made = RuntimeModel::initial(identity);
            &&& made.registry.identity == identity
            &&& made.logger.identity == identity
            &&& made.registry.providers == Map::<u64, ProviderRecord>::empty()
            &&& made.registry.injections == Map::<u64, InjectionModel>::empty()
            &&& made.registry.fibers == Map::<u64, FiberModel>::empty()
            &&& made.registry.effects == Map::<u64, EffectModel>::empty()
            &&& made.registry.listeners.len() == 0
            &&& made.registry.groups.len() == 0
            &&& made.registry.isolations.len() == 0
            &&& made.registry.outbox.len() == 0
            &&& made.registry.service_types == Map::<Seq<char>, TypeId>::empty()
            &&& made.registry.config_types == Map::<Seq<char>, TypeId>::empty()
            &&& made.registry.contracts == Map::<Seq<char>, EventContract>::empty()
            &&& made.registry.claimed == Set::<u64>::empty()
            &&& made.registry.started && !made.registry.stopped
            &&& !made.registry.dirty && !made.registry.recomputing
            &&& made.logger.buffer.len() == 0
            &&& made.logger.exporters.len() == 0
            &&& made.closing is None
            &&& made.root_layers.len() == 1
            &&& made.root_layers[0].domain == made.root_layers[0].id
            &&& made.root_layers[0].isolation is None
            &&& made.root_layers[0].config is None
            &&& made.root_layers[0].id < made.registry.next_id
            &&& made.scopes.dom() == Set::<u64>::empty().insert(made.root_scope)
            &&& made.root_scope < made.next_scope
            &&& !made.scopes[made.root_scope].disposed
            &&& made.scopes[made.root_scope].parent is None
            &&& made.scopes[made.root_scope].children.len() == 0
            &&& made.scopes[made.root_scope].cleanups.len() == 0
        }),
{
    let made = RuntimeModel::initial(identity);
    assert(made.scopes.dom() =~= Set::<u64>::empty().insert(made.root_scope));
}

/// To tell the scheduler is to leave a mark and to count it; nothing else changes.
pub proof fn law_mark_tells_the_scheduler(registry: RegistryModel)
    ensures
        registry.marked().dirty,
        registry.marked().epoch == registry.epoch.wrapping_add(1),
        registry.marked().epoch != registry.epoch,
        registry.marked() == (RegistryModel {
            dirty: true,
            epoch: registry.marked().epoch,
            ..registry
        }),
{
}

/// The levels of the log have four different labels.
pub proof fn law_level_labels()
    ensures
        LogLevel::Debug.label() == "debug"@,
        LogLevel::Info.label() == "info"@,
        LogLevel::Warn.label() == "warn"@,
        LogLevel::Error.label() == "error"@,
{
}

/// There is room as long as identifiers of every sort are left.
pub proof fn law_room_is_what_is_left(runtime: RuntimeModel)
    ensures
        runtime.has_room() <==> runtime.registry.next_id < u64::MAX && runtime.registry.next_label
            < u64::MAX && runtime.next_scope < u64::MAX && runtime.logger.next_exporter
            < u64::MAX,
{
}

} // verus!
