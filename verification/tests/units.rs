//! Small parts on their own: keys, errors, tables, completions.

use cordis_core::diagnostics::FiberStateSnapshot;
use cordis_core::effect::dispose::{CoordinatorAction, DisposePolicy};
use cordis_core::effect::disposal::{Disposal, DisposeStep};
use cordis_core::effect::{Cleanup, EffectTree};
use cordis_core::event::EventMode;
use cordis_core::injection::InjectionPhase;
use cordis_core::isolation::RuntimeToken;
use cordis_core::names::NameTable;
use cordis_core::registry::groups::UnmountTally;
use cordis_core::registry::lifecycle::{LifecycleOp, LifecycleStage};
use cordis_core::registry::scheduler::{RoundEnd, SettleStep};
use cordis_core::registry::Registry;
use cordis_core::table::Table;
use cordis_core::{
    format_panic_message, ConfigKey, CoreError, EventKey, FiberState, InjectionState, ListenOptions, LoggerConfig,
    ParallelKey, PluginKey, ProviderAvailability, SerialKey, ServiceKey, WaterfallKey,
};

#[test]
fn keys_keep_their_names_and_types() {
    let service: ServiceKey<u32> = ServiceKey::new("a@1");
    assert_eq!(service.id().as_str(), "a@1");
    assert_eq!(service.type_id(), std::any::TypeId::of::<u32>());
    let config: ConfigKey<String> = ConfigKey::new("b@1");
    assert_eq!(config.id().as_str(), "b@1");
    assert_eq!(config.type_id(), std::any::TypeId::of::<String>());
    let event: EventKey<u8> = EventKey::new("c@1");
    assert_eq!(event.id(), "c@1");
    assert_eq!(event.type_id(), std::any::TypeId::of::<u8>());
    let waterfall: WaterfallKey<u8> = WaterfallKey::new("d@1");
    assert_eq!(waterfall.id(), "d@1");
    let serial: SerialKey<u8, u16> = SerialKey::new("e@1");
    assert_eq!(serial.id(), "e@1");
    assert_eq!(serial.payload_type_id(), std::any::TypeId::of::<u8>());
    assert_eq!(serial.answer_type_id(), std::any::TypeId::of::<u16>());
    let parallel: ParallelKey<u8> = ParallelKey::new("f@1");
    assert_eq!(parallel.id(), "f@1");
    assert_eq!(PluginKey::new("g").as_str(), "g");
}

#[test]
fn options_add_up() {
    let options: ListenOptions<u8> = ListenOptions::new();
    assert!(!options.once && !options.prepend && !options.global && options.filter.is_none());
    let options: ListenOptions<u8> = ListenOptions::new().once().prepend().global().filter(9);
    assert!(options.once && options.prepend && options.global);
    assert_eq!(options.filter, Some(9));
    let plain: ListenOptions<u8> = ListenOptions::default();
    assert!(!plain.once);
    assert!(EventMode::Observe != EventMode::Serial);
}

#[test]
fn errors_read_as_documented() {
    let service = ServiceKey::<u8>::new("s@1").id();
    let config = ConfigKey::<u8>::new("c@1").id();
    let event = "e@1";
    let list = || vec!["a \"b\"".to_string(), "c".to_string()];
    let expected: Vec<(CoreError, &str)> = vec![
        (CoreError::ContextDisposed, "Context 已释放"),
        (CoreError::ServiceUnavailable { service }, "Service s@1 当前不可用"),
        (CoreError::ServiceConflict { service }, "Service s@1 已在当前 Context 注册"),
        (CoreError::ServiceTypeMismatch { service }, "Service s@1 的 Rust 类型不匹配"),
        (CoreError::ServiceKeyTypeConflict { service }, "Service s@1 已绑定其他 Rust 类型"),
        (CoreError::EventTypeMismatch { event }, "事件 e@1 的 Rust 类型不匹配"),
        (CoreError::EventKeyTypeConflict { event }, "事件 e@1 已绑定其他 Rust 类型"),
        (CoreError::EventModeMismatch { event }, "事件 e@1 已绑定其他分发模式"),
        (CoreError::EventAnswerTypeConflict { event }, "事件 e@1 的答案类型已绑定其他 Rust 类型"),
        (CoreError::EmptyInjection, "注入依赖不能为空"),
        (
            CoreError::SchedulerUnavailable,
            "运行时调度器不可用；请在 Tokio Runtime 中创建 Runtime",
        ),
        (CoreError::EventListener("x".to_string()), "事件监听器失败: x"),
        (
            CoreError::ParallelDispatchFailed { event, errors: list() },
            "并行事件 e@1 分发失败: [\"a \\\"b\\\"\", \"c\"]",
        ),
        (CoreError::PluginApply("x".to_string()), "插件挂载失败: x"),
        (CoreError::IsolationRuntimeMismatch, "IsolationLabel 不属于当前 Runtime"),
        (CoreError::FiberDisposed, "Fiber 已释放"),
        (CoreError::FiberBusy, "Fiber 正在执行生命周期操作"),
        (CoreError::ConfigUnavailable { config }, "Config c@1 当前不可用"),
        (CoreError::ConfigTypeMismatch { config }, "Config c@1 的 Rust 类型不匹配"),
        (CoreError::ConfigKeyTypeConflict { config }, "Config c@1 已绑定其他 Rust 类型"),
        (CoreError::PluginUnmounting { plugin: PluginKey::new("p") }, "插件 p 正在卸载"),
        (
            CoreError::PluginKeyMismatch {
                expected: PluginKey::new("p"),
                actual: PluginKey::new("q"),
            },
            "插件 Key 不匹配：期望 p，实际 q",
        ),
        (CoreError::DisposeFailed { errors: list() }, "释放失败: [\"a \\\"b\\\"\", \"c\"]"),
        (CoreError::ProviderDisposed { service }, "Service s@1 的 Provider 已释放"),
        (CoreError::ProviderCheck("x".to_string()), "Provider 检查失败: x"),
        (CoreError::CoordinatorAborted { reason: "x".to_string() }, "生命周期协调器已中止: x"),
        (CoreError::ShutdownReentrant, "shutdown 只能由宿主在生命周期回调之外调用"),
    ];
    for (error, text) in expected {
        assert_eq!(error.message(), text);
    }
}

#[test]
fn panics_are_reported_with_their_place() {
    assert_eq!(
        format_panic_message("dispose callback", Some("boom")),
        "dispose callback panicked: boom"
    );
    assert_eq!(format_panic_message("plugin apply", None), "plugin apply panicked: unknown panic");
}

#[test]
fn tables_keep_their_rows_sorted() {
    let mut table: Table<&str> = Table::new();
    for (key, value) in [(5, "five"), (1, "one"), (3, "three")] {
        table.insert(key, value);
    }
    table.insert(3, "three again");
    assert_eq!(table.len(), 3);
    let keys: Vec<u64> = (0..table.len()).map(|i| table.key_at(i)).collect();
    assert_eq!(keys, vec![1, 3, 5]);
    assert_eq!(table.get(3), Some(&"three again"));
    assert_eq!(table.get(2), None);
    assert!(table.contains(1));
    table.append(9, "nine");
    *table.get_mut(9).unwrap() = "last";
    *table.at_mut(1) = "first";
    assert_eq!(table.value_at(0), &"first");
    assert_eq!(table.remove(3), Some("three again"));
    assert_eq!(table.remove(3), None);
    assert_eq!(table.len(), 3);
    assert_eq!(table.value_at(2), &"last");
}

#[test]
fn names_are_compared_by_their_text() {
    let mut names: NameTable<u8> = NameTable::new();
    names.bind("one", 1);
    names.bind("two", 2);
    assert_eq!(names.get(&String::from("two")), Some(2));
    assert_eq!(names.get("three"), None);
    let copy = names.clone();
    names.bind("two", 3);
    assert_eq!(copy.get("two"), Some(2));
    assert_eq!(names.get("two"), Some(3));
}

#[test]
fn labels_belong_to_their_runtime() {
    let mut token = RuntimeToken::new(1);
    let other = RuntimeToken::new(2);
    let label = token.allocate_label();
    assert_eq!(label.id(), 1);
    assert_eq!(token.allocate_label().id(), 2);
    label.ensure_runtime(&token).unwrap();
    assert!(matches!(
        label.ensure_runtime(&other),
        Err(CoreError::IsolationRuntimeMismatch)
    ));
}

#[test]
fn states_are_shown_one_for_one() {
    for (state, shown) in [
        (FiberState::Pending, FiberStateSnapshot::Pending),
        (FiberState::Loading, FiberStateSnapshot::Loading),
        (FiberState::Active, FiberStateSnapshot::Active),
        (FiberState::Failed, FiberStateSnapshot::Failed),
        (FiberState::Unloading, FiberStateSnapshot::Unloading),
        (FiberState::Disposed, FiberStateSnapshot::Disposed),
    ] {
        assert_eq!(FiberStateSnapshot::from_state(state), shown);
    }
    for (phase, shown, state) in [
        (InjectionPhase::Pending, FiberStateSnapshot::Pending, InjectionState::Pending),
        (InjectionPhase::Active, FiberStateSnapshot::Active, InjectionState::Active),
        (InjectionPhase::Failed, FiberStateSnapshot::Failed, InjectionState::Failed),
        (InjectionPhase::Disposed, FiberStateSnapshot::Disposed, InjectionState::Disposed),
    ] {
        assert_eq!(FiberStateSnapshot::from_phase(phase), shown);
        assert_eq!(InjectionState::from_phase(phase), state);
    }
}

#[test]
fn operations_go_through_their_stages() {
    let initial = LifecycleOp::Activate { initial_mount: true };
    assert!(matches!(
        initial.first_stage(),
        LifecycleStage::Activate { initial_mount: true }
    ));
    assert!(matches!(initial.next_stage(initial.first_stage(), true), LifecycleStage::Done));
    let restart = LifecycleOp::Restart;
    assert!(matches!(restart.first_stage(), LifecycleStage::Unload));
    assert!(matches!(
        restart.next_stage(LifecycleStage::Unload, true),
        LifecycleStage::Activate { initial_mount: false }
    ));
    assert!(matches!(
        restart.next_stage(LifecycleStage::Unload, false),
        LifecycleStage::Done
    ));
    let replace = LifecycleOp::Replace;
    assert!(matches!(
        replace.next_stage(LifecycleStage::Unload, true),
        LifecycleStage::Install
    ));
    assert!(matches!(
        replace.next_stage(LifecycleStage::Install, true),
        LifecycleStage::Activate { initial_mount: false }
    ));
    assert!(matches!(
        replace.next_stage(LifecycleStage::Install, false),
        LifecycleStage::Done
    ));
    let unload = LifecycleOp::Unload;
    assert!(matches!(unload.next_stage(unload.first_stage(), true), LifecycleStage::Done));
}

#[test]
fn an_unmount_counts_fibers_and_gathers_errors() {
    let mut tally = UnmountTally::new(3);
    tally.released(Ok(()));
    assert_eq!(tally.finish().unwrap(), 3);
    let mut tally = UnmountTally::new(3);
    let errors = vec!["a".to_string(), "b".to_string()];
    tally.released(Err(CoreError::DisposeFailed { errors }));
    tally.released(Ok(()));
    tally.released(Err(CoreError::FiberDisposed));
    match tally.finish() {
        Err(CoreError::DisposeFailed { errors }) => {
            assert_eq!(errors, vec!["a", "b", "Fiber 已释放"]);
        }
        other => panic!("unexpected: {other:?}"),
    }
}

#[test]
fn the_scheduler_starts_once_and_stops() {
    let mut registry = Registry::new(1);
    assert!(matches!(
        registry.start_scheduler(false),
        Err(CoreError::SchedulerUnavailable)
    ));
    assert!(registry.start_scheduler(true).unwrap());
    assert!(!registry.start_scheduler(true).unwrap());
    assert!(!registry.wants_wake());
    registry.mark_dirty();
    assert!(registry.wants_wake());
    registry.request_stop_scheduler();
    assert!(registry.scheduler_stopped());
    assert!(!registry.wants_wake());
    assert!(matches!(
        registry.start_scheduler(true),
        Err(CoreError::SchedulerUnavailable)
    ));
}

#[test]
fn a_round_goes_on_while_something_changes() {
    let mut registry = Registry::new(1);
    let scopes = EffectTree::new();
    registry.start_scheduler(true).unwrap();
    assert!(matches!(registry.settle_step(false), SettleStep::Return));
    registry.mark_dirty();
    assert!(matches!(registry.settle_step(true), SettleStep::Return));
    assert!(matches!(registry.settle_step(false), SettleStep::Wait));
    assert!(registry.begin_recompute());
    assert!(!registry.begin_recompute());
    let batch = registry.take_batch(&scopes);
    assert!(batch.is_empty());
    registry.mark_dirty();
    assert!(matches!(registry.close_round(batch.epoch), RoundEnd::Continue));
    let batch = registry.take_batch(&scopes);
    assert!(matches!(registry.close_round(batch.epoch), RoundEnd::Quiescent));
    assert!(matches!(registry.settle_step(false), SettleStep::Return));
    registry.request_stop_scheduler();
    registry.mark_dirty();
    assert!(matches!(registry.settle_step(false), SettleStep::Recompute));
}

#[test]
fn a_lost_child_is_reported() {
    let mut tree = EffectTree::new();
    let root = tree.root();
    let child = tree.child_named(root, "child".to_string());
    assert_eq!(tree.parent_id(child), Some(root));
    assert!(tree.on_dispose_async(child, 1).is_ok());
    let mut disposal = Disposal::start(&mut tree, root, DisposePolicy::AwaitLocal);
    let mut coordinators = Vec::new();
    loop {
        match disposal.step(&mut tree) {
            DisposeStep::Coordinate(coordinator) => coordinators.push(coordinator),
            DisposeStep::Done => break,
            _ => {}
        }
    }
    assert_eq!(coordinators.len(), 2);
    assert_eq!(coordinators[0].scope(), child);
    let mut parent = coordinators.pop().unwrap();
    assert_eq!(parent.scope(), root);
    assert!(matches!(parent.next(), CoordinatorAction::AwaitChild(id) if id == child));
    parent.child_join_failed("cancelled");
    match parent.next() {
        CoordinatorAction::Finish(errors) => {
            assert_eq!(errors, vec!["child dispose wait join failed: cancelled"]);
            assert!(tree.finish(root, errors));
        }
        _ => unreachable!(),
    }
    assert!(!tree.finish(root, vec![]));
    assert!(matches!(tree.outcome(root), Some(Err(CoreError::DisposeFailed { .. }))));
    assert!(tree.is_releasing(child));
    assert!(!tree.on_dispose(child, Cleanup::Callback(1)));
}

#[test]
fn availability_tells_whether_a_provider_serves() {
    assert!(ProviderAvailability::Ready.is_ready());
    assert!(!ProviderAvailability::Unavailable { reason: String::new() }.is_ready());
}

#[test]
fn logger_configuration_is_empty_by_default() {
    let config = LoggerConfig::default();
    assert!(config.name.is_none());
    assert!(config.level.is_none());
}
