//! The log of a runtime.

use cordis_core::effect::disposal::{Disposal, DisposeStep};
use cordis_core::effect::dispose::CoordinatorAction;
use cordis_core::runtime::CleanupTask;
use cordis_core::{
    logger_config_key, ConfigKey, CoreError, LogExporter, LogLevel, LogRecord, LoggerConfig,
    LoggerService, PluginKey, Runtime, ServiceKey, LOG_BUFFER_CAPACITY,
};
use std::sync::{Arc, Mutex};
use std::time::{Duration, SystemTime};

struct CaptureExporter {
    records: Arc<Mutex<Vec<LogRecord>>>,
    min_level: LogLevel,
}

impl CaptureExporter {
    fn all(records: Arc<Mutex<Vec<LogRecord>>>) -> Self {
        Self { records, min_level: LogLevel::Debug }
    }

    fn threshold(records: Arc<Mutex<Vec<LogRecord>>>, min_level: LogLevel) -> Self {
        Self { records, min_level }
    }
}

impl LogExporter for CaptureExporter {
    fn export(&self, record: &LogRecord) {
        if record.level < self.min_level {
            return;
        }
        self.records.lock().unwrap().push(record.clone());
    }
}

fn runtime() -> Runtime {
    Runtime::new(1, true).unwrap()
}

fn run(runtime: &mut Runtime, mut disposal: Disposal) {
    loop {
        match disposal.step(&mut runtime.scopes) {
            DisposeStep::Run { cleanup, .. } => {
                assert!(matches!(runtime.run_cleanup(cleanup), CleanupTask::Nothing));
            }
            DisposeStep::Coordinate(mut coordinator) => match coordinator.next() {
                CoordinatorAction::Finish(errors) => {
                    runtime.scopes.finish(coordinator.scope(), errors);
                }
                _ => unreachable!(),
            },
            DisposeStep::Done => break,
            _ => {}
        }
    }
}

fn log(runtime: &mut Runtime, level: LogLevel, message: &str) {
    let logger = runtime.root().logger(runtime, None).unwrap();
    logger.log(&mut runtime.logger, level, message);
}

#[test]
fn log_level_as_str_uses_stable_lowercase_labels() {
    assert_eq!(LogLevel::Debug.as_str(), "debug");
    assert_eq!(LogLevel::Info.as_str(), "info");
    assert_eq!(LogLevel::Warn.as_str(), "warn");
    assert_eq!(LogLevel::Error.as_str(), "error");
}

#[test]
fn isolate_and_extend_share_same_logger_service() {
    let key: ServiceKey<()> = ServiceKey::new("logger.test.isolate@1");
    let mut runtime = runtime();
    let root = runtime.root();
    let extended = root.extend(&mut runtime).unwrap();
    let (isolated, _) = root.isolate(&mut runtime, key).unwrap();
    let service = runtime.logger_service().identity();
    assert_eq!(service, root.logger(&runtime, None).unwrap().service());
    assert_eq!(service, extended.logger(&runtime, None).unwrap().service());
    assert_eq!(service, isolated.logger(&runtime, None).unwrap().service());
    let other = Runtime::new(2, true).unwrap();
    assert_ne!(service, other.root().logger(&other, None).unwrap().service());
}

#[test]
fn buffer_keeps_records_without_exporter_and_caps_at_1000() {
    let mut runtime = runtime();
    let logger = runtime.root().logger(&runtime, None).unwrap();
    for i in 0..LOG_BUFFER_CAPACITY + 50 {
        logger.info(&mut runtime.logger, &format!("msg-{i}"));
    }
    let snap = runtime.logger_service().buffer_snapshot();
    assert_eq!(snap.len(), LOG_BUFFER_CAPACITY);
    assert_eq!(LOG_BUFFER_CAPACITY, 1000);
    assert_eq!(snap.first().unwrap().message, "msg-50");
    assert_eq!(snap.last().unwrap().message, format!("msg-{}", LOG_BUFFER_CAPACITY + 49));
    assert!(snap[0].seq < snap[1].seq);
    assert_eq!(snap[0].seq, 51);
}

#[test]
fn debug_enters_buffer_under_default_info_context() {
    let mut runtime = runtime();
    let records = Arc::new(Mutex::new(Vec::new()));
    let root = runtime.root();
    root.register_log_exporter(&mut runtime, Arc::new(CaptureExporter::all(records.clone())))
        .unwrap();
    let logger = root.logger(&runtime, None).unwrap();
    assert_eq!(logger.default_level(), LogLevel::Info);
    assert_eq!(logger.target(), "root");
    logger.debug(&mut runtime.logger, "dbg");
    let snap = runtime.logger_service().buffer_snapshot();
    assert_eq!(snap.len(), 1);
    assert_eq!(snap[0].level, LogLevel::Debug);
    assert_eq!(snap[0].default_level, LogLevel::Info);
    assert_eq!(records.lock().unwrap().len(), 1);
}

#[test]
fn exporters_filter_independently_by_threshold() {
    let mut runtime = runtime();
    let loose = Arc::new(Mutex::new(Vec::new()));
    let strict = Arc::new(Mutex::new(Vec::new()));
    let root = runtime.root();
    let exporter = CaptureExporter::threshold(loose.clone(), LogLevel::Debug);
    root.register_log_exporter(&mut runtime, Arc::new(exporter)).unwrap();
    let child = root.effect(&mut runtime).unwrap();
    let exporter = CaptureExporter::threshold(strict.clone(), LogLevel::Warn);
    child.register_log_exporter(&mut runtime, Arc::new(exporter)).unwrap();
    log(&mut runtime, LogLevel::Info, "info-only");
    assert_eq!(loose.lock().unwrap().len(), 1);
    assert_eq!(strict.lock().unwrap().len(), 0);
    log(&mut runtime, LogLevel::Warn, "both");
    assert_eq!(loose.lock().unwrap().len(), 2);
    assert_eq!(strict.lock().unwrap().len(), 1);
}

#[test]
fn exporter_receives_records_and_unregisters_on_effect_dispose() {
    let mut runtime = runtime();
    let records = Arc::new(Mutex::new(Vec::new()));
    let effect = runtime.root().effect(&mut runtime).unwrap();
    effect
        .register_log_exporter(&mut runtime, Arc::new(CaptureExporter::all(records.clone())))
        .unwrap();
    log(&mut runtime, LogLevel::Info, "hello");
    assert_eq!(records.lock().unwrap().len(), 1);
    let disposal = effect.dispose_wait(&mut runtime);
    run(&mut runtime, disposal);
    log(&mut runtime, LogLevel::Info, "after");
    assert_eq!(records.lock().unwrap().len(), 1);
    assert_eq!(runtime.logger_service().exporter_count(), 0);
}

#[test]
fn logger_config_sets_default_level_without_filtering() {
    let mut runtime = runtime();
    let records = Arc::new(Mutex::new(Vec::new()));
    let configs = vec![LoggerConfig {
        name: Some("custom".to_string()),
        level: Some(LogLevel::Warn),
    }];
    let key = logger_config_key();
    let root = runtime.root();
    assert!(matches!(root.logger_config(&runtime, key), Ok(None)));
    let view = root.intercept(&mut runtime, key, 0).unwrap();
    view.register_log_exporter(&mut runtime, Arc::new(CaptureExporter::all(records.clone())))
        .unwrap();
    let found = view.logger_config(&runtime, key).unwrap().unwrap();
    let logger = view.logger(&runtime, Some(&configs[found as usize])).unwrap();
    assert_eq!(logger.target(), "custom");
    assert_eq!(logger.default_level(), LogLevel::Warn);
    logger.info(&mut runtime.logger, "still-buffered");
    logger.warn(&mut runtime.logger, "kept");
    let captured = records.lock().unwrap().clone();
    assert_eq!(captured.len(), 2);
    assert_eq!(captured[0].message, "still-buffered");
    assert_eq!(captured[0].default_level, LogLevel::Warn);
    assert_eq!(captured[1].message, "kept");
    assert_eq!(captured[1].target, "custom");
}

#[test]
fn logger_fails_on_disposed_context_and_config_type_mismatch() {
    #[derive(Debug)]
    struct Other;
    let mut runtime = runtime();
    let effect = runtime.root().effect(&mut runtime).unwrap();
    let disposal = effect.dispose_wait(&mut runtime);
    run(&mut runtime, disposal);
    assert!(matches!(effect.logger(&runtime, None), Err(CoreError::ContextDisposed)));
    assert!(matches!(
        effect.logger_config(&runtime, logger_config_key()),
        Err(CoreError::ContextDisposed)
    ));
    let as_other: ConfigKey<Other> = ConfigKey::new("cordis.logger.config@1");
    let wrong = runtime.root().intercept(&mut runtime, as_other, 0).unwrap();
    assert!(matches!(
        wrong.logger_config(&runtime, logger_config_key()),
        Err(CoreError::ConfigTypeMismatch { .. })
    ));
}

#[test]
fn multiple_exporters_receive_independently() {
    let mut runtime = runtime();
    let a = Arc::new(Mutex::new(Vec::new()));
    let b = Arc::new(Mutex::new(Vec::new()));
    let root = runtime.root();
    root.register_log_exporter(&mut runtime, Arc::new(CaptureExporter::all(a.clone()))).unwrap();
    let child = root.effect(&mut runtime).unwrap();
    child.register_log_exporter(&mut runtime, Arc::new(CaptureExporter::all(b.clone()))).unwrap();
    log(&mut runtime, LogLevel::Error, "both");
    assert_eq!(a.lock().unwrap().len(), 1);
    assert_eq!(b.lock().unwrap().len(), 1);
    let disposal = child.dispose_wait(&mut runtime);
    run(&mut runtime, disposal);
    log(&mut runtime, LogLevel::Error, "only-a");
    assert_eq!(a.lock().unwrap().len(), 2);
    assert_eq!(b.lock().unwrap().len(), 1);
}

#[test]
fn copies_of_a_logger_write_to_the_same_log() {
    let mut runtime = runtime();
    let records = Arc::new(Mutex::new(Vec::new()));
    let root = runtime.root();
    root.register_log_exporter(&mut runtime, Arc::new(CaptureExporter::all(records.clone())))
        .unwrap();
    let logger = root.logger(&runtime, None).unwrap();
    let copy = logger.clone();
    assert_eq!(copy.service(), logger.service());
    assert_eq!(copy.target(), logger.target());
    copy.warn(&mut runtime.logger, "copied");
    assert_eq!(records.lock().unwrap()[0].message, "copied");
    assert_eq!(records.lock().unwrap()[0].seq, runtime.logger.buffer_snapshot()[0].seq);
}

#[test]
fn exporters_are_counted_and_numbered_afresh() {
    let mut service = LoggerService::new(7);
    let records = Arc::new(Mutex::new(Vec::new()));
    let exporter: Arc<dyn LogExporter> = Arc::new(CaptureExporter::all(records.clone()));
    let first = service.register_exporter(exporter.clone());
    let second = service.register_exporter(exporter.clone());
    assert_eq!(service.exporter_count(), 2);
    service.emit(LogLevel::Info, "t", "twice", None, None, LogLevel::Info);
    assert_eq!(records.lock().unwrap().len(), 2);
    service.unregister_exporter(second);
    service.unregister_exporter(second);
    service.unregister_exporter(99);
    assert_eq!(service.exporter_count(), 1);
    let third = service.register_exporter(exporter);
    assert!(first < second && second < third);
    assert_eq!(service.exporter_count(), 2);
}

#[test]
fn levels_are_ordered_by_severity() {
    assert!(LogLevel::Debug < LogLevel::Info);
    assert!(LogLevel::Info < LogLevel::Warn);
    assert!(LogLevel::Warn < LogLevel::Error);
}

#[test]
fn records_bear_the_time_of_writing() {
    let mut service = LoggerService::new(7);
    let earlier = SystemTime::now();
    service.emit(LogLevel::Info, "target", "now", None, None, LogLevel::Info);
    let record = service.buffer_snapshot().pop().unwrap();
    assert!(record.timestamp >= earlier);
    assert!(record.timestamp <= SystemTime::now());
    let past = SystemTime::UNIX_EPOCH + Duration::from_secs(1);
    let written = service.record_at(
        past,
        LogLevel::Warn,
        "target",
        "then",
        Some(3),
        Some(PluginKey::new("p")),
        LogLevel::Error,
    );
    assert_eq!(written.seq, 2);
    assert_eq!(written.timestamp, past);
    assert_eq!(written.message, "then");
    assert_eq!(written.fiber_id, Some(3));
    assert_eq!(written.default_level, LogLevel::Error);
    assert_eq!(service.buffer_snapshot().len(), 2);
}

#[test]
fn unregistering_leaves_the_other_exporters() {
    let mut service = LoggerService::new(7);
    let a = Arc::new(Mutex::new(Vec::new()));
    let b = Arc::new(Mutex::new(Vec::new()));
    let first = service.register_exporter(Arc::new(CaptureExporter::all(a.clone())));
    let second = service.register_exporter(Arc::new(CaptureExporter::all(b.clone())));
    assert_ne!(first, second);
    service.unregister_exporter(first);
    service.unregister_exporter(first);
    assert_eq!(service.exporter_count(), 1);
    service.emit(LogLevel::Info, "t", "m", None, None, LogLevel::Info);
    assert_eq!(a.lock().unwrap().len(), 0);
    assert_eq!(b.lock().unwrap().len(), 1);
}
