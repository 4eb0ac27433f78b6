//! The structured log of a runtime.
//!
//! The log does not filter by level: every record enters the buffer and goes to every
//! exporter. Thresholds are the exporters' own affair.

use crate::config::ConfigKey;
use crate::plugin::PluginKey;
use std::collections::VecDeque;
use std::sync::Arc;
use std::time::SystemTime;
use vstd::prelude::*;

verus! {

/// The number of records that the buffer keeps.
pub const LOG_BUFFER_CAPACITY: usize = 1000;

#[verifier::external_type_specification]
#[verifier::external_body]
pub struct ExSystemTime(SystemTime);

/// The severity of a record.
#[derive(Debug, Clone, Copy, PartialEq, Eq, PartialOrd, Ord, Hash, Structural)]
pub enum LogLevel {
    Debug,
    Info,
    Warn,
    Error,
}

impl LogLevel {
    /// The stable label of a level.
    pub open spec fn label(self) -> Seq<char> {
        match self {
            LogLevel::Debug => "debug"@,
            LogLevel::Info => "info"@,
            LogLevel::Warn => "warn"@,
            LogLevel::Error => "error"@,
        }
    }

    /// The stable label of a level.
    pub fn as_str(self) -> (r: &'static str)
        ensures
            r@ == self.label(),
    {
        match self {
            LogLevel::Debug => "debug",
            LogLevel::Info => "info",
            LogLevel::Warn => "warn",
            LogLevel::Error => "error",
        }
    }
}

/// One record.
#[derive(Debug)]
pub struct LogRecord {
    pub seq: u64,
    pub timestamp: SystemTime,
    pub level: LogLevel,
    pub target: String,
    pub message: String,
    pub fiber_id: Option<u64>,
    pub plugin_key: Option<PluginKey>,
    /// The threshold of the context that wrote the record; exporters without a
    /// threshold of their own may go by it.
    pub default_level: LogLevel,
}

impl Clone for LogRecord {
    fn clone(&self) -> (r: Self)
        ensures
            r == *self,
    {
        LogRecord {
            seq: self.seq,
            timestamp: self.timestamp,
            level: self.level,
            target: self.target.clone(),
            message: self.message.clone(),
            fiber_id: self.fiber_id,
            plugin_key: self.plugin_key,
            default_level: self.default_level,
        }
    }
}

/// A synchronous receiver of records.
pub trait LogExporter: Send + Sync {
    /// The exporter was handed this record. What an exporter makes of that is its own affair:
    /// one that is to promise something says here what. Of an exporter that is known as
    /// `dyn LogExporter` only, a call of [`Self::export`] alone gives it.
    open spec fn received(&self, record: LogRecord) -> bool {
        true
    }

    fn export(&self, record: &LogRecord)
        ensures
            self.received(*record),
    ;
}

/// A registered exporter.
pub struct ExporterSlot<E> {
    /// The number of the slot; zero until it has one.
    pub id: u64,
    pub exporter: E,
}

impl<E> ExporterSlot<E> {
    /// A slot without a number yet.
    pub(crate) fn unnumbered(exporter: E) -> (r: ExporterSlot<E>)
        ensures
            r.id == 0,
            r.exporter == exporter,
    {
        ExporterSlot { id: 0, exporter }
    }
}

/// `SystemTime::now()`. Nothing is stated of the result: it depends on the clock.
#[verifier::external_body]
fn clock() -> (r: SystemTime) {
    SystemTime::now()
}

/// The log of a runtime: buffer, sequence numbers and exporters.
pub struct LoggerService {
    identity: u64,
    next_seq: u64,
    next_exporter: u64,
    buffer: VecDeque<LogRecord>,
    exporters: Vec<ExporterSlot<Arc<dyn LogExporter>>>,
}

/// What a [`LoggerService`] holds.
pub struct LoggerModel {
    pub identity: u64,
    pub next_seq: u64,
    pub next_exporter: u64,
    /// The records that are kept, the oldest first.
    pub buffer: Seq<LogRecord>,
    /// The exporters, in order of registration.
    pub exporters: Seq<ExporterSlot<Arc<dyn LogExporter>>>,
}

/// The text of a record that was not numbered yet.
pub struct LogEntry {
    pub level: LogLevel,
    pub target: Seq<char>,
    pub message: Seq<char>,
    pub fiber_id: Option<u64>,
    pub plugin_key: Option<PluginKey>,
    pub default_level: LogLevel,
}

impl LogRecord {
    /// What the record says, but for its number and time.
    pub open spec fn entry(self) -> LogEntry {
        LogEntry {
            level: self.level,
            target: self.target@,
            message: self.message@,
            fiber_id: self.fiber_id,
            plugin_key: self.plugin_key,
            default_level: self.default_level,
        }
    }
}

/// The buffer after one more record: a full buffer gives up its oldest record.
pub open spec fn buffered(buffer: Seq<LogRecord>, record: LogRecord) -> Seq<LogRecord> {
    if buffer.len() >= LOG_BUFFER_CAPACITY {
        buffer.drop_first().push(record)
    } else {
        buffer.push(record)
    }
}

/// The number that lies `back` steps before `next`; numbers start over after the largest.
pub open spec fn number_before(next: u64, back: int) -> int {
    if back <= next {
        next - back
    } else {
        next - back + u64::MAX + 1
    }
}

/// The slots are numbered in their order, below the next number.
pub open spec fn slots_ok(slots: Seq<ExporterSlot<Arc<dyn LogExporter>>>, next: u64) -> bool {
    &&& forall|i: int| 0 <= i < slots.len() ==> (#[trigger] slots[i]).id < next
    &&& forall|i: int, j: int|
        0 <= i < j < slots.len() ==> (#[trigger] slots[i]).id < (#[trigger] slots[j]).id
}

impl LoggerModel {
    /// What holds of every log: the buffer does not exceed its capacity and holds the
    /// latest records, numbered without a gap; exporters are numbered in the order of their
    /// registration, and no number is given out twice.
    pub open spec fn ok(self) -> bool {
        &&& self.buffer.len() <= LOG_BUFFER_CAPACITY
        &&& forall|i: int|
            0 <= i < self.buffer.len() ==> (#[trigger] self.buffer[i]).seq == number_before(
                self.next_seq,
                self.buffer.len() - i,
            )
        &&& slots_ok(self.exporters, self.next_exporter)
    }

    /// The log after a record was written.
    pub open spec fn written(self, record: LogRecord) -> LoggerModel {
        LoggerModel {
            next_seq: self.next_seq.wrapping_add(1),
            buffer: buffered(self.buffer, record),
            ..self
        }
    }

    /// All exporters were handed this record.
    pub open spec fn exported(self, record: LogRecord) -> bool {
        forall|i: int|
            0 <= i < self.exporters.len() ==> (#[trigger] self.exporters[i]).exporter.received(
                record,
            )
    }

    /// The log after the exporter of a slot was registered, under the next number.
    pub open spec fn with_exporter(
        self,
        slot: ExporterSlot<Arc<dyn LogExporter>>,
    ) -> LoggerModel {
        LoggerModel {
            next_exporter: (self.next_exporter + 1) as u64,
            exporters: self.exporters.push(ExporterSlot { id: self.next_exporter, ..slot }),
            ..self
        }
    }

    /// The log after the exporter with this number was removed.
    pub open spec fn without_exporter(self, id: u64) -> LoggerModel {
        LoggerModel {
            exporters: self.exporters.filter(
                |slot: ExporterSlot<Arc<dyn LogExporter>>| slot.id != id,
            ),
            ..self
        }
    }
}

impl View for LoggerService {
    type V = LoggerModel;

    closed spec fn view(&self) -> LoggerModel {
        LoggerModel {
            identity: self.identity,
            next_seq: self.next_seq,
            next_exporter: self.next_exporter,
            buffer: self.buffer@,
            exporters: self.exporters@,
        }
    }
}

impl LoggerService {
    pub closed spec fn wf(&self) -> bool {
        self@.ok()
    }

    pub proof fn lemma_wf(&self)
        requires
            self.wf(),
        ensures
            self@.ok(),
    {
    }

    /// An empty log of the runtime with this identity.
    pub fn new(identity: u64) -> (r: LoggerService)
        ensures
            r.wf(),
            r@ == (LoggerModel {
                identity,
                next_seq: 1,
                next_exporter: 1,
                buffer: Seq::empty(),
                exporters: Seq::empty(),
            }),
    {
        let r = LoggerService {
            identity,
            next_seq: 1,
            next_exporter: 1,
            buffer: VecDeque::with_capacity(LOG_BUFFER_CAPACITY),
            exporters: Vec::new(),
        };
        r
    }

    /// The identity of the runtime whose log this is.
    pub fn identity(&self) -> (r: u64)
        ensures
            r == self@.identity,
    {
        self.identity
    }

    /// There are numbers left for exporters.
    pub fn has_room(&self) -> (r: bool)
        ensures
            r == (self@.next_exporter < u64::MAX),
    {
        self.next_exporter < u64::MAX
    }

    /// Writes a record, whatever its level, and passes it to all exporters. That each gets
    /// it once and no other is called is not part of the contract: an exporter keeps for
    /// itself how often it was called.
    pub fn emit(
        &mut self,
        level: LogLevel,
        target: &str,
        message: &str,
        fiber_id: Option<u64>,
        plugin_key: Option<PluginKey>,
        default_level: LogLevel,
    )
        requires
            old(self).wf(),
        ensures
            final(self).wf(),
            logged(
                old(self)@,
                final(self)@,
                LogEntry {
                    level,
                    target: target@,
                    message: message@,
                    fiber_id,
                    plugin_key,
                    default_level,
                },
            ),
    {
        let timestamp = clock();
        let record = self.record_at(
            timestamp,
            level,
            target,
            message,
            fiber_id,
            plugin_key,
            default_level,
        );
        let mut i: usize = 0;
        while i < self.exporters.len()
            invariant
                i <= self.exporters@.len(),
                forall|j: int|
                    0 <= j < i ==> (#[trigger] self@.exporters[j]).exporter.received(record),
            decreases self.exporters@.len() - i,
        {
            self.exporters[i].exporter.export(&record);
            i += 1;
        }
    }

    /// Writes a record with this time and gives a copy of it.
    pub fn record_at(
        &mut self,
        timestamp: SystemTime,
        level: LogLevel,
        target: &str,
        message: &str,
        fiber_id: Option<u64>,
        plugin_key: Option<PluginKey>,
        default_level: LogLevel,
    ) -> (record: LogRecord)
        requires
            old(self).wf(),
        ensures
            final(self).wf(),
            final(self)@ == old(self)@.written(record),
            final(self)@.buffer.last() == record,
            record.seq == old(self)@.next_seq,
            record.timestamp == timestamp,
            record.entry() == (LogEntry {
                level,
                target: target@,
                message: message@,
                fiber_id,
                plugin_key,
                default_level,
            }),
    {
        let ghost before = self@;
        let record = LogRecord {
            seq: self.next_seq,
            timestamp,
            level,
            target: target.to_owned(),
            message: message.to_owned(),
            fiber_id,
            plugin_key,
            default_level,
        };
        self.next_seq = self.next_seq.wrapping_add(1);
        if self.buffer.len() >= LOG_BUFFER_CAPACITY {
            self.buffer.pop_front();
            assert(self.buffer@ =~= before.buffer.drop_first());
        }
        self.buffer.push_back(record.clone());
        assert(self@ == before.written(record));
        record
    }

    /// Adds an exporter.
    pub fn register_exporter(&mut self, exporter: Arc<dyn LogExporter>) -> (id: u64)
        requires
            old(self).wf(),
            old(self)@.next_exporter < u64::MAX,
        ensures
            final(self).wf(),
            id == old(self)@.next_exporter,
            ({
                let slot = ExporterSlot { id, exporter };
                final(self)@ == old(self)@.with_exporter(slot)
            }),
    {
        let slot = ExporterSlot::unnumbered(exporter);
        self.install(slot)
    }

    /// Takes a slot over and gives it its number.
    pub(crate) fn install(&mut self, slot: ExporterSlot<Arc<dyn LogExporter>>) -> (id: u64)
        requires
            old(self).wf(),
            old(self)@.next_exporter < u64::MAX,
        ensures
            final(self).wf(),
            id == old(self)@.next_exporter,
            final(self)@ == old(self)@.with_exporter(slot),
    {
        let id: u64 = self.next_exporter;
        self.next_exporter = id + 1;
        let ghost before = self.exporters@;
        assert(slots_ok(before, id));
        let mut slot = slot;
        slot.id = id;
        self.exporters.push(slot);
        assert(slots_ok(self.exporters@, self.next_exporter));
        id
    }

    /// Removes an exporter.
    pub fn unregister_exporter(&mut self, id: u64)
        requires
            old(self).wf(),
        ensures
            final(self).wf(),
            final(self)@ == old(self)@.without_exporter(id),
    {
        let ghost before = self.exporters@;
        let ghost limit = self.next_exporter;
        let ghost other = |slot: ExporterSlot<Arc<dyn LogExporter>>| slot.id != id;
        let mut kept: Vec<ExporterSlot<Arc<dyn LogExporter>>> = Vec::new();
        let mut rest: Vec<ExporterSlot<Arc<dyn LogExporter>>> = Vec::new();
        std::mem::swap(&mut rest, &mut self.exporters);
        proof {
            reveal(Seq::filter);
            assert(kept@ =~= before.take(0).filter(other));
        }
        let ghost mut done: int = 0;
        while rest.len() > 0
            invariant
                0 <= done <= before.len(),
                rest@ == before.skip(done),
                other == (|slot: ExporterSlot<Arc<dyn LogExporter>>| slot.id != id),
                kept@ == before.take(done).filter(other),
                slots_ok(before, limit),
            decreases rest@.len(),
        {
            let slot = rest.remove(0);
            proof {
                assert(slot == before[done]);
                assert(rest@ =~= before.skip(done + 1));
                assert(before.take(done + 1).drop_last() =~= before.take(done));
                assert(before.take(done + 1).last() == slot);
                reveal(Seq::filter);
            }
            if slot.id != id {
                kept.push(slot);
            }
            proof {
                done = done + 1;
            }
        }
        proof {
            assert(before.take(done) =~= before);
            lemma_kept_ok(before, limit, id);
        }
        self.exporters = kept;
    }

    /// The records that are kept, the oldest first.
    pub fn buffer_snapshot(&self) -> (r: Vec<LogRecord>)
        ensures
            r@ == self@.buffer,
    {
        let mut out: Vec<LogRecord> = Vec::new();
        let mut i: usize = 0;
        while i < self.buffer.len()
            invariant
                i <= self.buffer@.len(),
                out@ == self.buffer@.take(i as int),
            decreases self.buffer@.len() - i,
        {
            out.push(self.buffer[i].clone());
            i += 1;
            assert(self.buffer@.take(i as int).drop_last() =~= self.buffer@.take(i - 1));
        }
        assert(self.buffer@.take(i as int) =~= self.buffer@);
        out
    }

    /// The number of exporters.
    pub fn exporter_count(&self) -> (r: usize)
        ensures
            r == self@.exporters.len(),
    {
        self.exporters.len()
    }
}

/// The log as a context sees it.
#[derive(Debug)]
pub struct Logger {
    service: u64,
    target: String,
    default_level: LogLevel,
    fiber_id: Option<u64>,
    plugin_key: Option<PluginKey>,
}

impl Clone for Logger {
    fn clone(&self) -> (r: Self)
        ensures
            r.service_spec() == self.service_spec(),
            r.target_spec() == self.target_spec(),
            r.level_spec() == self.level_spec(),
            r.fiber_spec() == self.fiber_spec(),
            r.plugin_spec() == self.plugin_spec(),
    {
        Logger {
            service: self.service,
            target: self.target.clone(),
            default_level: self.default_level,
            fiber_id: self.fiber_id,
            plugin_key: self.plugin_key,
        }
    }
}

impl Logger {
    pub closed spec fn service_spec(&self) -> u64 {
        self.service
    }

    pub closed spec fn target_spec(&self) -> Seq<char> {
        self.target@
    }

    pub closed spec fn level_spec(&self) -> LogLevel {
        self.default_level
    }

    pub closed spec fn fiber_spec(&self) -> Option<u64> {
        self.fiber_id
    }

    pub closed spec fn plugin_spec(&self) -> Option<PluginKey> {
        self.plugin_key
    }

    pub(crate) fn new(
        service: u64,
        target: String,
        default_level: LogLevel,
        fiber_id: Option<u64>,
        plugin_key: Option<PluginKey>,
    ) -> (r: Logger)
        ensures
            r.service_spec() == service,
            r.target_spec() == target@,
            r.level_spec() == default_level,
            r.fiber_spec() == fiber_id,
            r.plugin_spec() == plugin_key,
    {
        Logger { service, target, default_level, fiber_id, plugin_key }
    }

    pub fn target(&self) -> (r: &str)
        ensures
            r@ == self.target_spec(),
    {
        self.target.as_str()
    }

    /// The threshold that records carry for exporters without one of their own.
    pub fn default_level(&self) -> (r: LogLevel)
        ensures
            r == self.level_spec(),
    {
        self.default_level
    }

    /// The identity of the log that records go to.
    pub fn service(&self) -> (r: u64)
        ensures
            r == self.service_spec(),
    {
        self.service
    }

    /// What a record of this logger says.
    pub open spec fn entry(&self, level: LogLevel, message: Seq<char>) -> LogEntry {
        LogEntry {
            level,
            target: self.target_spec(),
            message,
            fiber_id: self.fiber_spec(),
            plugin_key: self.plugin_spec(),
            default_level: self.level_spec(),
        }
    }

    /// Writes a record.
    pub fn log(&self, service: &mut LoggerService, level: LogLevel, message: &str)
        requires
            old(service).wf(),
            old(service)@.identity == self.service_spec(),
        ensures
            final(service).wf(),
            logged(old(service)@, final(service)@, self.entry(level, message@)),
    {
        service.emit(
            level,
            self.target.as_str(),
            message,
            self.fiber_id,
            self.plugin_key,
            self.default_level,
        );
    }

    pub fn debug(&self, service: &mut LoggerService, message: &str)
        requires
            old(service).wf(),
            old(service)@.identity == self.service_spec(),
        ensures
            final(service).wf(),
            logged(old(service)@, final(service)@, self.entry(LogLevel::Debug, message@)),
    {
        self.log(service, LogLevel::Debug, message);
    }

    pub fn info(&self, service: &mut LoggerService, message: &str)
        requires
            old(service).wf(),
            old(service)@.identity == self.service_spec(),
        ensures
            final(service).wf(),
            logged(old(service)@, final(service)@, self.entry(LogLevel::Info, message@)),
    {
        self.log(service, LogLevel::Info, message);
    }

    pub fn warn(&self, service: &mut LoggerService, message: &str)
        requires
            old(service).wf(),
            old(service)@.identity == self.service_spec(),
        ensures
            final(service).wf(),
            logged(old(service)@, final(service)@, self.entry(LogLevel::Warn, message@)),
    {
        self.log(service, LogLevel::Warn, message);
    }

    pub fn error(&self, service: &mut LoggerService, message: &str)
        requires
            old(service).wf(),
            old(service)@.identity == self.service_spec(),
        ensures
            final(service).wf(),
            logged(old(service)@, final(service)@, self.entry(LogLevel::Error, message@)),
    {
        self.log(service, LogLevel::Error, message);
    }
}

/// One record that says `entry` was written and handed to all exporters.
pub open spec fn logged(before: LoggerModel, after: LoggerModel, entry: LogEntry) -> bool {
    let record = after.buffer.last();
    &&& after == before.written(record)
    &&& record.seq == before.next_seq
    &&& record.entry() == entry
    &&& after.exported(record)
}

/// What is left of the slots after one was taken out is still numbered in its order.
pub proof fn lemma_kept_ok(slots: Seq<ExporterSlot<Arc<dyn LogExporter>>>, next: u64, id: u64)
    requires
        slots_ok(slots, next),
    ensures
        ({
            let kept = slots.filter(|slot: ExporterSlot<Arc<dyn LogExporter>>| slot.id != id);
            &&& slots_ok(kept, next)
            &&& forall|i: int| 0 <= i < kept.len() ==> slots.contains(#[trigger] kept[i])
        }),
    decreases slots.len(),
{
    reveal(Seq::filter);
    if slots.len() > 0 {
        let front = slots.drop_last();
        assert forall|i: int| 0 <= i < front.len() implies (#[trigger] front[i]).id < next by {
            assert(front[i] == slots[i]);
        }
        assert forall|i: int, j: int| 0 <= i < j < front.len() implies (#[trigger] front[i]).id < (
        #[trigger] front[j]).id by {
            assert(front[i] == slots[i] && front[j] == slots[j]);
        }
        lemma_kept_ok(front, next, id);
        let pred = |slot: ExporterSlot<Arc<dyn LogExporter>>| slot.id != id;
        let held = front.filter(pred);
        let kept = slots.filter(pred);
        assert(slots[slots.len() - 1] == slots.last());
        assert forall|i: int| 0 <= i < held.len() implies slots.contains(#[trigger] held[i])
            && held[i].id < slots.last().id by {
            let k = choose|k: int| 0 <= k < front.len() && front[k] == held[i];
            assert(slots[k] == held[i]);
        }
        assert(slots.contains(slots.last()));
        assert forall|i: int, j: int| 0 <= i < j < kept.len() implies (#[trigger] kept[i]).id < (
        #[trigger] kept[j]).id by {
            assert(kept[i] == held[i]);
            if j < held.len() {
                assert(kept[j] == held[j]);
            }
        }
        assert forall|i: int| 0 <= i < kept.len() implies slots.contains(#[trigger] kept[i])
            && kept[i].id < next by {
            if i < held.len() {
                assert(kept[i] == held[i]);
            }
        }
    }
}

/// Default name and threshold of the loggers of a context.
#[derive(Debug)]
pub struct LoggerConfig {
    pub name: Option<String>,
    pub level: Option<LogLevel>,
}

impl Clone for LoggerConfig {
    fn clone(&self) -> (r: Self)
        ensures
            r == *self,
    {
        LoggerConfig {
            name: match &self.name {
                Some(name) => Some(name.clone()),
                None => None,
            },
            level: self.level,
        }
    }
}

impl Default for LoggerConfig {
    fn default() -> (r: Self)
        ensures
            r.name is None && r.level is None,
    {
        LoggerConfig { name: None, level: None }
    }
}

/// The name of the configuration entry for loggers.
pub const LOGGER_CONFIG_ID: &'static str = "cordis.logger.config@1";

/// The key of the configuration entry for loggers.
pub fn logger_config_key() -> (r: ConfigKey<LoggerConfig>)
    ensures
        r.id_spec()@ == LOGGER_CONFIG_ID@,
{
    ConfigKey::new(LOGGER_CONFIG_ID)
}

} // verus!
