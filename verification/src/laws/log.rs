//! The log.

use crate::logger;
use crate::logger::{
    ExporterSlot, LogEntry, LogExporter, LogLevel, LogRecord, Logger, LoggerModel,
    LOGGER_CONFIG_ID, LOG_BUFFER_CAPACITY,
};
use std::sync::Arc;
use vstd::prelude::*;

verus! {

/// The log after these records were written, one after the other.
pub open spec fn written_all(log: LoggerModel, records: Seq<LogRecord>) -> LoggerModel
    decreases records.len(),
{
    if records.len() == 0 {
        log
    } else {
        written_all(log, records.drop_last()).written(records.last())
    }
}

/// The last records of a sequence, as many as the log keeps.
pub open spec fn latest(records: Seq<LogRecord>) -> Seq<LogRecord> {
    if records.len() <= LOG_BUFFER_CAPACITY {
        records
    } else {
        records.skip(records.len() - LOG_BUFFER_CAPACITY)
    }
}

/// Whatever is written, the log keeps the latest records, up to its capacity, in the order
/// in which they were written.
pub proof fn law_log_keeps_the_latest(log: LoggerModel, records: Seq<LogRecord>)
    requires
        log.ok(),
    ensures
        written_all(log, records).buffer == latest(log.buffer + records),
        written_all(log, records).exporters == log.exporters,
    decreases records.len(),
{
    if records.len() == 0 {
        assert(log.buffer + records =~= log.buffer);
    } else {
        let front = records.drop_last();
        law_log_keeps_the_latest(log, front);
        let all = log.buffer + records;
        assert(all =~= (log.buffer + front).push(records.last()));
        assert(written_all(log, records).buffer =~= latest(all));
    }
}

/// The records that are kept bear consecutive numbers that end with the last one given out;
/// after the largest number comes zero.
pub proof fn law_log_numbers_are_consecutive(log: LoggerModel, i: int, j: int)
    requires
        log.ok(),
        0 <= i <= j < log.buffer.len(),
    ensures
        log.buffer[j].seq == log.buffer[i].seq.wrapping_add((j - i) as u64),
        log.next_seq == log.buffer.last().seq.wrapping_add(1),
{
}

/// A record goes to every exporter that is registered when it is written and enters the
/// buffer, whatever its level and the threshold of the context.
pub proof fn law_no_record_is_filtered(
    before: LoggerModel,
    after: LoggerModel,
    entry: LogEntry,
    i: int,
)
    requires
        logger::logged(before, after, entry),
        0 <= i < before.exporters.len(),
    ensures
        after.buffer.last().entry() == entry,
        after.exporters == before.exporters,
        before.exporters[i].exporter.received(after.buffer.last()),
{
    assert(after.exporters[i].exporter.received(after.buffer.last()));
}

/// Two records in a row both reach an exporter that is there throughout, whatever their levels
/// and thresholds.
pub proof fn law_levels_do_not_matter(
    before: LoggerModel,
    middle: LoggerModel,
    after: LoggerModel,
    first: LogEntry,
    second: LogEntry,
    i: int,
)
    requires
        logger::logged(before, middle, first),
        logger::logged(middle, after, second),
        0 <= i < before.exporters.len(),
    ensures
        ({
            let exporter = before.exporters[i].exporter;
            &&& exporter.received(middle.buffer.last())
            &&& exporter.received(after.buffer.last())
            &&& middle.buffer.last().entry() == first
            &&& after.buffer.last().entry() == second
        }),
{
    law_no_record_is_filtered(before, middle, first, i);
    law_no_record_is_filtered(middle, after, second, i);
}

/// An exporter that was registered is the last one, under a number that no other bears; the
/// others stay as they are.
pub proof fn law_registered_exporter_joins(
    log: LoggerModel,
    slot: ExporterSlot<Arc<dyn LogExporter>>,
)
    requires
        log.ok(),
        log.next_exporter < u64::MAX,
    ensures
        log.with_exporter(slot).ok(),
        log.with_exporter(slot).exporters.drop_last() == log.exporters,
        log.with_exporter(slot).exporters.last().exporter == slot.exporter,
        log.with_exporter(slot).exporters.last().id == log.next_exporter,
        forall|i: int|
            0 <= i < log.exporters.len() ==> (#[trigger] log.exporters[i]).id != log.next_exporter,
{
    assert(log.with_exporter(slot).exporters.drop_last() =~= log.exporters);
}

/// A removed exporter is left out; every other stays, with its number and in its place among
/// the rest.
pub proof fn law_removed_exporter_is_left_out(log: LoggerModel, id: u64)
    ensures
        forall|i: int|
            0 <= i < log.without_exporter(id).exporters.len() ==> (
            #[trigger] log.without_exporter(id).exporters[i]).id != id && log.exporters.contains(
                log.without_exporter(id).exporters[i],
            ),
        forall|i: int|
            0 <= i < log.exporters.len() && (#[trigger] log.exporters[i]).id != id
                ==> log.without_exporter(id).exporters.contains(log.exporters[i]),
        log.without_exporter(id).buffer == log.buffer,
{
    let pred = |slot: ExporterSlot<Arc<dyn LogExporter>>| slot.id != id;
    let kept = log.exporters.filter(pred);
    assert forall|i: int| 0 <= i < log.exporters.len() && (
    #[trigger] log.exporters[i]).id != id implies kept.contains(log.exporters[i]) by {
        log.exporters.lemma_filter_contains(pred, i);
    }
    assert forall|i: int| 0 <= i < kept.len() implies (#[trigger] kept[i]).id != id
        && log.exporters.contains(kept[i]) by {
        lemma_kept_was_there(log.exporters, pred, i);
    }
}

proof fn lemma_kept_was_there(
    slots: Seq<ExporterSlot<Arc<dyn LogExporter>>>,
    pred: spec_fn(ExporterSlot<Arc<dyn LogExporter>>) -> bool,
    i: int,
)
    requires
        0 <= i < slots.filter(pred).len(),
    ensures
        slots.contains(slots.filter(pred)[i]),
        pred(slots.filter(pred)[i]),
    decreases slots.len(),
{
    reveal(Seq::filter);
    if slots.len() > 0 {
        let front = slots.drop_last();
        let held = front.filter(pred);
        if i < held.len() {
            lemma_kept_was_there(front, pred, i);
            let k = choose|k: int| 0 <= k < front.len() && front[k] == held[i];
            assert(slots[k] == held[i]);
        } else {
            assert(slots.contains(slots.last()));
        }
    }
}

/// Removing an exporter undoes its registration.
pub proof fn law_exporter_removal_undoes_registration(
    log: LoggerModel,
    slot: ExporterSlot<Arc<dyn LogExporter>>,
)
    requires
        log.ok(),
    ensures
        log.with_exporter(slot).without_exporter(log.next_exporter).exporters == log.exporters,
{
    let id = log.next_exporter;
    let pred = |slot: ExporterSlot<Arc<dyn LogExporter>>| slot.id != id;
    reveal(Seq::filter);
    let joined = log.with_exporter(slot).exporters;
    assert(joined.drop_last() =~= log.exporters);
    lemma_all_kept(log.exporters, pred);
}

/// Removing a number that no exporter bears changes nothing.
pub proof fn law_unknown_exporter_is_no_loss(log: LoggerModel, id: u64)
    requires
        forall|i: int| 0 <= i < log.exporters.len() ==> (#[trigger] log.exporters[i]).id != id,
    ensures
        log.without_exporter(id) == log,
{
    lemma_all_kept(log.exporters, |slot: ExporterSlot<Arc<dyn LogExporter>>| slot.id != id);
}

proof fn lemma_all_kept(
    slots: Seq<ExporterSlot<Arc<dyn LogExporter>>>,
    pred: spec_fn(ExporterSlot<Arc<dyn LogExporter>>) -> bool,
)
    requires
        forall|i: int| 0 <= i < slots.len() ==> pred(#[trigger] slots[i]),
    ensures
        slots.filter(pred) == slots,
    decreases slots.len(),
{
    reveal(Seq::filter);
    if slots.len() > 0 {
        let front = slots.drop_last();
        assert forall|i: int| 0 <= i < front.len() implies pred(#[trigger] front[i]) by {
            assert(front[i] == slots[i]);
        }
        lemma_all_kept(front, pred);
        assert(pred(slots[slots.len() - 1]));
        assert(front.push(slots.last()) =~= slots);
    }
}

/// The numbers of the exporters.
pub open spec fn exporter_ids(log: LoggerModel) -> Set<u64> {
    Set::new(
        |id: u64|
            exists|i: int| 0 <= i < log.exporters.len() && (#[trigger] log.exporters[i]).id == id,
    )
}

/// These numbers were given out to exporters so far, and these of them were removed since.
pub open spec fn accounts_for(
    log: LoggerModel,
    registered: Set<u64>,
    removed: Set<u64>,
) -> bool {
    &&& registered.finite()
    &&& removed.subset_of(registered)
    &&& forall|id: u64| #[trigger] registered.contains(id) ==> id < log.next_exporter
    &&& exporter_ids(log) == registered.difference(removed)
}

/// A log that nothing was registered with accounts for nothing; a registration gives out a
/// number for the first time; a removal takes one back that was given out, or changes
/// nothing; writing a record changes nothing.
pub proof fn law_exporters_are_accounted_for(
    log: LoggerModel,
    registered: Set<u64>,
    removed: Set<u64>,
    slot: ExporterSlot<Arc<dyn LogExporter>>,
    id: u64,
    record: LogRecord,
)
    requires
        log.ok(),
        log.next_exporter < u64::MAX,
        accounts_for(log, registered, removed),
    ensures
        !registered.contains(log.next_exporter),
        accounts_for(log.with_exporter(slot), registered.insert(log.next_exporter), removed),
        accounts_for(
            log.without_exporter(id),
            registered,
            if registered.contains(id) {
                removed.insert(id)
            } else {
                removed
            },
        ),
        accounts_for(log.written(record), registered, removed),
        log.exporters.len() == 0 ==> accounts_for(log, Set::empty(), Set::empty()),
{
    let joined = log.with_exporter(slot);
    let left = log.without_exporter(id);
    law_removed_exporter_is_left_out(log, id);
    assert forall|other: u64|
        exporter_ids(joined).contains(other) == (exporter_ids(log).contains(other) || other
            == log.next_exporter) by {
        if exporter_ids(log).contains(other) {
            let i = choose|i: int|
                0 <= i < log.exporters.len() && (#[trigger] log.exporters[i]).id == other;
            assert(joined.exporters[i].id == other);
        }
        if other == log.next_exporter {
            assert(joined.exporters[log.exporters.len() as int].id == other);
        }
        if exporter_ids(joined).contains(other) && other != log.next_exporter {
            let i = choose|i: int|
                0 <= i < joined.exporters.len() && (#[trigger] joined.exporters[i]).id == other;
            assert(log.exporters[i].id == other);
        }
    }
    assert(!exporter_ids(log).contains(log.next_exporter));
    assert(!removed.contains(log.next_exporter));
    assert(exporter_ids(joined) =~= registered.insert(log.next_exporter).difference(removed));
    assert forall|other: u64|
        exporter_ids(left).contains(other) == (exporter_ids(log).contains(other) && other
            != id) by {
        if exporter_ids(left).contains(other) {
            let i = choose|i: int|
                0 <= i < left.exporters.len() && (#[trigger] left.exporters[i]).id == other;
            let k = choose|k: int|
                0 <= k < log.exporters.len() && log.exporters[k] == left.exporters[i];
            assert(log.exporters[k].id == other);
        }
        if exporter_ids(log).contains(other) && other != id {
            let i = choose|i: int|
                0 <= i < log.exporters.len() && (#[trigger] log.exporters[i]).id == other;
            let k = choose|k: int|
                0 <= k < left.exporters.len() && left.exporters[k] == log.exporters[i];
            assert(left.exporters[k].id == other);
        }
    }
    let removed2 = if registered.contains(id) {
        removed.insert(id)
    } else {
        removed
    };
    assert(exporter_ids(left) =~= registered.difference(removed2));
    assert(exporter_ids(log.written(record)) =~= exporter_ids(log));
    if log.exporters.len() == 0 {
        assert(exporter_ids(log) =~= Set::<u64>::empty().difference(Set::<u64>::empty()));
    }
}

/// The number of exporters is the number of those registered less the number of those
/// removed; one that was registered twice counts twice.
pub proof fn law_exporter_count(log: LoggerModel, registered: Set<u64>, removed: Set<u64>)
    requires
        log.ok(),
        accounts_for(log, registered, removed),
    ensures
        log.exporters.len() == registered.len() - removed.len(),
{
    let ids = log.exporters.map_values(|slot: ExporterSlot<Arc<dyn LogExporter>>| slot.id);
    assert(ids.no_duplicates());
    ids.unique_seq_to_set();
    assert forall|id: u64| ids.to_set().contains(id) == exporter_ids(log).contains(id) by {
        if ids.contains(id) {
            let i = choose|i: int| 0 <= i < ids.len() && ids[i] == id;
            assert(log.exporters[i].id == id);
        }
        if exporter_ids(log).contains(id) {
            let i = choose|i: int|
                0 <= i < log.exporters.len() && (#[trigger] log.exporters[i]).id == id;
            assert(ids[i] == id);
        }
    }
    assert(ids.to_set() =~= exporter_ids(log));
    vstd::set_lib::lemma_len_subset(removed, registered);
    lemma_difference_len(registered, removed);
}

proof fn lemma_difference_len(all: Set<u64>, part: Set<u64>)
    requires
        all.finite(),
        part.subset_of(all),
    ensures
        all.difference(part).len() == all.len() - part.len(),
{
    vstd::set_lib::lemma_set_disjoint_lens(all.difference(part), part);
    assert(all.difference(part) + part =~= all);
}

/// A record says what was logged, bears the next number and stands last in the log; the log
/// keeps the records before it, but for the oldest of a full log. Every exporter that is
/// registered gets this very record.
pub proof fn law_record_says_what_was_logged(
    before: LoggerModel,
    after: LoggerModel,
    entry: LogEntry,
)
    requires
        before.ok(),
        logger::logged(before, after, entry),
    ensures
        ({
            let record = after.buffer[after.buffer.len() - 1];
            &&& after.buffer.len() > 0
            &&& record.level == entry.level
            &&& record.target@ == entry.target
            &&& record.message@ == entry.message
            &&& record.fiber_id == entry.fiber_id
            &&& record.plugin_key == entry.plugin_key
            &&& record.default_level == entry.default_level
            &&& record.seq == before.next_seq
            &&& after.next_seq == before.next_seq.wrapping_add(1)
            &&& before.buffer.len() < LOG_BUFFER_CAPACITY ==> after.buffer == before.buffer.push(
                record,
            )
            &&& before.buffer.len() == LOG_BUFFER_CAPACITY ==> after.buffer
                == before.buffer.skip(1).push(record)
            &&& forall|i: int|
                0 <= i < before.exporters.len() ==> (
                #[trigger] before.exporters[i]).exporter.received(record)
            &&& after.exporters == before.exporters
            &&& after.next_exporter == before.next_exporter
            &&& after.identity == before.identity
        }),
{
    assert(before.buffer.drop_first() =~= before.buffer.skip(1));
    assert forall|i: int| 0 <= i < before.exporters.len() implies (
    #[trigger] before.exporters[i]).exporter.received(after.buffer.last()) by {
        assert(after.exporters[i].exporter.received(after.buffer.last()));
    }
}

/// A logger writes under its own name, on behalf of its plugin and with its threshold.
pub proof fn law_logger_writes_under_its_name(
    logger: Logger,
    level: LogLevel,
    message: Seq<char>,
)
    ensures
        logger.entry(level, message).level == level,
        logger.entry(level, message).message == message,
        logger.entry(level, message).target == logger.target_spec(),
        logger.entry(level, message).fiber_id == logger.fiber_spec(),
        logger.entry(level, message).plugin_key == logger.plugin_spec(),
        logger.entry(level, message).default_level == logger.level_spec(),
{
}

/// Removing an exporter keeps the others in their order.
pub proof fn law_exporters_keep_their_order(log: LoggerModel, id: u64, i: int, j: int)
    requires
        log.ok(),
        0 <= i < j < log.exporters.len(),
        log.exporters[i].id != id,
        log.exporters[j].id != id,
    ensures
        exists|p: int, q: int|
            0 <= p < q < log.without_exporter(id).exporters.len()
                && log.without_exporter(id).exporters[p] == log.exporters[i]
                && log.without_exporter(id).exporters[q] == log.exporters[j],
{
    let kept = log.without_exporter(id).exporters;
    law_removed_exporter_is_left_out(log, id);
    let p = choose|p: int| 0 <= p < kept.len() && kept[p] == log.exporters[i];
    let q = choose|q: int| 0 <= q < kept.len() && kept[q] == log.exporters[j];
    lemma_kept_order(log.exporters, log.next_exporter, id);
    assert(log.exporters[i].id < log.exporters[j].id);
    if p > q {
        assert(kept[q].id < kept[p].id);
    }
    assert(p != q);
    assert(0 <= p < q < kept.len() && kept[p] == log.exporters[i] && kept[q] == log.exporters[j]);
}

proof fn lemma_kept_order(slots: Seq<ExporterSlot<Arc<dyn LogExporter>>>, next: u64, id: u64)
    requires
        logger::slots_ok(slots, next),
    ensures
        ({
            let kept = slots.filter(|slot: ExporterSlot<Arc<dyn LogExporter>>| slot.id != id);
            forall|i: int, j: int|
                0 <= i < j < kept.len() ==> (#[trigger] kept[i]).id < (#[trigger] kept[j]).id
        }),
{
    logger::lemma_kept_ok(slots, next, id);
}

/// The log keeps the last thousand records: whatever was written before them is given up, and
/// nothing else is.
pub proof fn law_log_keeps_a_thousand(log: LoggerModel, records: Seq<LogRecord>)
    requires
        log.ok(),
    ensures
        ({
            let all = log.buffer + records;
            let kept = written_all(log, records).buffer;
            &&& kept.len() <= 1000
            &&& all.len() <= 1000 ==> kept == all
            &&& all.len() > 1000 ==> kept.len() == 1000 && kept == all.skip(all.len() - 1000)
        }),
{
    law_log_keeps_the_latest(log, records);
}

/// The entry for loggers has the name that all views look it up under.
pub proof fn law_logger_entry_name()
    ensures
        LOGGER_CONFIG_ID@ == "cordis.logger.config@1"@,
{
}

} // verus!
