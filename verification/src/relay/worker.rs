//! The single consumer of the print queue, and the frames the relay sends.
//!
//! One worker, so tickets reach the spooler in the order the server sent them.
//! A job goes through two steps: [`PrintWorker::take`], which claims it on disk
//! and says whether there is anything to print, and [`PrintWorker::complete`],
//! which records what came of it. Nothing prints before the first has said so.
//! In between, [`print_copies`] hands the copies to the spooler.

use vstd::prelude::*;
use vstd::string::*;

use crate::codec::{base64_bytes, decode_base64};
use crate::config::MAX_PRINT_BYTES;
use crate::engineio::{event_packet, event_packet_text};
use crate::error::{error_text, joined, BridgeError, BridgeResult};
use crate::job_ledger::{
    answer, claim_entry, history, kept, law_a_job_is_granted_at_most_once_a_day, may_record,
    outcome_entry, recorded, within_a_day, Claim, ClaimView, EntryView, JobLedger, JobState,
    LedgerView, Operation, Stored,
};
use crate::json::{
    found_under, json_quoted, lemma_texts_tree, object_text, readable,
    strings_json, text_tree, texts_tree, tree_members, tree_text, Json, Tree,
};
use crate::relay::{
    bool_json, nullable_json, PrintJob, PrintJobView, RelayHandle,
    RelayStatusView, EV_PRINT_RESULT, EV_STATION_HELLO, NAMESPACE,
};
use crate::text;
use crate::text::{blank, decimal, text_opt, texts, trim};

verus! {

// ── Frames ──────────────────────────────────────────────────────────────

/// The frame that acks a job.
pub open spec fn ack_text(id: Seq<char>, ok: bool, error: Option<Seq<char>>) -> Seq<char> {
    event_packet_text(
        NAMESPACE@,
        EV_PRINT_RESULT@,
        object_text(
            seq![
                ("error"@, nullable_json(error)),
                ("jobId"@, json_quoted(id)),
                ("ok"@, bool_json(ok)),
            ],
        ),
    )
}

/// The `print-result` of a job.
pub fn ack_frame(job_id: &str, ok: bool, error: &Option<String>) -> (r: String)
    ensures
        r@ == ack_text(job_id@, ok, text_opt(*error)),
{
    let mut members: Vec<(String, Json)> = Vec::new();
    members.push(("error".to_string(), Json::string_or_null(error)));
    members.push(("jobId".to_string(), Json::string(job_id)));
    members.push(("ok".to_string(), Json::boolean(ok)));
    assert(members@.map_values(|m: (String, Json)| (m.0@, m.1@)) =~= seq![
        ("error"@, nullable_json(text_opt(*error))),
        ("jobId"@, json_quoted(job_id@)),
        ("ok"@, bool_json(ok)),
    ]);
    event_packet(NAMESPACE, EV_PRINT_RESULT, &Json::object(&members))
}

/// The frame that announces a station.
pub open spec fn hello_text(
    version: Seq<char>,
    os: Seq<char>,
    printers: Seq<Seq<char>>,
) -> Seq<char> {
    event_packet_text(
        NAMESPACE@,
        EV_STATION_HELLO@,
        object_text(
            seq![
                ("bridgeVersion"@, json_quoted(version)),
                ("os"@, json_quoted(os)),
                ("printers"@, strings_json(printers)),
            ],
        ),
    )
}

/// The `station-hello` of a station with these printers.
pub fn hello_frame(version: &str, os: &str, printers: &Vec<String>) -> (r: String)
    ensures
        r@ == hello_text(version@, os@, texts(printers@)),
{
    let mut members: Vec<(String, Json)> = Vec::new();
    members.push(("bridgeVersion".to_string(), Json::string(version)));
    members.push(("os".to_string(), Json::string(os)));
    members.push(("printers".to_string(), Json::strings(printers)));
    assert(members@.map_values(|m: (String, Json)| (m.0@, m.1@)) =~= seq![
        ("bridgeVersion"@, json_quoted(version@)),
        ("os"@, json_quoted(os@)),
        ("printers"@, strings_json(texts(printers@))),
    ]);
    event_packet(NAMESPACE, EV_STATION_HELLO, &Json::object(&members))
}

// ── The printers that are announced ─────────────────────────────────────

/// The printer list the presence beat announces, and the last one that could be
/// read. It outlives the connections: the first beat after a reconnect must not
/// announce that there are no printers because the spooler is slow.
#[derive(Debug)]
pub struct PrinterBeat {
    last_known: Vec<String>,
}

impl View for PrinterBeat {
    type V = Seq<Seq<char>>;

    closed spec fn view(&self) -> Seq<Seq<char>> {
        texts(self.last_known@)
    }
}

/// The list to announce: the one that was read, or the last known one.
pub open spec fn printers_to_announce(
    previous: Seq<Seq<char>>,
    read: BridgeResult<Vec<String>>,
) -> Seq<Seq<char>> {
    match read {
        Ok(printers) => texts(printers@),
        Err(_) => previous,
    }
}

/// The list for the next `station-hello`: the one the spooler gave, or, where it
/// failed or did not answer in time, the one there was.
pub fn printers_or_last_known(
    previous: Vec<String>,
    read: BridgeResult<Vec<String>>,
) -> (r: Vec<String>)
    ensures
        texts(r@) == printers_to_announce(texts(previous@), read),
{
    match read {
        Ok(printers) => printers,
        Err(_) => previous,
    }
}

impl PrinterBeat {
    /// Before the first beat.
    pub fn new() -> (r: PrinterBeat)
        ensures
            r@ == Seq::<Seq<char>>::empty(),
    {
        let r = PrinterBeat { last_known: Vec::new() };
        assert(texts(r.last_known@) =~= Seq::<Seq<char>>::empty());
        r
    }

    /// The last list read successfully, empty only before the first one.
    pub fn snapshot(&self) -> (r: Vec<String>)
        ensures
            texts(r@) == self@,
    {
        text::copy_list(&self.last_known)
    }

    /// Takes what the spooler answered, and gives the list to announce.
    pub fn refresh(&mut self, read: BridgeResult<Vec<String>>) -> (r: Vec<String>)
        ensures
            texts(r@) == printers_to_announce(old(self)@, read),
            final(self)@ == texts(r@),
    {
        let current: Vec<String> = printers_or_last_known(self.snapshot(), read);
        self.last_known = text::copy_list(&current);
        current
    }
}

// ── What a job prints ───────────────────────────────────────────────────

/// The printer a job goes to: the one it names, without the white space around
/// it, or the default one where it names none.
pub open spec fn target_of(named: Option<Seq<char>>, default: Option<Seq<char>>) -> Option<Seq<char>> {
    match named {
        Some(n) => if blank(n) {
            default
        } else {
            Some(trim(n))
        },
        None => default,
    }
}

/// How many times a job prints: as many as it asks for, at least once and at
/// most ten times.
pub open spec fn copies_to_print(copies: u32) -> u32 {
    if copies < 1 {
        1
    } else if copies > 10 {
        10
    } else {
        copies
    }
}

/// What is to be printed.
#[derive(Debug)]
pub struct Delivery {
    pub job_id: String,
    pub printer: String,
    pub bytes: Vec<u8>,
    pub copies: u32,
}

/// What is to be printed.
pub struct DeliveryView {
    pub id: Seq<char>,
    pub printer: Seq<char>,
    pub bytes: Seq<u8>,
    pub copies: u32,
}

impl View for Delivery {
    type V = DeliveryView;

    open spec fn view(&self) -> DeliveryView {
        DeliveryView {
            id: self.job_id@,
            printer: self.printer@,
            bytes: self.bytes@,
            copies: self.copies,
        }
    }
}

/// What a job prints, once its bytes have been decoded, or why it cannot.
pub open spec fn delivery_of(
    job: PrintJobView,
    default: Option<Seq<char>>,
    decoded: Result<Seq<u8>, Seq<char>>,
) -> Result<DeliveryView, Seq<char>> {
    match target_of(job.printer, default) {
        None => Err(
            "El trabajo no trae nombre de impresora y esta estación no tiene una por defecto."@,
        ),
        Some(printer) => match decoded {
            Err(e) => Err("los bytes del ticket no son base64 válido: "@ + e),
            Ok(bytes) => if bytes.len() > MAX_PRINT_BYTES {
                Err(
                    "el ticket pesa "@ + decimal(bytes.len())
                        + " bytes, por encima del máximo de "@ + decimal(MAX_PRINT_BYTES as nat),
                )
            } else {
                Ok(
                    DeliveryView {
                        id: job.id,
                        printer,
                        bytes,
                        copies: copies_to_print(job.copies),
                    },
                )
            },
        },
    }
}

/// The view of what a job prints.
pub open spec fn delivery_view(d: Result<Delivery, String>) -> Result<DeliveryView, Seq<char>> {
    match d {
        Ok(d) => Ok(d@),
        Err(e) => Err(e@),
    }
}

/// The view of decoded bytes.
pub open spec fn decoded_view(d: Result<Vec<u8>, String>) -> Result<Seq<u8>, Seq<char>> {
    match d {
        Ok(b) => Ok(b@),
        Err(e) => Err(e@),
    }
}

/// The printer a job goes to.
pub fn target(named: &Option<String>, default: &Option<String>) -> (r: Option<String>)
    ensures
        text_opt(r) == target_of(text_opt(*named), text_opt(*default)),
{
    match named {
        Some(n) => {
            if text::is_blank(n.as_str()) {
                text::copy_opt(default)
            } else {
                Some(text::trimmed(n.as_str()).to_string())
            }
        },
        None => text::copy_opt(default),
    }
}

/// What a job prints, once its bytes have been decoded.
pub fn delivery(
    job: &PrintJob,
    default: &Option<String>,
    decoded: Result<Vec<u8>, String>,
) -> (r: Result<Delivery, String>)
    ensures
        delivery_view(r) == delivery_of(job@, text_opt(*default), decoded_view(decoded)),
{
    let printer: String = match target(&job.os_printer_name, default) {
        Some(p) => p,
        None => {
            return Err(
                "El trabajo no trae nombre de impresora y esta estación no tiene una por defecto.".to_string(),
            );
        },
    };
    match decoded {
        Err(e) => Err(joined("los bytes del ticket no son base64 válido: ", e.as_str())),
        Ok(bytes) => {
            if bytes.len() > MAX_PRINT_BYTES {
                let mut m = joined("el ticket pesa ", text::number(bytes.len() as u64).as_str());
                m.append(" bytes, por encima del máximo de ");
                m.append(text::number(MAX_PRINT_BYTES as u64).as_str());
                Err(m)
            } else {
                let copies: u32 = if job.copies < 1 {
                    1
                } else if job.copies > 10 {
                    10
                } else {
                    job.copies
                };
                Ok(Delivery { job_id: job.job_id.clone(), printer, bytes, copies })
            }
        },
    }
}

/// What a job prints: resolves the printer and decodes the bytes.
pub fn deliver(job: &PrintJob, default: &Option<String>) -> (r: Result<Delivery, String>)
    ensures
        delivery_view(r) == delivery_of(
            job@,
            text_opt(*default),
            base64_bytes(job@.escpos),
        ),
{
    delivery(job, default, decode_base64(job.escpos_base64.as_str()))
}

/// The call of the spooler `print` was handed these bytes for this printer, and
/// answered `outcome`.
pub open spec fn answered<P: FnOnce(&str, &Vec<u8>) -> BridgeResult<u32>>(
    print: P,
    printer: Seq<char>,
    bytes: Seq<u8>,
    outcome: BridgeResult<u32>,
) -> bool {
    exists|p: &str, b: &Vec<u8>|
        p@ == printer && b@ == bytes && #[trigger] print.ensures((p, b), outcome)
}

/// The call `k` may be made: it is the first, or the one before it worked.
pub open spec fn its_turn<P: FnOnce(&str, &Vec<u8>) -> BridgeResult<u32>>(
    d: DeliveryView,
    calls: Seq<P>,
    k: int,
) -> bool {
    k == 0 || exists|outcome: BridgeResult<u32>|
        outcome is Ok && #[trigger] answered(calls[k - 1], d.printer, d.bytes, outcome)
}

/// How printing a delivery goes, where `outcomes` is what the spooler answered:
/// one call after the other is made until one fails, and the reason of that one
/// is the reason of the whole.
pub open spec fn copies_printed<P: FnOnce(&str, &Vec<u8>) -> BridgeResult<u32>>(
    d: DeliveryView,
    calls: Seq<P>,
    outcomes: Seq<BridgeResult<u32>>,
    r: Result<(), String>,
) -> bool {
    &&& outcomes.len() <= calls.len()
    &&& forall|i: int|
        0 <= i < outcomes.len() ==> answered(calls[i], d.printer, d.bytes, #[trigger] outcomes[i])
    &&& match r {
        Ok(_) => outcomes.len() == calls.len() && forall|i: int|
            0 <= i < outcomes.len() ==> #[trigger] outcomes[i] is Ok,
        Err(reason) => {
            &&& outcomes.len() > 0
            &&& forall|i: int| 0 <= i < outcomes.len() - 1 ==> #[trigger] outcomes[i] is Ok
            &&& outcomes.last() matches Err(e) && reason@ == error_text(e)
        },
    }
}

/// Hands a delivery to the spooler. `calls` holds one call of it for each copy,
/// so no copy prints twice; and the first that fails ends it, so none prints
/// after a failure.
pub fn print_copies<P: FnOnce(&str, &Vec<u8>) -> BridgeResult<u32>>(
    d: &Delivery,
    calls: Vec<P>,
) -> (r: Result<(), String>)
    requires
        calls@.len() == d@.copies,
        forall|k: int, p: &str, b: &Vec<u8>|
            0 <= k < calls@.len() && p@ == d@.printer && b@ == d@.bytes && its_turn(d@, calls@, k)
                ==> #[trigger] calls@[k].requires((p, b)),
    ensures
        exists|outcomes: Seq<BridgeResult<u32>>| #[trigger]
            copies_printed(d@, calls@, outcomes, r),
{
    let ghost all = calls@;
    let ghost mut outcomes: Seq<BridgeResult<u32>> = Seq::empty();
    let mut left: Vec<P> = calls;
    assert(all.skip(0) =~= all);
    while left.len() > 0
        invariant
            all == calls@,
            outcomes.len() <= all.len(),
            left@ == all.skip(outcomes.len() as int),
            forall|k: int, p: &str, b: &Vec<u8>|
                0 <= k < all.len() && p@ == d@.printer && b@ == d@.bytes && its_turn(d@, all, k)
                    ==> #[trigger] all[k].requires((p, b)),
            forall|i: int| 0 <= i < outcomes.len() ==> #[trigger] outcomes[i] is Ok,
            forall|i: int|
                0 <= i < outcomes.len() ==> answered(
                    all[i],
                    d@.printer,
                    d@.bytes,
                    #[trigger] outcomes[i],
                ),
        decreases left.len(),
    {
        let ghost k = outcomes.len() as int;
        let call: P = left.remove(0);
        proof {
            assert(call == all[k]);
            assert(left@ =~= all.skip(k + 1));
            if k > 0 {
                assert(outcomes[k - 1] is Ok);
                assert(answered(all[k - 1], d@.printer, d@.bytes, outcomes[k - 1]));
            }
            assert(its_turn(d@, all, k));
        }
        let outcome = call(d.printer.as_str(), &d.bytes);
        proof {
            assert(answered(all[k], d@.printer, d@.bytes, outcome));
            outcomes = outcomes.push(outcome);
        }
        match outcome {
            Ok(_) => {},
            Err(e) => {
                let r: Result<(), String> = Err(e.message());
                assert(copies_printed(d@, all, outcomes, r));
                return r;
            },
        }
    }
    let r: Result<(), String> = Ok(());
    assert(copies_printed(d@, all, outcomes, r));
    r
}

// ── The worker ──────────────────────────────────────────────────────────

/// How many jobs this process has printed, and how many have failed.
#[derive(Debug)]
pub struct PrintWorker {
    printed: u64,
    failed: u64,
}

/// What to do with a job.
#[derive(Debug)]
pub enum Taken {
    /// Nothing to print: send this ack.
    Ack(String),
    /// Print this, then complete the job with what came of it.
    Print(Delivery),
    /// It cannot be printed, for this reason: complete the job with it.
    Refuse { job_id: String, reason: String },
}

/// The sentence for a job that could not be recorded.
pub open spec fn unrecorded_text(e: BridgeError) -> Seq<char> {
    "El bridge no pudo registrar el trabajo antes de imprimirlo ("@ + error_text(e)
        + "); no se imprimió para evitar duplicados."@
}

/// The sentence for a job that a crash interrupted.
pub open spec fn interrupted_text() -> Seq<char> {
    "El bridge se reinició mientras se imprimía este trabajo. No se reimprimió solo, para no duplicarlo: revisa la impresora y reimprime desde Ventas si hace falta."@
}

/// The ack for a job that was seen before.
pub open spec fn repeat_ack(id: Seq<char>, claim: ClaimView) -> Seq<char> {
    match claim {
        ClaimView::AlreadyDone { ok, error } => ack_text(id, ok, error),
        _ => ack_text(id, false, Some(interrupted_text())),
    }
}

/// What to do with a job whose claim was granted.
pub open spec fn granted(taken: Taken, id: Seq<char>, plan: Result<DeliveryView, Seq<char>>) -> bool {
    match plan {
        Ok(d) => taken matches Taken::Print(p) && p@ == d,
        Err(e) => taken matches Taken::Refuse { job_id, reason } && job_id@ == id && reason@ == e,
    }
}

/// A job is only handed on to be printed where its claim is fresh, and on disk.
pub open spec fn handed_on(
    jobs: Map<Seq<char>, EntryView>,
    id: Seq<char>,
    done: bool,
    taken: Taken,
) -> bool {
    !(taken is Ack) ==> answer(jobs, id) is Fresh && done
}

impl PrintWorker {
    pub closed spec fn printed_view(&self) -> u64 {
        self.printed
    }

    pub closed spec fn failed_view(&self) -> u64 {
        self.failed
    }

    /// A worker that has done nothing yet.
    pub fn new() -> (r: PrintWorker)
        ensures
            r.printed_view() == 0,
            r.failed_view() == 0,
    {
        PrintWorker { printed: 0, failed: 0 }
    }

    /// Takes a job off the queue.
    ///
    /// The claim is written BEFORE a single byte reaches the spooler. A job that
    /// was seen before is acked again without printing; a job that cannot be
    /// recorded is not printed, because nobody can tell whether it already was:
    /// a silent duplicate is worse than a missing ticket that says so.
    pub fn take(
        &self,
        ledger: &mut JobLedger,
        job: &PrintJob,
        default_printer: &Option<String>,
        now: u64,
        append: impl FnOnce(&str) -> BridgeResult<()>,
        rewrite: impl FnOnce(&str) -> BridgeResult<()>,
    ) -> (r: Taken)
        requires
            old(ledger).wf(),
            answer(old(ledger)@.jobs, job@.id) is Fresh ==> may_record(
                old(ledger)@,
                claim_entry(job@.id, now),
                now,
                append,
                rewrite,
            ),
        ensures
            final(ledger).wf(),
            if answer(old(ledger)@.jobs, job@.id) is Fresh {
                exists|done: BridgeResult<()>|
                    {
                        &&& #[trigger] recorded(
                            old(ledger)@,
                            final(ledger)@,
                            claim_entry(job@.id, now),
                            now,
                            append,
                            rewrite,
                            done,
                        )
                        &&& handed_on(old(ledger)@.jobs, job@.id, done is Ok, r)
                        &&& match done {
                            Ok(_) => granted(
                                r,
                                job@.id,
                                delivery_of(
                                    job@,
                                    text_opt(*default_printer),
                                    base64_bytes(job@.escpos),
                                ),
                            ),
                            Err(e) => r matches Taken::Ack(f) && f@ == ack_text(
                                job@.id,
                                false,
                                Some(unrecorded_text(e)),
                            ),
                        }
                    }
            } else {
                &&& final(ledger)@ == old(ledger)@
                &&& handed_on(old(ledger)@.jobs, job@.id, true, r)
                &&& r matches Taken::Ack(f) && f@ == repeat_ack(
                    job@.id,
                    answer(old(ledger)@.jobs, job@.id),
                )
            },
            !(r is Ack) ==> answer(final(ledger)@.jobs, job@.id) is Interrupted,
    {
        let id: &str = job.job_id.as_str();
        match ledger.claim(id, now, append, rewrite) {
            Err(e) => {
                let mut m = joined(
                    "El bridge no pudo registrar el trabajo antes de imprimirlo (",
                    e.message().as_str(),
                );
                m.append("); no se imprimió para evitar duplicados.");
                Taken::Ack(ack_frame(id, false, &Some(m)))
            },
            Ok(Claim::AlreadyDone { ok, error }) => Taken::Ack(ack_frame(id, ok, &error)),
            Ok(Claim::Interrupted) => Taken::Ack(
                ack_frame(
                    id,
                    false,
                    &Some(
                        "El bridge se reinició mientras se imprimía este trabajo. No se reimprimió solo, para no duplicarlo: revisa la impresora y reimprime desde Ventas si hace falta.".to_string(),
                    ),
                ),
            ),
            Ok(Claim::Fresh) => match deliver(job, default_printer) {
                Ok(d) => Taken::Print(d),
                Err(reason) => Taken::Refuse { job_id: job.job_id.clone(), reason },
            },
        }
    }

    /// Records what came of a job whose claim was granted, counts it, and gives
    /// the ack to send. If the outcome cannot be recorded the job stays claimed,
    /// and the ack still goes out.
    pub fn complete(
        &mut self,
        ledger: &mut JobLedger,
        job_id: &str,
        outcome: Result<(), String>,
        now: u64,
        append: impl FnOnce(&str) -> BridgeResult<()>,
        rewrite: impl FnOnce(&str) -> BridgeResult<()>,
    ) -> (r: String)
        requires
            old(ledger).wf(),
            may_record(
                old(ledger)@,
                outcome_entry(job_id@, outcome is Ok, failure_of(outcome), now),
                now,
                append,
                rewrite,
            ),
        ensures
            final(ledger).wf(),
            exists|done: BridgeResult<()>| #[trigger]
                recorded(
                    old(ledger)@,
                    final(ledger)@,
                    outcome_entry(job_id@, outcome is Ok, failure_of(outcome), now),
                    now,
                    append,
                    rewrite,
                    done,
                ),
            final(self).printed_view() == (if outcome is Ok {
                old(self).printed_view().wrapping_add(1)
            } else {
                old(self).printed_view()
            }),
            final(self).failed_view() == (if outcome is Ok {
                old(self).failed_view()
            } else {
                old(self).failed_view().wrapping_add(1)
            }),
            r@ == ack_text(job_id@, outcome is Ok, failure_of(outcome)),
    {
        let ok: bool = outcome.is_ok();
        let error: Option<String> = match outcome {
            Ok(_) => None,
            Err(e) => Some(e),
        };
        let done = ledger.finish(job_id, ok, text::copy_opt(&error), now, append, rewrite);
        assert(recorded(
            old(ledger)@,
            ledger@,
            outcome_entry(job_id@, ok, text_opt(error), now),
            now,
            append,
            rewrite,
            done,
        ));
        if ok {
            self.printed = self.printed.wrapping_add(1);
        } else {
            self.failed = self.failed.wrapping_add(1);
        }
        ack_frame(job_id, ok, &error)
    }

    /// Shows what has been counted.
    pub fn report(&self, relay: &mut RelayHandle)
        ensures
            final(relay)@ == (RelayStatusView {
                jobs_printed: self.printed_view(),
                jobs_failed: self.failed_view(),
                ..old(relay)@
            }),
    {
        relay.count(self.printed, self.failed);
    }
}

/// The reason of a failure.
pub open spec fn failure_of(outcome: Result<(), String>) -> Option<Seq<char>> {
    match outcome {
        Ok(_) => None,
        Err(e) => Some(e@),
    }
}

// ── Laws ────────────────────────────────────────────────────────────────

/// A job prints at least once and at most ten times, whatever it asks for, and
/// never more bytes than the limit.
pub proof fn law_a_delivery_is_bounded(
    job: PrintJobView,
    default: Option<Seq<char>>,
    decoded: Result<Seq<u8>, Seq<char>>,
)
    ensures
        delivery_of(job, default, decoded) matches Ok(d) ==> 1 <= d.copies <= 10 && d.bytes.len()
            <= MAX_PRINT_BYTES && decoded == Ok::<Seq<u8>, Seq<char>>(d.bytes) && d.id == job.id,
{
}

/// A job is printed at most once a day, over any number of runs of the bridge on
/// one file: of all the times that it is taken, at most one hands it on.
pub proof fn law_a_job_is_printed_at_most_once_a_day(
    states: Seq<Stored>,
    ops: Seq<Operation>,
    id: Seq<char>,
    start: u64,
    i: int,
    j: int,
    first: Taken,
    second: Taken,
)
    requires
        history(states, ops),
        kept(states[0]),
        within_a_day(ops, start),
        0 <= i < ops.len() && 0 <= j < ops.len(),
        ops[i] matches Operation::Claim { id: claimed, done, .. } && claimed == id && handed_on(
            states[i].jobs,
            id,
            done,
            first,
        ),
        ops[j] matches Operation::Claim { id: claimed, done, .. } && claimed == id && handed_on(
            states[j].jobs,
            id,
            done,
            second,
        ),
        !(first is Ack) && !(second is Ack),
    ensures
        i == j,
{
    law_a_job_is_granted_at_most_once_a_day(states, ops, id, start, i, j);
}

/// A printer list that was read once survives every beat in which the spooler
/// does not answer, however many there are.
pub proof fn law_a_printer_list_survives_a_silent_spooler(
    known: Seq<Seq<char>>,
    beats: Seq<BridgeResult<Vec<String>>>,
)
    requires
        forall|i: int| 0 <= i < beats.len() ==> #[trigger] beats[i] is Err,
    ensures
        announced_after(known, beats) == known,
    decreases beats.len(),
{
    if beats.len() > 0 {
        law_a_printer_list_survives_a_silent_spooler(known, beats.drop_last());
        assert(beats.last() is Err);
    }
}

/// The list that is announced after a run of beats.
pub open spec fn announced_after(
    known: Seq<Seq<char>>,
    beats: Seq<BridgeResult<Vec<String>>>,
) -> Seq<Seq<char>>
    decreases beats.len(),
{
    if beats.len() == 0 {
        known
    } else {
        printers_to_announce(announced_after(known, beats.drop_last()), beats.last())
    }
}

/// What a reader finds in the ack of a job: that it is the outcome of this job,
/// whether it was printed, and the reason where there is one. The frame is an
/// event that is read back as it was written.
pub proof fn law_an_ack_says_what_came_of_the_job(id: Seq<char>, ok: bool, error: Option<Seq<char>>)
    ensures
        exists|members: Seq<(Seq<char>, Tree)>|
            {
                &&& members.len() == 3
                &&& found_under(members, "jobId"@) == Some(Tree::Text(id))
                &&& found_under(members, "ok"@) == Some(Tree::Boolean(ok))
                &&& found_under(members, "error"@) == Some(text_tree(error))
                &&& readable(Tree::Record(members), 99)
                &&& ack_text(id, ok, error) == event_packet_text(
                    "/print"@,
                    "print-result"@,
                    #[trigger] tree_text(Tree::Record(members)),
                )
            },
{
    reveal_strlit("jobId");
    reveal_strlit("ok");
    reveal_strlit("error");
    reveal_strlit("$serde_json::private::RawValue");
    assert("error"@[0] == 'e' && "jobId"@[0] == 'j' && "ok"@[0] == 'o');
    assert("$serde_json::private::RawValue"@[0] == '$');
    let members = seq![
        ("error"@, text_tree(error)),
        ("jobId"@, Tree::Text(id)),
        ("ok"@, Tree::Boolean(ok)),
    ];
    reveal_with_fuel(found_under, 4);
    reveal_with_fuel(readable, 2);
    assert(members.drop_last() =~= seq![("error"@, text_tree(error)), ("jobId"@, Tree::Text(id))]);
    assert(members.drop_last().drop_last() =~= seq![("error"@, text_tree(error))]);
    assert(tree_members(members) =~= seq![
        ("error"@, nullable_json(error)),
        ("jobId"@, json_quoted(id)),
        ("ok"@, bool_json(ok)),
    ]);
    assert(readable(Tree::Record(members), 99));
    assert(ack_text(id, ok, error) == event_packet_text(
        "/print"@,
        "print-result"@,
        tree_text(Tree::Record(members)),
    ));
}

/// A job that is taken again is acked with its true outcome: as printed exactly
/// where the ledger holds it as printed, as failed with the recorded reason where
/// it holds it as failed, and as failed where nothing was recorded but the claim.
pub proof fn law_a_repeat_is_acked_with_the_true_outcome(
    jobs: Map<Seq<char>, EntryView>,
    id: Seq<char>,
)
    requires
        jobs.dom().contains(id),
    ensures
        jobs[id].state == JobState::Printed ==> repeat_ack(id, answer(jobs, id)) == ack_text(
            id,
            true,
            None,
        ),
        jobs[id].state == JobState::Failed ==> repeat_ack(id, answer(jobs, id)) == ack_text(
            id,
            false,
            jobs[id].error,
        ),
        jobs[id].state == JobState::Claimed ==> exists|reason: Seq<char>|
            repeat_ack(id, answer(jobs, id)) == #[trigger] ack_text(id, false, Some(reason)),
{
    assert(repeat_ack(id, ClaimView::Interrupted) == ack_text(
        id,
        false,
        Some(interrupted_text()),
    ));
}

/// Taking a job again gives the ack that completing it gave, once the outcome is
/// recorded: two calls, one frame. A reason is kept as far as the ledger keeps
/// it.
pub proof fn law_a_repeat_is_acked_as_the_completion_was<
    A: FnOnce(&str) -> BridgeResult<()>,
    R: FnOnce(&str) -> BridgeResult<()>,
>(
    before: LedgerView,
    after: LedgerView,
    id: Seq<char>,
    outcome: Result<(), String>,
    now: u64,
    append: A,
    rewrite: R,
    r: BridgeResult<()>,
)
    requires
        recorded(
            before,
            after,
            outcome_entry(id, outcome is Ok, failure_of(outcome), now),
            now,
            append,
            rewrite,
            r,
        ),
        r is Ok,
        outcome matches Err(reason) ==> reason@.len() <= 500,
    ensures
        !(answer(after.jobs, id) is Fresh),
        match outcome {
            Ok(_) => repeat_ack(id, answer(after.jobs, id)) == ack_text(id, true, None),
            Err(reason) => repeat_ack(id, answer(after.jobs, id)) == ack_text(
                id,
                false,
                Some(reason@),
            ),
        },
        repeat_ack(id, answer(after.jobs, id)) == ack_text(
            id,
            outcome is Ok,
            failure_of(outcome),
        ),
{
    if let Err(reason) = outcome {
        assert(reason@.take(reason@.len() as int) =~= reason@);
    }
}

/// What is printed is what the job says: its bytes, under its id, as often as it
/// asks for between once and ten times, on the printer that it names, or on the
/// default one where it names none.
pub proof fn law_a_delivery_is_what_the_job_says(
    job: PrintJob,
    default: Option<Seq<char>>,
    decoded: Result<Seq<u8>, Seq<char>>,
)
    ensures
        delivery_of(job@, default, decoded) matches Ok(d) ==> {
            &&& d.id == job.job_id@
            &&& decoded == Ok::<Seq<u8>, Seq<char>>(d.bytes)
            &&& 1 <= job.copies <= 10 ==> d.copies == job.copies
            &&& job.copies < 1 ==> d.copies == 1
            &&& job.copies > 10 ==> d.copies == 10
            &&& match job.os_printer_name {
                Some(name) => if blank(name@) {
                    default == Some(d.printer)
                } else {
                    d.printer == trim(name@)
                },
                None => default == Some(d.printer),
            }
        },
{
}

/// A job is printed wherever it can be: it is refused only where there is no
/// printer for it, where its bytes are no base64, or where they are too many; and
/// the refusal of bad base64 passes on why.
pub proof fn law_a_job_is_refused_only_for_a_reason(
    job: PrintJob,
    default: Option<Seq<char>>,
    decoded: Result<Seq<u8>, Seq<char>>,
)
    ensures
        ({
            let nameless = default is None && (job.os_printer_name matches Some(name) ==> blank(
                name@,
            ));
            let r = delivery_of(job@, default, decoded);
            &&& r is Err <==> nameless || decoded is Err || decoded->Ok_0.len() > 1_048_576
            &&& !nameless && decoded is Err ==> (r matches Err(m) && exists|head: Seq<char>|
                m == #[trigger] (head + decoded->Err_0))
        }),
{
    let head = "los bytes del ticket no son base64 válido: "@;
    if decoded is Err {
        assert(head + decoded->Err_0 == head + decoded->Err_0);
    }
}

/// Every printer that the spooler lists is announced, in its order and under its
/// name; and where the spooler does not answer, what was known stays.
pub proof fn law_every_printer_is_announced(
    previous: Seq<Seq<char>>,
    read: BridgeResult<Vec<String>>,
)
    ensures
        match read {
            Ok(list) => {
                &&& printers_to_announce(previous, read).len() == list@.len()
                &&& forall|i: int|
                    0 <= i < list@.len() ==> (#[trigger] printers_to_announce(previous, read)[i])
                        == list@[i]@
            },
            Err(_) => printers_to_announce(previous, read) == previous,
        },
{
}

/// What a reader finds in the frame that announces a station: its version, its
/// system, and each of its printers.
pub proof fn law_a_hello_says_what_the_station_has(
    version: Seq<char>,
    os: Seq<char>,
    printers: Seq<Seq<char>>,
)
    ensures
        exists|members: Seq<(Seq<char>, Tree)>|
            {
                &&& members.len() == 3
                &&& found_under(members, "bridgeVersion"@) == Some(Tree::Text(version))
                &&& found_under(members, "os"@) == Some(Tree::Text(os))
                &&& found_under(members, "printers"@) == Some(texts_tree(printers))
                &&& readable(Tree::Record(members), 99)
                &&& hello_text(version, os, printers) == event_packet_text(
                    "/print"@,
                    "station-hello"@,
                    #[trigger] tree_text(Tree::Record(members)),
                )
            },
{
    reveal_strlit("bridgeVersion");
    reveal_strlit("os");
    reveal_strlit("printers");
    reveal_strlit("$serde_json::private::RawValue");
    assert("bridgeVersion"@[0] == 'b' && "os"@[0] == 'o' && "printers"@[0] == 'p');
    assert("$serde_json::private::RawValue"@[0] == '$');
    let members = seq![
        ("bridgeVersion"@, Tree::Text(version)),
        ("os"@, Tree::Text(os)),
        ("printers"@, texts_tree(printers)),
    ];
    lemma_texts_tree(printers);
    reveal_with_fuel(found_under, 4);
    reveal_with_fuel(readable, 2);
    assert(members.drop_last() =~= seq![
        ("bridgeVersion"@, Tree::Text(version)),
        ("os"@, Tree::Text(os)),
    ]);
    assert(members.drop_last().drop_last() =~= seq![("bridgeVersion"@, Tree::Text(version))]);
    assert(tree_members(members) =~= seq![
        ("bridgeVersion"@, json_quoted(version)),
        ("os"@, json_quoted(os)),
        ("printers"@, strings_json(printers)),
    ]);
    assert(readable(texts_tree(printers), 98));
    assert(readable(Tree::Record(members), 99));
    assert(hello_text(version, os, printers) == event_packet_text(
        "/print"@,
        "station-hello"@,
        tree_text(Tree::Record(members)),
    ));
}

/// A delivery means what it holds, field by field.
pub proof fn law_a_delivery_means_what_it_holds(d: Delivery)
    ensures
        d@.id == d.job_id@ && d@.printer == d.printer@ && d@.bytes == d.bytes@ && d@.copies
            == d.copies,
{
}

/// A job whose claim was granted is printed as planned, or refused with the reason of
/// the plan.
pub proof fn law_a_granted_job_goes_as_planned(
    taken: Taken,
    id: Seq<char>,
    plan: Result<DeliveryView, Seq<char>>,
)
    requires
        granted(taken, id, plan),
    ensures
        match taken {
            Taken::Print(d) => {
                &&& plan matches Ok(p)
                &&& d.job_id@ == p.id && d.printer@ == p.printer && d.bytes@ == p.bytes && d.copies
                    == p.copies
            },
            Taken::Refuse { job_id, reason } => job_id@ == id && plan == Err::<
                DeliveryView,
                Seq<char>,
            >(reason@),
            Taken::Ack(_) => false,
        },
{
}

/// A job that cannot be recorded is acked with why.
pub proof fn law_a_job_that_cannot_be_recorded_says_why(e: BridgeError)
    ensures
        exists|head: Seq<char>, end: Seq<char>|
            unrecorded_text(e) == #[trigger] (head + error_text(e) + end),
{
    let head = "El bridge no pudo registrar el trabajo antes de imprimirlo ("@;
    let end = "); no se imprimió para evitar duplicados."@;
    assert(unrecorded_text(e) == head + error_text(e) + end);
}

/// A delivery is printed whole or has failed: it is done only where every call was
/// made and worked, and a failure is that of the last call that was made, after
/// which none was.
pub proof fn law_a_delivery_is_printed_whole_or_has_failed<
    P: FnOnce(&str, &Vec<u8>) -> BridgeResult<u32>,
>(
    d: DeliveryView,
    calls: Seq<P>,
    outcomes: Seq<BridgeResult<u32>>,
    r: Result<(), String>,
)
    requires
        copies_printed(d, calls, outcomes, r),
    ensures
        forall|i: int|
            0 <= i < outcomes.len() ==> answered(
                calls[i],
                d.printer,
                d.bytes,
                #[trigger] outcomes[i],
            ),
        r is Ok <==> outcomes.len() == calls.len() && forall|i: int|
            0 <= i < outcomes.len() ==> #[trigger] outcomes[i] is Ok,
        r matches Err(reason) ==> outcomes.len() > 0 && (outcomes.last() matches Err(e)
            && error_text(e) == reason@) && forall|i: int|
            0 <= i < outcomes.len() - 1 ==> #[trigger] outcomes[i] is Ok,
{
    if r is Err {
        assert(outcomes[outcomes.len() - 1] is Err);
    }
}

} // verus!
