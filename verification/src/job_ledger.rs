//! The record of which print jobs this station has already taken.
//!
//! The server's queue is durable and re-delivers: a job that was emitted to a
//! bridge that vanished without acking comes back on the next connection. So the
//! bridge is the component that has to make delivery idempotent, and it has to
//! do so across a power cut.
//!
//! **The job id is written BEFORE the bytes reach the spooler.** Recording after
//! printing, a crash in between leaves no trace and the ticket prints twice,
//! which nobody sees. Recording before printing, a crash in between leaves a
//! claim with no result: the bridge refuses to reprint it and acks a failure,
//! which somebody sees.
//!
//! # Format
//!
//! Append-only lines of JSON, one per state change, the last line for a job
//! wins. A truncated final line is dropped on load. Compaction, which also
//! evicts anything older than [`RETENTION`], happens on load and whenever the
//! file grows past [`COMPACT_AT_ENTRIES`] lines.
//!
//! The file itself is the caller's: it hands in what it read and the functions
//! that append to the file and rewrite it.

use vstd::prelude::*;
use vstd::string::*;
use vstd::utf8::{encode_utf8, is_ascii_chars_encode_utf8};

use crate::error::{joined, BridgeError, BridgeResult};
use crate::json::{
    element, json_items, json_string, json_u64, no_controls, nth, nullable_field, nullable_text, plain_text, read_items,
    read_nullable_field, read_string_field, read_u64_field, record_member, record_text,
    string_field, u64_field, Json, Plain,
};
use crate::record::{
    distinct, found_text, has_text, lemma_written_member_text, may_have_null, member, names_of, read_record, read_variant_field,
    record_in, record_opt, text_under, variant_field, written_members, Member,
};
use crate::text;
use crate::text::{at_most, blank, decimal, text_opt, utf8_text};

verus! {

/// How long a job id is remembered, in seconds. The server never replays a job
/// that is older than half an hour; a day of margin covers clock skew and a
/// bridge that was off for a while.
pub const RETENTION: u64 = 86_400;

/// Compact once the file passes this many lines.
pub const COMPACT_AT_ENTRIES: usize = 2_000;

/// How much of an error is kept with a failed job, in characters.
pub const ERROR_CHARS: usize = 500;

/// What the bridge knows about one job.
#[derive(Debug, Clone, Copy, PartialEq, Eq, Structural)]
pub enum JobState {
    /// Claimed and handed to the spooler; no outcome recorded yet. Seeing this
    /// on a *replay* means the bridge died mid-print.
    Claimed,
    Printed,
    Failed,
}

/// One state change of one job.
#[derive(Debug)]
pub struct Entry {
    pub job_id: String,
    pub state: JobState,
    /// Unix seconds.
    pub at: u64,
    pub error: Option<String>,
}

/// What an entry says.
pub struct EntryView {
    pub id: Seq<char>,
    pub state: JobState,
    pub at: u64,
    pub error: Option<Seq<char>>,
}

impl View for Entry {
    type V = EntryView;

    open spec fn view(&self) -> EntryView {
        EntryView {
            id: self.job_id@,
            state: self.state,
            at: self.at,
            error: text_opt(self.error),
        }
    }
}

impl Entry {
    fn copy(&self) -> (r: Entry)
        ensures
            r@ == self@,
    {
        Entry {
            job_id: self.job_id.clone(),
            state: self.state,
            at: self.at,
            error: text::copy_opt(&self.error),
        }
    }
}

/// The answer to "have I seen this job before?".
#[derive(Debug, Clone, PartialEq, Eq)]
pub enum Claim {
    /// First time. Print it.
    Fresh,
    /// Already finished. Re-ack with this outcome; do NOT print again.
    AlreadyDone { ok: bool, error: Option<String> },
    /// Claimed but never finished: the bridge died mid-print. Do NOT print
    /// again (that is the duplicate we refuse to risk) and ack a failure so a
    /// human decides.
    Interrupted,
}

/// What a claim was answered.
pub enum ClaimView {
    Fresh,
    AlreadyDone { ok: bool, error: Option<Seq<char>> },
    Interrupted,
}

impl View for Claim {
    type V = ClaimView;

    open spec fn view(&self) -> ClaimView {
        match *self {
            Claim::Fresh => ClaimView::Fresh,
            Claim::AlreadyDone { ok, error } => ClaimView::AlreadyDone { ok, error: text_opt(error) },
            Claim::Interrupted => ClaimView::Interrupted,
        }
    }
}

// ── A line of the file ──────────────────────────────────────────────────

/// The name of a state in the file.
pub open spec fn state_name(state: JobState) -> Seq<char> {
    match state {
        JobState::Claimed => "claimed"@,
        JobState::Printed => "printed"@,
        JobState::Failed => "failed"@,
    }
}

/// The state that a name stands for.
pub open spec fn state_of(name: Seq<char>) -> Option<JobState> {
    if name == "claimed"@ {
        Some(JobState::Claimed)
    } else if name == "printed"@ {
        Some(JobState::Printed)
    } else if name == "failed"@ {
        Some(JobState::Failed)
    } else {
        None
    }
}

/// The members of the JSON object that an entry is written as.
pub open spec fn entry_members(e: EntryView) -> Seq<(Seq<char>, Plain)> {
    let always = seq![
        ("jobId"@, Plain::Text(e.id)),
        ("state"@, Plain::Text(state_name(e.state))),
        ("at"@, Plain::Number(e.at)),
    ];
    match e.error {
        Some(error) => always.push(("error"@, Plain::Text(error))),
        None => always,
    }
}

/// The line, without its end, that an entry is written as.
pub open spec fn entry_text(e: EntryView) -> Seq<char> {
    record_text(entry_members(e))
}

/// The text of a file with these entries, one line each.
pub open spec fn file_text(entries: Seq<EntryView>) -> Seq<char>
    decreases entries.len(),
{
    if entries.len() == 0 {
        Seq::empty()
    } else {
        file_text(entries.drop_last()) + entry_text(entries.last()) + "\n"@
    }
}

/// The lines of a file with these entries.
pub open spec fn file_lines(entries: Seq<EntryView>) -> Seq<Seq<u8>> {
    entries.map_values(|e: EntryView| encode_utf8(entry_text(e)))
}

/// Each of these entries takes one line: its text holds no line end.
pub open spec fn one_line_each(entries: Seq<EntryView>) -> bool {
    forall|i: int| 0 <= i < entries.len() ==> no_controls(entry_text(#[trigger] entries[i]))
}

/// The lines of a file that have their end, and what follows the last of them.
pub open spec fn cut_lines(bytes: Seq<u8>) -> (Seq<Seq<u8>>, Seq<u8>)
    decreases bytes.len(),
{
    if bytes.len() == 0 {
        (Seq::empty(), Seq::empty())
    } else {
        let (lines, rest) = cut_lines(bytes.drop_last());
        if bytes.last() == 10 {
            (lines.push(rest), Seq::empty())
        } else {
            (lines, rest.push(bytes.last()))
        }
    }
}

/// The lines of a file, without their ends. What follows the last line end is a
/// line of its own, unless it is empty.
pub open spec fn lines_in(bytes: Seq<u8>) -> Seq<Seq<u8>> {
    let (lines, rest) = cut_lines(bytes);
    if rest.len() == 0 {
        lines
    } else {
        lines.push(rest)
    }
}

/// The entry that four fields make up. The error may be absent, but not of
/// another type than a string.
pub open spec fn entry_from_fields(
    id: Option<Seq<char>>,
    state: Option<Seq<char>>,
    at: Option<Option<u64>>,
    error: Option<Option<Seq<char>>>,
) -> Option<EntryView> {
    match (id, state, at, error) {
        (Some(id), Some(name), Some(Some(at)), Some(error)) => match state_of(name) {
            Some(state) => Some(EntryView { id, state, at, error }),
            None => None,
        },
        _ => None,
    }
}

/// The entry that a line holds: an object with the members `jobId`, `state`,
/// `at` and `error`, or the four values in an array.
pub open spec fn entry_of(line: Seq<char>) -> Option<EntryView> {
    match json_items(line) {
        Some(items) => if items.len() == 4 {
            entry_from_fields(
                string_field(element(items, 0)),
                variant_field(element(items, 1)),
                u64_field(element(items, 2)),
                nullable_field(element(items, 3)),
            )
        } else {
            None
        },
        None => match record_in(encode_utf8(line), entry_names()) {
            Some(m) => entry_from_fields(
                string_field(member(m, "jobId"@)),
                variant_field(member(m, "state"@)),
                u64_field(member(m, "at"@)),
                nullable_field(member(m, "error"@)),
            ),
            None => None,
        },
    }
}

/// The names of the members of an entry.
pub open spec fn entry_names() -> Seq<Seq<char>> {
    seq!["jobId"@, "state"@, "at"@, "error"@]
}

/// What a line of the file comes to.
pub enum Line {
    Blank,
    Unreadable,
    Entry(EntryView),
}

/// What a line of the file comes to.
pub open spec fn line_of(bytes: Seq<u8>) -> Line {
    match utf8_text(bytes) {
        Some(text) => if blank(text) {
            Line::Blank
        } else {
            match entry_of(text) {
                Some(e) => Line::Entry(e),
                None => Line::Unreadable,
            }
        },
        None => Line::Unreadable,
    }
}

proof fn lemma_entry_members(e: EntryView)
    ensures
        distinct(entry_members(e)),
        record_member(entry_members(e), "jobId"@) == Some(Plain::Text(e.id)),
        record_member(entry_members(e), "state"@) == Some(Plain::Text(state_name(e.state))),
        record_member(entry_members(e), "at"@) == Some(Plain::Number(e.at)),
        record_member(entry_members(e), "error"@) == (match e.error {
            Some(error) => Some(Plain::Text(error)),
            None => None,
        }),
{
    reveal_strlit("jobId");
    reveal_strlit("state");
    reveal_strlit("at");
    reveal_strlit("error");
    assert("jobId"@[0] == 'j');
    assert("state"@[0] == 's');
    assert("error"@[0] == 'e');
    assert("at"@[0] == 'a');
    reveal_with_fuel(record_member, 5);
    let always = seq![
        ("jobId"@, Plain::Text(e.id)),
        ("state"@, Plain::Text(state_name(e.state))),
        ("at"@, Plain::Number(e.at)),
    ];
    if e.error is Some {
        assert(entry_members(e).drop_last() =~= always);
    }
    let one = seq![("jobId"@, Plain::Text(e.id))];
    let two = seq![("jobId"@, Plain::Text(e.id)), ("state"@, Plain::Text(state_name(e.state)))];
    assert(always.drop_last() =~= two);
    assert(two.drop_last() =~= one);
    assert(one.drop_last() =~= Seq::<(Seq<char>, Plain)>::empty());
}

proof fn lemma_state_names()
    ensures
        forall|s: JobState| state_of(#[trigger] state_name(s)) == Some(s),
{
    reveal_strlit("claimed");
    reveal_strlit("printed");
    reveal_strlit("failed");
    assert("claimed"@[0] == 'c');
    assert("printed"@[0] == 'p');
    assert("failed"@[0] == 'f');
}

impl JobState {
    /// The name of the state in the file.
    pub fn name(self) -> (r: &'static str)
        ensures
            r@ == state_name(self),
    {
        match self {
            JobState::Claimed => "claimed",
            JobState::Printed => "printed",
            JobState::Failed => "failed",
        }
    }

    /// The state that a name in the file stands for.
    pub fn named(name: &str) -> (r: Option<JobState>)
        ensures
            r == state_of(name@),
    {
        if text::same(name, "claimed") {
            Some(JobState::Claimed)
        } else if text::same(name, "printed") {
            Some(JobState::Printed)
        } else if text::same(name, "failed") {
            Some(JobState::Failed)
        } else {
            None
        }
    }
}

/// The view of an entry that may be absent.
pub open spec fn entry_opt(e: Option<Entry>) -> Option<EntryView> {
    match e {
        Some(e) => Some(e@),
        None => None,
    }
}

impl Entry {
    /// The entry that four fields make up.
    pub fn from_fields(
        id: Option<String>,
        state: Option<String>,
        at: Option<Option<u64>>,
        error: Option<Option<String>>,
    ) -> (r: Option<Entry>)
        ensures
            entry_opt(r) == entry_from_fields(
                text_opt(id),
                text_opt(state),
                at,
                nullable_text(error),
            ),
    {
        match (id, state, at, error) {
            (Some(job_id), Some(name), Some(Some(at)), Some(error)) => {
                match JobState::named(name.as_str()) {
                    Some(state) => Some(Entry { job_id, state, at, error }),
                    None => None,
                }
            },
            _ => None,
        }
    }

    /// The entry that a line holds. A line that an entry was written as holds
    /// that entry.
    pub fn parse(line: &str) -> (r: Option<Entry>)
        ensures
            entry_opt(r) == entry_of(line@),
            forall|e: EntryView| #[trigger] entry_text(e) == line@ ==> entry_of(line@) == Some(e),
            forall|members: Seq<(Seq<char>, Plain)>|
                line@ == #[trigger] record_text(members) && members.len() > 0 && distinct(members)
                    && has_text(members, "jobId"@) && (text_under(members, "state"@) == Some(
                    "claimed"@,
                ) || text_under(members, "state"@) == Some("printed"@) || text_under(
                    members,
                    "state"@,
                ) == Some("failed"@)) && (record_member(members, "at"@) matches Some(n)
                    && n is Number) && may_have_null(members, "error"@) ==> {
                    &&& r matches Some(e)
                    &&& text_under(members, "jobId"@) == Some(e.job_id@)
                    &&& record_member(members, "at"@) == Some(Plain::Number(e.at))
                    &&& text_under(members, "error"@) == text_opt(e.error)
                    &&& text_under(members, "state"@) == Some(
                        match e.state {
                            JobState::Claimed => "claimed"@,
                            JobState::Printed => "printed"@,
                            JobState::Failed => "failed"@,
                        },
                    )
                },
    {
        let whole = read_items(line);
        let ghost reading = whole;
        let names: Vec<&'static str> = vec!["jobId", "state", "at", "error"];
        assert(names_of(names@) =~= entry_names());
        let record = read_record(line.as_bytes(), &names);
        let ghost members = record_opt(record);
        let r = match whole {
            Some(items) => {
                if items.len() == 4 {
                    Entry::from_fields(
                        read_string_field(nth(&items, 0)),
                        read_variant_field(nth(&items, 1)),
                        read_u64_field(nth(&items, 2)),
                        read_nullable_field(nth(&items, 3)),
                    )
                } else {
                    None
                }
            },
            None => match record {
                Some(m) => {
                    let id = m.get("jobId");
                    let state = m.get("state");
                    let at = m.get("at");
                    let error = m.get("error");
                    proof {
                        assert forall|written: Seq<(Seq<char>, Plain)>|
                            line@ == #[trigger] record_text(written) && written.len() > 0
                                && distinct(written) implies text_opt(id) == found_text(
                            written,
                            "jobId"@,
                        ) && text_opt(state) == found_text(written, "state"@) && text_opt(at)
                            == found_text(written, "at"@) && text_opt(error) == found_text(
                            written,
                            "error"@,
                        ) by {
                            lemma_written_member_text(written, false, "jobId"@);
                            lemma_written_member_text(written, false, "state"@);
                            lemma_written_member_text(written, false, "at"@);
                            lemma_written_member_text(written, false, "error"@);
                        }
                        lemma_state_names();
                    }
                    Entry::from_fields(
                        read_string_field(id),
                        read_variant_field(state),
                        read_u64_field(at),
                        read_nullable_field(error),
                    )
                },
                None => None,
            },
        };
        proof {
            assert forall|e: EntryView| #[trigger] entry_text(e) == line@ implies entry_of(line@)
                == Some(e) by {
                lemma_entry_members(e);
                lemma_state_names();
                assert(record_text(entry_members(e)) == line@);
                assert(reading is None);
                assert(members == Some(written_members(entry_members(e), false)));
                lemma_written_member_text(entry_members(e), false, "jobId"@);
                lemma_written_member_text(entry_members(e), false, "state"@);
                lemma_written_member_text(entry_members(e), false, "at"@);
                lemma_written_member_text(entry_members(e), false, "error"@);
            }
        }
        r
    }

    /// The line that the entry is written as, without its end.
    pub fn line(&self) -> (r: String)
        ensures
            r@ == entry_text(self@),
            no_controls(r@),
    {
        let ghost e = self@;
        let mut members: Vec<(String, Json)> = Vec::new();
        members.push(("jobId".to_string(), Json::string(self.job_id.as_str())));
        members.push(("state".to_string(), Json::string(self.state.name())));
        members.push(("at".to_string(), Json::number(self.at)));
        proof {
            text::lemma_decimal_digits(self.at as nat);
        }
        assert(no_controls(members@[2].1@));
        match &self.error {
            Some(error) => {
                members.push(("error".to_string(), Json::string(error.as_str())));
            },
            None => {},
        }
        let object: Json = Json::object(&members);
        proof {
            let written = members@.map_values(|m: (String, Json)| (m.0@, m.1@));
            let wanted = entry_members(e).map_values(
                |m: (Seq<char>, Plain)| (m.0, plain_text(m.1)),
            );
            assert(written =~= wanted);
        }
        object.text().to_string()
    }
}

/// The lines of a file, without their ends. The file that entries were written
/// to has one line for each.
pub fn lines_of(content: &Vec<u8>) -> (r: Vec<Vec<u8>>)
    ensures
        raw_lines(r@) == lines_in(content@),
        forall|entries: Seq<EntryView>|
            one_line_each(entries) && encode_utf8(#[trigger] file_text(entries)) == content@
                ==> raw_lines(r@) == file_lines(entries),
{
    let mut lines: Vec<Vec<u8>> = Vec::new();
    let mut rest: Vec<u8> = Vec::new();
    let mut i: usize = 0;
    proof {
        assert(raw_lines(lines@) =~= Seq::<Seq<u8>>::empty());
        assert(rest@ =~= Seq::<u8>::empty());
        assert(content@.take(0) =~= Seq::<u8>::empty());
    }
    while i < content.len()
        invariant
            i <= content.len(),
            (raw_lines(lines@), rest@) == cut_lines(content@.take(i as int)),
        decreases content.len() - i,
    {
        let ghost before = raw_lines(lines@);
        proof {
            assert(content@.take(i + 1).drop_last() =~= content@.take(i as int));
            assert(content@.take(i + 1).last() == content@[i as int]);
        }
        if content[i] == 10 {
            let ghost line = rest@;
            lines.push(rest);
            rest = Vec::new();
            assert(raw_lines(lines@) =~= before.push(line));
            assert(rest@ =~= Seq::<u8>::empty());
        } else {
            rest.push(content[i]);
        }
        i += 1;
    }
    proof {
        assert(content@.take(i as int) =~= content@);
    }
    if rest.len() > 0 {
        let ghost before = raw_lines(lines@);
        let ghost line = rest@;
        lines.push(rest);
        assert(raw_lines(lines@) =~= before.push(line));
    }
    proof {
        assert forall|entries: Seq<EntryView>|
            one_line_each(entries) && encode_utf8(#[trigger] file_text(entries))
                == content@ implies raw_lines(lines@) == file_lines(entries) by {
            lemma_written_lines(entries);
        }
    }
    lines
}

proof fn lemma_cut_lines_append(a: Seq<u8>, b: Seq<u8>)
    requires
        forall|i: int| 0 <= i < b.len() ==> #[trigger] b[i] != 10u8,
    ensures
        cut_lines(a + b).0 == cut_lines(a).0,
        cut_lines(a + b).1 == cut_lines(a).1 + b,
    decreases b.len(),
{
    if b.len() == 0 {
        assert(a + b =~= a);
        assert(cut_lines(a).1 + b =~= cut_lines(a).1);
    } else {
        assert((a + b).drop_last() =~= a + b.drop_last());
        assert(b[b.len() - 1] != 10u8);
        lemma_cut_lines_append(a, b.drop_last());
        assert((cut_lines(a).1 + b.drop_last()).push(b.last()) =~= cut_lines(a).1 + b);
    }
}

proof fn lemma_written_lines(entries: Seq<EntryView>)
    requires
        one_line_each(entries),
    ensures
        cut_lines(encode_utf8(file_text(entries))) == (file_lines(entries), Seq::<u8>::empty()),
    decreases entries.len(),
{
    if entries.len() == 0 {
        assert(encode_utf8(file_text(entries)) =~= Seq::<u8>::empty());
        assert(file_lines(entries) =~= Seq::<Seq<u8>>::empty());
    } else {
        let rest = entries.drop_last();
        let line = entry_text(entries.last());
        let before = encode_utf8(file_text(rest));
        assert forall|i: int| 0 <= i < rest.len() implies no_controls(
            entry_text(#[trigger] rest[i]),
        ) by {
            assert(entries[i] == rest[i]);
        }
        lemma_written_lines(rest);
        assert(no_controls(entry_text(entries[entries.len() - 1])));
        text::lemma_utf8_no_line_end(line);
        text::lemma_utf8_concat(file_text(rest) + line, "\n"@);
        text::lemma_utf8_concat(file_text(rest), line);
        reveal_strlit("\n");
        is_ascii_chars_encode_utf8("\n"@);
        assert(encode_utf8("\n"@) =~= seq![10u8]);
        let whole = before + encode_utf8(line);
        lemma_cut_lines_append(before, encode_utf8(line));
        let all = encode_utf8(file_text(entries));
        assert(all =~= whole + seq![10u8]);
        assert(all.drop_last() =~= whole);
        assert(all.last() == 10u8);
        assert(Seq::<u8>::empty() + encode_utf8(line) =~= encode_utf8(line));
        assert(file_lines(rest).push(encode_utf8(line)) =~= file_lines(entries));
    }
}

// ── What a file comes to ────────────────────────────────────────────────

/// What these entries, in this order, say of each job: the last one wins.
pub open spec fn jobs_of(entries: Seq<EntryView>) -> Map<Seq<char>, EntryView>
    decreases entries.len(),
{
    if entries.len() == 0 {
        Map::empty()
    } else {
        jobs_of(entries.drop_last()).insert(entries.last().id, entries.last())
    }
}

/// What the lines of a file say of each job. Lines that hold no entry say
/// nothing.
pub open spec fn replay(lines: Seq<Seq<u8>>) -> Map<Seq<char>, EntryView>
    decreases lines.len(),
{
    if lines.len() == 0 {
        Map::empty()
    } else {
        match line_of(lines.last()) {
            Line::Entry(e) => replay(lines.drop_last()).insert(e.id, e),
            _ => replay(lines.drop_last()),
        }
    }
}

/// How many of these lines hold something that is no entry.
pub open spec fn unreadable(lines: Seq<Seq<u8>>) -> nat
    decreases lines.len(),
{
    if lines.len() == 0 {
        0
    } else {
        unreadable(lines.drop_last()) + (if line_of(lines.last()) is Unreadable {
            1nat
        } else {
            0nat
        })
    }
}

/// How many lines of a file are damaged. The last line is not counted: a write
/// that a crash cut short was never a record.
pub open spec fn damaged(lines: Seq<Seq<u8>>) -> nat {
    if lines.len() == 0 {
        0
    } else {
        unreadable(lines.drop_last())
    }
}

/// The oldest moment that is still remembered.
pub open spec fn cutoff(now: u64) -> u64 {
    if now >= RETENTION {
        (now - RETENTION) as u64
    } else {
        0
    }
}

/// The jobs that are still remembered.
pub open spec fn unexpired(jobs: Map<Seq<char>, EntryView>, now: u64) -> Map<Seq<char>, EntryView> {
    Map::new(
        |id: Seq<char>| jobs.dom().contains(id) && jobs[id].at >= cutoff(now),
        |id: Seq<char>| jobs[id],
    )
}

/// What is answered to a claim of the job `id`.
pub open spec fn answer(jobs: Map<Seq<char>, EntryView>, id: Seq<char>) -> ClaimView {
    if jobs.dom().contains(id) {
        match jobs[id].state {
            JobState::Claimed => ClaimView::Interrupted,
            JobState::Printed => ClaimView::AlreadyDone { ok: true, error: None },
            JobState::Failed => ClaimView::AlreadyDone { ok: false, error: jobs[id].error },
        }
    } else {
        ClaimView::Fresh
    }
}

/// No job has two of these entries.
pub open spec fn one_each(entries: Seq<EntryView>) -> bool {
    forall|i: int, j: int|
        0 <= i < j < entries.len() ==> (#[trigger] entries[i]).id != (#[trigger] entries[j]).id
}

/// The entry that claims a job.
pub open spec fn claim_entry(id: Seq<char>, now: u64) -> EntryView {
    EntryView { id, state: JobState::Claimed, at: now, error: None }
}

/// The entry that records the outcome of a job.
pub open spec fn outcome_entry(
    id: Seq<char>,
    ok: bool,
    error: Option<Seq<char>>,
    now: u64,
) -> EntryView {
    EntryView {
        id,
        state: if ok {
            JobState::Printed
        } else {
            JobState::Failed
        },
        at: now,
        error: match error {
            Some(e) => Some(at_most(e, ERROR_CHARS as nat)),
            None => None,
        },
    }
}

// ── The ledger ──────────────────────────────────────────────────────────

/// Damage that was worked around when the ledger was opened.
#[derive(Debug, Clone, Copy, PartialEq, Eq)]
pub struct Recovery {
    /// Lines that held something unreadable.
    pub skipped: usize,
}

/// The sentence for damage that was worked around.
pub open spec fn recovery_text(skipped: nat) -> Seq<char> {
    "El registro de impresiones estaba dañado y se recuperó: "@ + decimal(skipped)
        + " línea(s) ilegible(s) descartada(s). Algún ticket reciente podría imprimirse dos veces."@
}

impl Recovery {
    /// One sentence for whoever is looking at the till.
    pub fn message(&self) -> (r: String)
        ensures
            r@ == recovery_text(self.skipped as nat),
    {
        let mut out = joined(
            "El registro de impresiones estaba dañado y se recuperó: ",
            text::number(self.skipped as u64).as_str(),
        );
        out.append(
            " línea(s) ilegible(s) descartada(s). Algún ticket reciente podría imprimirse dos veces.",
        );
        out
    }
}

/// The jobs this station has taken.
pub struct JobLedger {
    seen: Vec<Entry>,
    /// Lines currently in the file, to decide when to compact.
    lines: usize,
    recovery: Option<Recovery>,
}

/// What the ledger holds.
#[verifier::ext_equal]
pub struct LedgerView {
    /// What is known of each job.
    pub jobs: Map<Seq<char>, EntryView>,
    /// How many lines the file has.
    pub lines: usize,
    pub recovery: Option<Recovery>,
}

/// What these entries say.
pub open spec fn entry_views(entries: Seq<Entry>) -> Seq<EntryView> {
    entries.map_values(|e: Entry| e@)
}

impl View for JobLedger {
    type V = LedgerView;

    closed spec fn view(&self) -> LedgerView {
        LedgerView {
            jobs: jobs_of(entry_views(self.seen@)),
            lines: self.lines,
            recovery: self.recovery,
        }
    }
}

/// The lines of a file, as bytes.
pub open spec fn raw_lines(lines: Seq<Vec<u8>>) -> Seq<Seq<u8>> {
    lines.map_values(|line: Vec<u8>| line@)
}

/// The ledger that the lines of a file come to, before anything is dropped.
pub open spec fn found(lines: Seq<Seq<u8>>) -> LedgerView {
    LedgerView {
        jobs: replay(lines),
        lines: lines.len() as usize,
        recovery: if damaged(lines) > 0 {
            Some(Recovery { skipped: damaged(lines) as usize })
        } else {
            None
        },
    }
}

/// `f` was called on `text` and came back with `w`.
pub open spec fn wrote<F: FnOnce(&str) -> BridgeResult<()>>(
    f: F,
    text: Seq<char>,
    w: BridgeResult<()>,
) -> bool {
    exists|s: &str| s@ == text && #[trigger] f.ensures((s,), w)
}

/// The text of a file that has been compacted: one line for each job that is
/// still remembered, in some order.
pub open spec fn compaction(jobs: Map<Seq<char>, EntryView>, now: u64, body: Seq<char>) -> bool {
    exists|order: Seq<EntryView>|
        {
            &&& one_each(order)
            &&& one_line_each(order)
            &&& #[trigger] jobs_of(order) == unexpired(jobs, now)
            &&& body == file_text(order)
        }
}

/// `rewrite` may be called to compact a file with these jobs.
pub open spec fn may_rewrite<R: FnOnce(&str) -> BridgeResult<()>>(
    rewrite: R,
    jobs: Map<Seq<char>, EntryView>,
    now: u64,
) -> bool {
    forall|body: &str| compaction(jobs, now, body@) ==> #[trigger] rewrite.requires((body,))
}

/// How a compaction goes: what has expired is forgotten, and the file is
/// rewritten with one line for each job that is left, in some order.
pub open spec fn compacted<R: FnOnce(&str) -> BridgeResult<()>>(
    before: LedgerView,
    after: LedgerView,
    now: u64,
    rewrite: R,
    r: BridgeResult<()>,
) -> bool {
    &&& after.jobs == unexpired(before.jobs, now)
    &&& after.recovery == before.recovery
    &&& exists|order: Seq<EntryView>|
        {
            &&& one_each(order)
            &&& one_line_each(order)
            &&& #[trigger] jobs_of(order) == after.jobs
            &&& wrote(rewrite, file_text(order), r)
            &&& after.lines == (if r is Ok {
                order.len()
            } else {
                before.lines as nat
            })
        }
}

/// The ledger after the line for `e` has been appended.
pub open spec fn grown(before: LedgerView, e: EntryView) -> LedgerView {
    LedgerView {
        jobs: before.jobs.insert(e.id, e),
        lines: if before.lines < usize::MAX {
            (before.lines + 1) as usize
        } else {
            usize::MAX
        },
        recovery: before.recovery,
    }
}

/// The line, with its end, that an entry is written as.
pub open spec fn entry_line(e: EntryView) -> Seq<char> {
    entry_text(e) + "\n"@
}

/// What recording an entry may do to the file: `append` may be called on the
/// line for the entry; and `rewrite` once that has worked and the file has grown
/// too long, to compact it.
pub open spec fn may_record<
    A: FnOnce(&str) -> BridgeResult<()>,
    R: FnOnce(&str) -> BridgeResult<()>,
>(before: LedgerView, e: EntryView, now: u64, append: A, rewrite: R) -> bool {
    &&& forall|line: &str| line@ == entry_line(e) ==> #[trigger] append.requires((line,))
    &&& grown(before, e).lines > COMPACT_AT_ENTRIES && (exists|w: BridgeResult<()>|
        w is Ok && #[trigger] wrote(append, entry_line(e), w)) ==> may_rewrite(
        rewrite,
        grown(before, e).jobs,
        now,
    )
}

/// How recording an entry goes: it is appended to the file first and counts only
/// once that has worked; a file that has grown too long is then compacted.
pub open spec fn recorded<
    A: FnOnce(&str) -> BridgeResult<()>,
    R: FnOnce(&str) -> BridgeResult<()>,
>(
    before: LedgerView,
    after: LedgerView,
    e: EntryView,
    now: u64,
    append: A,
    rewrite: R,
    r: BridgeResult<()>,
) -> bool {
    exists|w: BridgeResult<()>|
        {
            &&& #[trigger] wrote(append, entry_line(e), w)
            &&& no_controls(entry_text(e))
            &&& match w {
                Err(_) => after == before && r == w,
                Ok(_) => if grown(before, e).lines > COMPACT_AT_ENTRIES {
                    compacted(grown(before, e), after, now, rewrite, r)
                } else {
                    after == grown(before, e) && r is Ok
                },
            }
        }
}

// ── What is on disk ─────────────────────────────────────────────────────

/// The file holds, one line each, the entries that the jobs come from.
pub open spec fn backed(file: Seq<char>, jobs: Map<Seq<char>, EntryView>) -> bool {
    exists|entries: Seq<EntryView>|
        {
            &&& one_line_each(entries)
            &&& #[trigger] jobs_of(entries) == jobs
            &&& file == file_text(entries)
        }
}

/// A ledger with its file.
pub struct Stored {
    pub file: Seq<char>,
    pub jobs: Map<Seq<char>, EntryView>,
}

/// Opening the ledger over this file comes to `after`: the jobs that the file
/// holds, compacted, in the file and in memory.
pub open spec fn opened(file: Seq<char>, after: Stored, now: u64) -> bool {
    forall|jobs: Map<Seq<char>, EntryView>| #[trigger]
        backed(file, jobs) ==> after.jobs == unexpired(jobs, now) && compaction(
            jobs,
            now,
            after.file,
        )
}

proof fn lemma_jobs_of(entries: Seq<EntryView>)
    requires
        one_each(entries),
    ensures
        forall|i: int|
            0 <= i < entries.len() ==> jobs_of(entries).dom().contains(
                (#[trigger] entries[i]).id,
            ) && jobs_of(entries)[entries[i].id] == entries[i],
        forall|id: Seq<char>| #[trigger]
            jobs_of(entries).dom().contains(id) ==> exists|i: int|
                0 <= i < entries.len() && (#[trigger] entries[i]).id == id,
    decreases entries.len(),
{
    if entries.len() > 0 {
        let rest = entries.drop_last();
        assert forall|i: int, j: int| 0 <= i < j < rest.len() implies (#[trigger] rest[i]).id != (
        #[trigger] rest[j]).id by {
            assert(entries[i].id != entries[j].id);
        }
        lemma_jobs_of(rest);
        let last = entries.len() - 1;
        assert forall|i: int| 0 <= i < entries.len() implies jobs_of(entries).dom().contains(
            (#[trigger] entries[i]).id,
        ) && jobs_of(entries)[entries[i].id] == entries[i] by {
            if i < last {
                assert(rest[i] == entries[i]);
                assert(entries[i].id != entries[last].id);
            }
        }
        assert forall|id: Seq<char>| #[trigger]
            jobs_of(entries).dom().contains(id) implies exists|i: int|
            0 <= i < entries.len() && (#[trigger] entries[i]).id == id by {
            if id == entries[last].id {
                assert(entries[last].id == id);
            } else {
                assert(jobs_of(rest).dom().contains(id));
                let i = choose|i: int| 0 <= i < rest.len() && (#[trigger] rest[i]).id == id;
                assert(entries[i] == rest[i]);
            }
        }
    }
}

proof fn lemma_jobs_of_update(entries: Seq<EntryView>, i: int, e: EntryView)
    requires
        one_each(entries),
        0 <= i < entries.len(),
        entries[i].id == e.id,
    ensures
        one_each(entries.update(i, e)),
        jobs_of(entries.update(i, e)) == jobs_of(entries).insert(e.id, e),
{
    let next = entries.update(i, e);
    assert forall|a: int, b: int| 0 <= a < b < next.len() implies (#[trigger] next[a]).id != (
    #[trigger] next[b]).id by {
        assert(entries[a].id != entries[b].id);
    }
    lemma_jobs_of(entries);
    lemma_jobs_of(next);
    let left = jobs_of(next);
    let right = jobs_of(entries).insert(e.id, e);
    assert forall|id: Seq<char>| left.dom().contains(id) == right.dom().contains(id) by {
        if left.dom().contains(id) {
            let k = choose|k: int| 0 <= k < next.len() && (#[trigger] next[k]).id == id;
            assert(entries[k].id == id);
        }
        if right.dom().contains(id) && id != e.id {
            let k = choose|k: int| 0 <= k < entries.len() && (#[trigger] entries[k]).id == id;
            assert(next[k].id == id);
        }
        assert(next[i].id == e.id);
    }
    assert forall|id: Seq<char>| left.dom().contains(id) implies left[id] == right[id] by {
        let k = choose|k: int| 0 <= k < next.len() && (#[trigger] next[k]).id == id;
        assert(left[next[k].id] == next[k]);
        if k != i {
            assert(entries[k] == next[k]);
            assert(jobs_of(entries)[entries[k].id] == entries[k]);
            if k < i {
                assert(entries[k].id != entries[i].id);
            } else {
                assert(entries[i].id != entries[k].id);
            }
        }
    }
    assert(left =~= right);
}

impl JobLedger {
    /// Each job has one entry.
    pub closed spec fn wf(&self) -> bool {
        one_each(entry_views(self.seen@))
    }

    /// An empty ledger, over an empty file.
    fn empty() -> (r: JobLedger)
        ensures
            r.wf(),
            r@.jobs == Map::<Seq<char>, EntryView>::empty(),
            r@.lines == 0,
            r@.recovery is None,
    {
        let r = JobLedger { seen: Vec::new(), lines: 0, recovery: None };
        assert(entry_views(r.seen@) =~= Seq::<EntryView>::empty());
        r
    }

    /// Where the entry of a job stands.
    fn find(&self, job_id: &str) -> (r: Option<usize>)
        requires
            self.wf(),
        ensures
            match r {
                Some(i) => {
                    &&& i < self.seen.len()
                    &&& self.seen@[i as int]@.id == job_id@
                    &&& self@.jobs.dom().contains(job_id@)
                    &&& self@.jobs[job_id@] == self.seen@[i as int]@
                },
                None => !self@.jobs.dom().contains(job_id@),
            },
    {
        let ghost views = entry_views(self.seen@);
        proof {
            lemma_jobs_of(views);
        }
        let mut i: usize = 0;
        while i < self.seen.len()
            invariant
                i <= self.seen.len(),
                views == entry_views(self.seen@),
                self@.jobs == jobs_of(views),
                forall|j: int| 0 <= j < i ==> (#[trigger] views[j]).id != job_id@,
                forall|j: int|
                    0 <= j < views.len() ==> jobs_of(views).dom().contains((#[trigger] views[j]).id)
                        && jobs_of(views)[views[j].id] == views[j],
                forall|id: Seq<char>| #[trigger]
                    jobs_of(views).dom().contains(id) ==> exists|j: int|
                        0 <= j < views.len() && (#[trigger] views[j]).id == id,
            decreases self.seen.len() - i,
        {
            assert(views[i as int] == self.seen@[i as int]@);
            if text::same(self.seen[i].job_id.as_str(), job_id) {
                return Some(i);
            }
            i += 1;
        }
        None
    }

    /// Puts an entry in the place of the one that its job had, if it had one.
    fn put(&mut self, entry: Entry)
        requires
            old(self).wf(),
        ensures
            final(self).wf(),
            final(self)@ == (LedgerView {
                jobs: old(self)@.jobs.insert(entry@.id, entry@),
                ..old(self)@
            }),
    {
        let ghost views = entry_views(self.seen@);
        match self.find(entry.job_id.as_str()) {
            Some(i) => {
                proof {
                    lemma_jobs_of_update(views, i as int, entry@);
                    assert(entry_views(self.seen@.update(i as int, entry)) =~= views.update(
                        i as int,
                        entry@,
                    ));
                }
                self.seen.set(i, entry);
            },
            None => {
                proof {
                    lemma_jobs_of(views);
                    let next = views.push(entry@);
                    assert forall|a: int, b: int| 0 <= a < b < next.len() implies (
                    #[trigger] next[a]).id != (#[trigger] next[b]).id by {
                        if b < views.len() {
                            assert(views[a].id != views[b].id);
                        } else {
                            assert(views[a] == next[a]);
                            assert(jobs_of(views).dom().contains(views[a].id));
                        }
                    }
                    assert(next.drop_last() =~= views);
                    assert(entry_views(self.seen@.push(entry)) =~= next);
                }
                self.seen.push(entry);
            },
        }
    }

    /// Drops what has expired and rewrites the file with one line per job.
    fn compact(&mut self, now: u64, rewrite: impl FnOnce(&str) -> BridgeResult<()>) -> (r:
        BridgeResult<()>)
        requires
            old(self).wf(),
            may_rewrite(rewrite, old(self)@.jobs, now),
        ensures
            final(self).wf(),
            compacted(old(self)@, final(self)@, now, rewrite, r),
    {
        let oldest: u64 = now.saturating_sub(RETENTION);
        let ghost views = entry_views(self.seen@);
        let mut kept: Vec<Entry> = Vec::new();
        let mut body = String::new();
        let mut i: usize = 0;
        proof {
            assert(entry_views(kept@) =~= Seq::<EntryView>::empty());
            assert(views.take(0) =~= Seq::<EntryView>::empty());
            assert(jobs_of(entry_views(kept@)) =~= unexpired(jobs_of(views.take(0)), now));
        }
        while i < self.seen.len()
            invariant
                i <= self.seen.len(),
                oldest == cutoff(now),
                views == entry_views(self.seen@),
                one_each(views),
                one_each(entry_views(kept@)),
                one_line_each(entry_views(kept@)),
                jobs_of(entry_views(kept@)) == unexpired(jobs_of(views.take(i as int)), now),
                body@ == file_text(entry_views(kept@)),
            decreases self.seen.len() - i,
        {
            let ghost e = self.seen@[i as int]@;
            let ghost before = views.take(i as int);
            let ghost kept_before = entry_views(kept@);
            proof {
                assert(views[i as int] == e);
                assert(views.take(i + 1).drop_last() =~= before);
                assert(views.take(i + 1).last() == e);
                assert forall|a: int, b: int| 0 <= a < b < before.len() implies (
                #[trigger] before[a]).id != (#[trigger] before[b]).id by {
                    assert(views[a].id != views[b].id);
                }
                lemma_jobs_of(before);
                lemma_jobs_of(kept_before);
                if jobs_of(before).dom().contains(e.id) {
                    let k = choose|k: int| 0 <= k < before.len() && (#[trigger] before[k]).id == e.id;
                    assert(views[k].id != views[i as int].id);
                }
            }
            if self.seen[i].at >= oldest {
                let line: String = self.seen[i].line();
                body.append(line.as_str());
                body.append("\n");
                kept.push(self.seen[i].copy());
                proof {
                    let next = entry_views(kept@);
                    assert(next =~= kept_before.push(e));
                    assert(next.drop_last() =~= kept_before);
                    assert forall|a: int, b: int| 0 <= a < b < next.len() implies (
                    #[trigger] next[a]).id != (#[trigger] next[b]).id by {
                        if b < kept_before.len() {
                            assert(kept_before[a].id != kept_before[b].id);
                        } else {
                            assert(kept_before[a] == next[a]);
                            assert(jobs_of(kept_before).dom().contains(kept_before[a].id));
                        }
                    }
                    assert forall|a: int| 0 <= a < next.len() implies no_controls(
                        entry_text(#[trigger] next[a]),
                    ) by {
                        if a < kept_before.len() {
                            assert(kept_before[a] == next[a]);
                        }
                    }
                    assert(jobs_of(next) =~= unexpired(jobs_of(views.take(i + 1)), now));
                }
            } else {
                assert(jobs_of(kept_before) =~= unexpired(jobs_of(views.take(i + 1)), now));
            }
            i += 1;
        }
        proof {
            assert(views.take(i as int) =~= views);
        }
        let ghost order = entry_views(kept@);
        let count: usize = kept.len();
        self.seen = kept;
        assert(compaction(old(self)@.jobs, now, file_text(order)));
        let w = rewrite(body.as_str());
        assert(wrote(rewrite, file_text(order), w));
        if w.is_ok() {
            self.lines = count;
        }
        w
    }

    /// Writes an entry to the file, then to memory.
    fn append(
        &mut self,
        entry: Entry,
        now: u64,
        append: impl FnOnce(&str) -> BridgeResult<()>,
        rewrite: impl FnOnce(&str) -> BridgeResult<()>,
    ) -> (r: BridgeResult<()>)
        requires
            old(self).wf(),
            may_record(old(self)@, entry@, now, append, rewrite),
        ensures
            final(self).wf(),
            recorded(old(self)@, final(self)@, entry@, now, append, rewrite, r),
    {
        let ghost e = entry@;
        let mut line: String = entry.line();
        line.append("\n");
        let w = append(line.as_str());
        assert(wrote(append, entry_line(e), w));
        match w {
            Err(e) => Err(e),
            Ok(_) => {
                self.lines = self.lines.saturating_add(1);
                self.put(entry);
                assert(self@ =~= grown(old(self)@, e));
                if self.lines > COMPACT_AT_ENTRIES {
                    self.compact(now, rewrite)
                } else {
                    Ok(())
                }
            },
        }
    }

    /// Takes the ledger from the content of its file, drops what has expired and
    /// rewrites the file.
    ///
    /// Damage is worked around, never fatal: a line that holds no entry is
    /// skipped. Where a line before the last one is damaged, the file is put
    /// aside with `preserve` before it is rewritten, and the damage can be read
    /// from [`JobLedger::recovery`].
    ///
    /// A file that this ledger wrote reads back as the jobs it was written from.
    pub fn open(
        content: &Vec<u8>,
        now: u64,
        preserve: impl FnOnce() -> BridgeResult<()>,
        rewrite: impl FnOnce(&str) -> BridgeResult<()>,
    ) -> (r: BridgeResult<JobLedger>)
        requires
            damaged(lines_in(content@)) > 0 ==> preserve.requires(()),
            damaged(lines_in(content@)) == 0 || (exists|p: BridgeResult<()>|
                p is Ok && #[trigger] preserve.ensures((), p)) ==> may_rewrite(
                rewrite,
                replay(lines_in(content@)),
                now,
            ),
        ensures
            match r {
                Ok(ledger) => {
                    &&& ledger.wf()
                    &&& damaged(lines_in(content@)) > 0 ==> exists|p: BridgeResult<()>|
                        p is Ok && #[trigger] preserve.ensures((), p)
                    &&& exists|w: BridgeResult<()>|
                        w is Ok && #[trigger] compacted(
                            found(lines_in(content@)),
                            ledger@,
                            now,
                            rewrite,
                            w,
                        )
                },
                Err(e) => {
                    ||| damaged(lines_in(content@)) > 0 && preserve.ensures(
                        (),
                        Err::<(), BridgeError>(e),
                    )
                    ||| exists|after: LedgerView| #[trigger]
                        compacted(
                            found(lines_in(content@)),
                            after,
                            now,
                            rewrite,
                            Err::<(), BridgeError>(e),
                        )
                },
            },
            forall|file: Seq<char>, jobs: Map<Seq<char>, EntryView>|
                content@ == encode_utf8(file) && #[trigger] backed(file, jobs) ==> found(
                    lines_in(content@),
                ).jobs == jobs && damaged(lines_in(content@)) == 0,
            r matches Ok(ledger) ==> exists|body: Seq<char>, w: BridgeResult<()>|
                {
                    &&& w is Ok
                    &&& #[trigger] wrote(rewrite, body, w)
                    &&& forall|file: Seq<char>|
                        content@ == #[trigger] encode_utf8(file) ==> opened(
                            file,
                            Stored { file: body, jobs: ledger@.jobs },
                            now,
                        )
                },
    {
        let lines: Vec<Vec<u8>> = lines_of(content);
        let mut ledger = JobLedger::empty();
        let ghost raw = lines_in(content@);
        let mut skipped: usize = 0;
        let mut torn: bool = false;
        let mut i: usize = 0;
        proof {
            assert(raw.take(0) =~= Seq::<Seq<u8>>::empty());
            assert(replay(raw.take(0)) =~= Map::<Seq<char>, EntryView>::empty());
        }
        while i < lines.len()
            invariant
                i <= lines.len(),
                raw == raw_lines(lines@),
                ledger.wf(),
                ledger@.jobs == replay(raw.take(i as int)),
                ledger@.recovery is None,
                ledger@.lines == 0,
                skipped <= i,
                skipped == unreadable(raw.take(i as int)),
                torn == (i > 0 && line_of(raw[i - 1]) is Unreadable),
                forall|k: int, e: EntryView|
                    0 <= k < i && #[trigger] raw[k] == encode_utf8(#[trigger] entry_text(e))
                        ==> line_of(raw[k]) == Line::Entry(e),
            decreases lines.len() - i,
        {
            let ghost bytes = raw[i as int];
            proof {
                assert(bytes == lines@[i as int]@);
                assert(raw.take(i + 1).drop_last() =~= raw.take(i as int));
                assert(raw.take(i + 1).last() == bytes);
            }
            let parsed: Option<Option<Entry>> = match text::decoded(&lines[i]) {
                Some(line) => {
                    let entry = Entry::parse(line.as_str());
                    proof {
                        assert forall|e: EntryView|
                            bytes == encode_utf8(#[trigger] entry_text(e)) implies entry_of(line@)
                            == Some(e) && !blank(line@) by {
                            text::lemma_utf8_text(entry_text(e));
                            assert(line@ == entry_text(e));
                            text::lemma_not_blank(line@);
                        }
                    }
                    if text::is_blank(line.as_str()) {
                        None
                    } else {
                        Some(entry)
                    }
                },
                None => {
                    proof {
                        assert forall|e: EntryView|
                            bytes == encode_utf8(#[trigger] entry_text(e)) implies false by {
                            text::lemma_utf8_text(entry_text(e));
                        }
                    }
                    Some(None)
                },
            };
            match parsed {
                None => {
                    torn = false;
                },
                Some(None) => {
                    torn = true;
                    skipped = skipped + 1;
                },
                Some(Some(entry)) => {
                    torn = false;
                    ledger.put(entry);
                },
            }
            i += 1;
        }
        proof {
            assert(raw.take(i as int) =~= raw);
            assert forall|entries: Seq<EntryView>| #[trigger]
                file_lines(entries) == raw implies replay(raw) == jobs_of(entries) && damaged(raw)
                == 0 by {
                assert forall|k: int| 0 <= k < entries.len() implies line_of(
                    #[trigger] file_lines(entries)[k],
                ) == Line::Entry(entries[k]) by {
                    assert(raw[k] == encode_utf8(entry_text(entries[k])));
                }
                lemma_replay_written(entries);
            }
            assert forall|file: Seq<char>, jobs: Map<Seq<char>, EntryView>|
                content@ == encode_utf8(file) && #[trigger] backed(file, jobs) implies replay(raw)
                == jobs && damaged(raw) == 0 by {
                let entries = choose|entries: Seq<EntryView>|
                    one_line_each(entries) && #[trigger] jobs_of(entries) == jobs && file
                        == file_text(entries);
                assert(encode_utf8(file_text(entries)) == content@);
                assert(file_lines(entries) == raw);
            }
            if raw.len() > 0 {
                assert(unreadable(raw) == unreadable(raw.drop_last()) + (if torn {
                    1nat
                } else {
                    0nat
                }));
            }
        }
        let lost: usize = if torn {
            skipped - 1
        } else {
            skipped
        };
        ledger.lines = lines.len();
        if lost > 0 {
            ledger.recovery = Some(Recovery { skipped: lost });
            let p = preserve();
            match p {
                Ok(_) => {
                    assert(preserve.ensures((), p));
                },
                Err(e) => {
                    return Err(e);
                },
            }
        }
        assert(ledger@ =~= found(raw));
        let w = ledger.compact(now, rewrite);
        assert(compacted(found(raw), ledger@, now, rewrite, w));
        match w {
            Ok(_) => {
                proof {
                    let order = choose|order: Seq<EntryView>|
                        {
                            &&& one_each(order)
                            &&& one_line_each(order)
                            &&& #[trigger] jobs_of(order) == ledger@.jobs
                            &&& wrote(rewrite, file_text(order), w)
                        };
                    let after = Stored { file: file_text(order), jobs: ledger@.jobs };
                    assert forall|file: Seq<char>| content@ == #[trigger] encode_utf8(file) implies opened(
                        file,
                        after,
                        now,
                    ) by {
                        assert forall|jobs: Map<Seq<char>, EntryView>| #[trigger]
                            backed(file, jobs) implies after.jobs == unexpired(jobs, now)
                            && compaction(jobs, now, after.file) by {
                            assert(jobs_of(order) == unexpired(jobs, now));
                        }
                    }
                    assert(wrote(rewrite, after.file, w));
                }
                Ok(ledger)
            },
            Err(e) => Err(e),
        }
    }

    /// Claims a job **and has the claim on disk before it returns**: the answer
    /// is fresh only once `append` has written the record. A claim of a job that
    /// is known writes nothing.
    pub fn claim(
        &mut self,
        job_id: &str,
        now: u64,
        append: impl FnOnce(&str) -> BridgeResult<()>,
        rewrite: impl FnOnce(&str) -> BridgeResult<()>,
    ) -> (r: BridgeResult<Claim>)
        requires
            old(self).wf(),
            answer(old(self)@.jobs, job_id@) is Fresh ==> may_record(
                old(self)@,
                claim_entry(job_id@, now),
                now,
                append,
                rewrite,
            ),
        ensures
            final(self).wf(),
            if answer(old(self)@.jobs, job_id@) is Fresh {
                exists|done: BridgeResult<()>|
                    {
                        &&& #[trigger] recorded(
                            old(self)@,
                            final(self)@,
                            claim_entry(job_id@, now),
                            now,
                            append,
                            rewrite,
                            done,
                        )
                        &&& match done {
                            Ok(_) => r matches Ok(c) && c@ == ClaimView::Fresh,
                            Err(e) => r == Err::<Claim, BridgeError>(e),
                        }
                    }
            } else {
                &&& final(self)@ == old(self)@
                &&& r matches Ok(c) && c@ == answer(old(self)@.jobs, job_id@)
            },
    {
        match self.find(job_id) {
            Some(i) => {
                let previous: &Entry = &self.seen[i];
                Ok(
                    match previous.state {
                        JobState::Claimed => Claim::Interrupted,
                        JobState::Printed => Claim::AlreadyDone { ok: true, error: None },
                        JobState::Failed => Claim::AlreadyDone {
                            ok: false,
                            error: text::copy_opt(&previous.error),
                        },
                    },
                )
            },
            None => {
                let entry = Entry {
                    job_id: job_id.to_string(),
                    state: JobState::Claimed,
                    at: now,
                    error: None,
                };
                let done = self.append(entry, now, append, rewrite);
                assert(recorded(
                    old(self)@,
                    self@,
                    claim_entry(job_id@, now),
                    now,
                    append,
                    rewrite,
                    done,
                ));
                match done {
                    Ok(_) => Ok(Claim::Fresh),
                    Err(e) => Err(e),
                }
            },
        }
    }

    /// Records the outcome of a job. If the write fails the job stays claimed,
    /// which on a replay reads as interrupted: it will not reprint, it will
    /// report a failure.
    pub fn finish(
        &mut self,
        job_id: &str,
        ok: bool,
        error: Option<String>,
        now: u64,
        append: impl FnOnce(&str) -> BridgeResult<()>,
        rewrite: impl FnOnce(&str) -> BridgeResult<()>,
    ) -> (r: BridgeResult<()>)
        requires
            old(self).wf(),
            may_record(
                old(self)@,
                outcome_entry(job_id@, ok, text_opt(error), now),
                now,
                append,
                rewrite,
            ),
        ensures
            final(self).wf(),
            recorded(
                old(self)@,
                final(self)@,
                outcome_entry(job_id@, ok, text_opt(error), now),
                now,
                append,
                rewrite,
                r,
            ),
    {
        let kept: Option<String> = match error {
            Some(e) => Some(text::cut(e.as_str(), ERROR_CHARS)),
            None => None,
        };
        let entry = Entry {
            job_id: job_id.to_string(),
            state: if ok {
                JobState::Printed
            } else {
                JobState::Failed
            },
            at: now,
            error: kept,
        };
        self.append(entry, now, append, rewrite)
    }

    /// How many jobs are remembered.
    pub fn remembered(&self) -> (r: usize)
        requires
            self.wf(),
        ensures
            r == self@.jobs.dom().len(),
            self@.jobs.dom().finite(),
    {
        proof {
            lemma_jobs_of_len(entry_views(self.seen@));
        }
        self.seen.len()
    }

    /// The damage that was worked around when the ledger was opened.
    pub fn recovery(&self) -> (r: Option<Recovery>)
        ensures
            r == self@.recovery,
    {
        self.recovery
    }
}

proof fn lemma_replay_written(entries: Seq<EntryView>)
    requires
        forall|k: int|
            0 <= k < entries.len() ==> line_of(#[trigger] file_lines(entries)[k]) == Line::Entry(
                entries[k],
            ),
    ensures
        replay(file_lines(entries)) == jobs_of(entries),
        unreadable(file_lines(entries)) == 0,
        damaged(file_lines(entries)) == 0,
    decreases entries.len(),
{
    let lines = file_lines(entries);
    if entries.len() > 0 {
        let rest = entries.drop_last();
        assert(lines.drop_last() =~= file_lines(rest));
        assert forall|k: int| 0 <= k < rest.len() implies line_of(#[trigger] file_lines(rest)[k])
            == Line::Entry(rest[k]) by {
            assert(file_lines(rest)[k] == lines[k]);
        }
        lemma_replay_written(rest);
        assert(line_of(lines[entries.len() - 1]) == Line::Entry(entries.last()));
    }
}

proof fn lemma_jobs_of_len(entries: Seq<EntryView>)
    requires
        one_each(entries),
    ensures
        jobs_of(entries).dom().finite(),
        jobs_of(entries).dom().len() == entries.len(),
    decreases entries.len(),
{
    if entries.len() > 0 {
        let rest = entries.drop_last();
        assert forall|i: int, j: int| 0 <= i < j < rest.len() implies (#[trigger] rest[i]).id != (
        #[trigger] rest[j]).id by {
            assert(entries[i].id != entries[j].id);
        }
        lemma_jobs_of_len(rest);
        lemma_jobs_of(rest);
        let last = entries.len() - 1;
        if jobs_of(rest).dom().contains(entries[last].id) {
            let k = choose|k: int| 0 <= k < rest.len() && (#[trigger] rest[k]).id == entries[last].id;
            assert(entries[k].id != entries[last].id);
        }
        assert(jobs_of(entries).dom() =~= jobs_of(rest).dom().insert(entries[last].id));
    } else {
        assert(jobs_of(entries).dom() =~= Set::<Seq<char>>::empty());
    }
}

// ── Laws ────────────────────────────────────────────────────────────────

/// A job that was claimed is not granted again: a second claim finds it
/// interrupted, whether or not the file was compacted in between.
pub proof fn law_a_claim_is_granted_once<
    A: FnOnce(&str) -> BridgeResult<()>,
    R: FnOnce(&str) -> BridgeResult<()>,
>(
    before: LedgerView,
    after: LedgerView,
    id: Seq<char>,
    now: u64,
    append: A,
    rewrite: R,
    r: BridgeResult<()>,
)
    requires
        recorded(before, after, claim_entry(id, now), now, append, rewrite, r),
        r is Ok,
    ensures
        answer(after.jobs, id) == ClaimView::Interrupted,
{
}

/// The outcome that was recorded for a job is what every later claim of it is
/// answered: a job is never printed again, and a failure stays a failure.
pub proof fn law_an_outcome_is_answered_again<
    A: FnOnce(&str) -> BridgeResult<()>,
    R: FnOnce(&str) -> BridgeResult<()>,
>(
    before: LedgerView,
    after: LedgerView,
    id: Seq<char>,
    ok: bool,
    error: Option<Seq<char>>,
    now: u64,
    append: A,
    rewrite: R,
    r: BridgeResult<()>,
)
    requires
        recorded(before, after, outcome_entry(id, ok, error, now), now, append, rewrite, r),
        r is Ok,
    ensures
        answer(after.jobs, id) == (ClaimView::AlreadyDone {
            ok,
            error: if ok {
                None
            } else {
                outcome_entry(id, ok, error, now).error
            },
        }),
{
}

/// Recording one job leaves what is answered of every other job alone, but for
/// the jobs that are too old to be remembered. Where the record could not be
/// written, nothing changes at all.
pub proof fn law_other_jobs_are_left_alone<
    A: FnOnce(&str) -> BridgeResult<()>,
    R: FnOnce(&str) -> BridgeResult<()>,
>(
    before: LedgerView,
    after: LedgerView,
    e: EntryView,
    other: Seq<char>,
    now: u64,
    append: A,
    rewrite: R,
    r: BridgeResult<()>,
)
    requires
        recorded(before, after, e, now, append, rewrite, r),
        other != e.id,
    ensures
        answer(after.jobs, other) == answer(before.jobs, other) || (before.jobs.dom().contains(other)
            && before.jobs[other].at < cutoff(now) && answer(after.jobs, other) is Fresh),
{
}

/// A compaction forgets the jobs that are older than a day, which are then fresh
/// again, and no others.
pub proof fn law_compaction_forgets_only_what_expired(
    jobs: Map<Seq<char>, EntryView>,
    id: Seq<char>,
    now: u64,
)
    ensures
        answer(unexpired(jobs, now), id) == (if jobs.dom().contains(id) && jobs[id].at < cutoff(now) {
            ClaimView::Fresh
        } else {
            answer(jobs, id)
        }),
{
}

/// Something that happens to a ledger, with the moment it happens at. Where a
/// write is refused, it is not `done`. Opening the ledger again may follow a
/// crash or not: nothing of the memory is used, only the file.
pub enum Operation {
    Claim { id: Seq<char>, now: u64, done: bool },
    Finish { id: Seq<char>, ok: bool, error: Option<Seq<char>>, now: u64, done: bool },
    Open { now: u64 },
}

/// When an operation happens.
pub open spec fn moment(op: Operation) -> u64 {
    match op {
        Operation::Claim { now, .. } => now,
        Operation::Finish { now, .. } => now,
        Operation::Open { now } => now,
    }
}

/// What recording an entry does. Where it is done, the line is at the end of the
/// file, or the file has been compacted with it. Where it is not, nothing has
/// changed, or only the compaction is missing from the file.
pub open spec fn entered(before: Stored, after: Stored, e: EntryView, now: u64, done: bool) -> bool {
    let jobs = before.jobs.insert(e.id, e);
    let longer = before.file + entry_line(e);
    &&& no_controls(entry_text(e))
    &&& if done {
        ||| after.file == longer && after.jobs == jobs
        ||| compaction(jobs, now, after.file) && after.jobs == unexpired(jobs, now)
    } else {
        ||| after == before
        ||| after.file == longer && after.jobs == unexpired(jobs, now)
    }
}

/// What an operation does to a ledger and its file.
pub open spec fn step(before: Stored, after: Stored, op: Operation) -> bool {
    match op {
        Operation::Claim { id, now, done } => if answer(before.jobs, id) is Fresh {
            entered(before, after, claim_entry(id, now), now, done)
        } else {
            done && after == before
        },
        Operation::Finish { id, ok, error, now, done } => entered(
            before,
            after,
            outcome_entry(id, ok, error, now),
            now,
            done,
        ),
        Operation::Open { now } => opened(before.file, after, now),
    }
}

/// What becomes of a file when `append` is handed a line, and then perhaps
/// `rewrite` a text: each does what it is asked, or fails and leaves the file as
/// it is.
pub open spec fn written<
    A: FnOnce(&str) -> BridgeResult<()>,
    R: FnOnce(&str) -> BridgeResult<()>,
>(before: Seq<char>, after: Seq<char>, line: Seq<char>, append: A, rewrite: R) -> bool {
    ||| after == before && exists|w: BridgeResult<()>| w is Err && #[trigger] wrote(append, line, w)
    ||| after == before + line && exists|w: BridgeResult<()>|
        w is Ok && #[trigger] wrote(append, line, w)
    ||| exists|w: BridgeResult<()>| w is Ok && #[trigger] wrote(rewrite, after, w)
}

/// What a ledger records is a step: once a claim or an outcome has been recorded
/// over a file, or could not be, ledger and file are where the step says.
pub proof fn law_records_are_steps<
    A: FnOnce(&str) -> BridgeResult<()>,
    R: FnOnce(&str) -> BridgeResult<()>,
>(
    file: Seq<char>,
    before: LedgerView,
    after: LedgerView,
    e: EntryView,
    op: Operation,
    append: A,
    rewrite: R,
    r: BridgeResult<()>,
)
    requires
        recorded(before, after, e, moment(op), append, rewrite, r),
        match op {
            Operation::Claim { id, now, done } => {
                &&& answer(before.jobs, id) is Fresh
                &&& e == claim_entry(id, now)
                &&& done == (r is Ok)
            },
            Operation::Finish { id, ok, error, now, done } => {
                &&& e == outcome_entry(id, ok, error, now)
                &&& done == (r is Ok)
            },
            Operation::Open { .. } => false,
        },
    ensures
        exists|left: Seq<char>|
            {
                &&& #[trigger] written(file, left, entry_line(e), append, rewrite)
                &&& step(
                    Stored { file, jobs: before.jobs },
                    Stored { file: left, jobs: after.jobs },
                    op,
                )
            },
{
    let now = moment(op);
    let line = entry_line(e);
    let w = choose|w: BridgeResult<()>|
        {
            &&& #[trigger] wrote(append, line, w)
            &&& match w {
                Err(_) => after == before && r == w,
                Ok(_) => if grown(before, e).lines > COMPACT_AT_ENTRIES {
                    compacted(grown(before, e), after, now, rewrite, r)
                } else {
                    after == grown(before, e) && r is Ok
                },
            }
        };
    let start = Stored { file, jobs: before.jobs };
    if w is Ok && grown(before, e).lines > COMPACT_AT_ENTRIES && r is Ok {
        let order = choose|order: Seq<EntryView>|
            {
                &&& one_each(order)
                &&& one_line_each(order)
                &&& #[trigger] jobs_of(order) == after.jobs
                &&& wrote(rewrite, file_text(order), r)
            };
        let end = Stored { file: file_text(order), jobs: after.jobs };
        assert(compaction(grown(before, e).jobs, now, end.file));
        assert(entered(start, end, e, now, true));
        assert(written(file, end.file, line, append, rewrite));
    } else if w is Ok {
        let end = Stored { file: file + line, jobs: after.jobs };
        assert(entered(start, end, e, now, r is Ok));
        assert(written(file, end.file, line, append, rewrite));
    } else {
        assert(entered(start, start, e, now, false));
        assert(written(file, file, line, append, rewrite));
    }
}

/// Whatever the memory of a ledger holds, its file holds.
pub open spec fn kept(s: Stored) -> bool {
    exists|all: Map<Seq<char>, EntryView>| #[trigger]
        backed(s.file, all) && s.jobs.submap_of(all)
}

/// The file and the memory of a ledger stay together: whatever the memory holds
/// the file holds, and still does after every operation, a refused write
/// included.
pub proof fn law_file_and_memory_stay_together(before: Stored, after: Stored, op: Operation)
    requires
        kept(before),
        step(before, after, op),
    ensures
        kept(after),
{
    let all = choose|all: Map<Seq<char>, EntryView>| #[trigger]
        backed(before.file, all) && before.jobs.submap_of(all);
    match op {
        Operation::Claim { id, now, done } => {
            if answer(before.jobs, id) is Fresh {
                lemma_entered_is_kept(before, after, all, claim_entry(id, now), now, done);
            }
        },
        Operation::Finish { id, ok, error, now, done } => {
            lemma_entered_is_kept(
                before,
                after,
                all,
                outcome_entry(id, ok, error, now),
                now,
                done,
            );
        },
        Operation::Open { now } => {
            lemma_compaction_is_backed(all, now, after.file);
            assert(after.jobs.submap_of(unexpired(all, now)));
        },
    }
}

proof fn lemma_compaction_is_backed(jobs: Map<Seq<char>, EntryView>, now: u64, file: Seq<char>)
    requires
        compaction(jobs, now, file),
    ensures
        backed(file, unexpired(jobs, now)),
{
}

proof fn lemma_entered_is_kept(
    before: Stored,
    after: Stored,
    all: Map<Seq<char>, EntryView>,
    e: EntryView,
    now: u64,
    done: bool,
)
    requires
        backed(before.file, all),
        before.jobs.submap_of(all),
        entered(before, after, e, now, done),
    ensures
        kept(after),
{
    let entries = choose|entries: Seq<EntryView>|
        {
            &&& one_line_each(entries)
            &&& #[trigger] jobs_of(entries) == all
            &&& before.file == file_text(entries)
        };
    let next = entries.push(e);
    assert(next.drop_last() =~= entries);
    assert(file_text(entries) + entry_text(e) + "\n"@ =~= file_text(entries) + entry_line(e));
    assert(jobs_of(next) == all.insert(e.id, e));
    assert(one_line_each(next));
    assert(backed(before.file + entry_line(e), all.insert(e.id, e)));
    let jobs = before.jobs.insert(e.id, e);
    assert(jobs.submap_of(all.insert(e.id, e)));
    assert(unexpired(jobs, now).submap_of(all.insert(e.id, e)));
    if after.file == before.file + entry_line(e) {
        assert(after.jobs.submap_of(all.insert(e.id, e)));
    } else if after != before {
        lemma_compaction_is_backed(jobs, now, after.file);
        assert(after.jobs.submap_of(unexpired(jobs, now)));
    }
}

/// Opening a ledger again answers every claim as before, but for the jobs that
/// are older than a day, which are fresh again.
pub proof fn law_opening_again_keeps_the_answers(
    before: Stored,
    after: Stored,
    id: Seq<char>,
    now: u64,
)
    requires
        backed(before.file, before.jobs),
        step(before, after, Operation::Open { now }),
    ensures
        answer(after.jobs, id) == (if before.jobs.dom().contains(id) && before.jobs[id].at < cutoff(
            now,
        ) {
            ClaimView::Fresh
        } else {
            answer(before.jobs, id)
        }),
{
}

/// A job that was claimed and never finished is interrupted, also for the bridge
/// that opens the same file within the day.
pub proof fn law_a_claim_survives_a_restart(
    before: Stored,
    claimed: Stored,
    after: Stored,
    id: Seq<char>,
    now: u64,
    later: u64,
)
    requires
        kept(before),
        answer(before.jobs, id) is Fresh,
        step(before, claimed, Operation::Claim { id, now, done: true }),
        step(claimed, after, Operation::Open { now: later }),
        later <= now + RETENTION,
    ensures
        answer(claimed.jobs, id) == ClaimView::Interrupted,
        answer(after.jobs, id) == ClaimView::Interrupted,
{
    law_file_and_memory_stay_together(
        before,
        claimed,
        Operation::Claim { id, now, done: true },
    );
    lemma_opened_remembers(claimed, after, id, later);
}

proof fn lemma_opened_remembers(before: Stored, after: Stored, id: Seq<char>, now: u64)
    requires
        kept(before),
        opened(before.file, after, now),
        before.jobs.dom().contains(id),
        before.jobs[id].at >= cutoff(now),
    ensures
        after.jobs.dom().contains(id),
        after.jobs[id] == before.jobs[id],
{
    let all = choose|all: Map<Seq<char>, EntryView>| #[trigger]
        backed(before.file, all) && before.jobs.submap_of(all);
    assert(before.jobs.submap_of(all));
    assert(all.dom().contains(id));
    assert(all[id] == before.jobs[id]);
    assert(backed(before.file, all));
}

/// What became of a ledger and its file in the course of these operations.
pub open spec fn history(states: Seq<Stored>, ops: Seq<Operation>) -> bool {
    &&& states.len() == ops.len() + 1
    &&& forall|i: int|
        0 <= i < ops.len() ==> step(states[i], states[i + 1], #[trigger] ops[i])
}

/// The operation `i` grants the job.
pub open spec fn grants(states: Seq<Stored>, ops: Seq<Operation>, id: Seq<char>, i: int) -> bool {
    &&& 0 <= i < ops.len()
    &&& ops[i] matches Operation::Claim { id: claimed, done, .. } && claimed == id && done
    &&& answer(states[i].jobs, id) is Fresh
}

/// These operations all happen in the day that begins at `start`.
pub open spec fn within_a_day(ops: Seq<Operation>, start: u64) -> bool {
    forall|i: int|
        0 <= i < ops.len() ==> start <= moment(#[trigger] ops[i]) && moment(ops[i]) <= start
            + RETENTION
}

/// Within the day that a job is remembered for, it is granted at most once,
/// whatever happens to the ledger and its file: however often the job is
/// claimed, finished, a write refused, or the ledger opened again by another run
/// of the bridge.
pub proof fn law_a_job_is_granted_at_most_once_a_day(
    states: Seq<Stored>,
    ops: Seq<Operation>,
    id: Seq<char>,
    start: u64,
    i: int,
    j: int,
)
    requires
        history(states, ops),
        kept(states[0]),
        within_a_day(ops, start),
        grants(states, ops, id, i),
        grants(states, ops, id, j),
    ensures
        i == j,
{
    if i < j {
        lemma_granted_is_remembered(states, ops, id, start, i, j);
    } else if j < i {
        lemma_granted_is_remembered(states, ops, id, start, j, i);
    }
}

proof fn lemma_history_is_kept(states: Seq<Stored>, ops: Seq<Operation>, k: int)
    requires
        history(states, ops),
        kept(states[0]),
        0 <= k <= ops.len(),
    ensures
        kept(states[k]),
    decreases k,
{
    if k > 0 {
        lemma_history_is_kept(states, ops, k - 1);
        law_file_and_memory_stay_together(states[k - 1], states[k], ops[k - 1]);
    }
}

proof fn lemma_granted_is_remembered(
    states: Seq<Stored>,
    ops: Seq<Operation>,
    id: Seq<char>,
    start: u64,
    i: int,
    k: int,
)
    requires
        history(states, ops),
        kept(states[0]),
        within_a_day(ops, start),
        grants(states, ops, id, i),
        i < k <= ops.len(),
    ensures
        states[k].jobs.dom().contains(id),
        states[k].jobs[id].at >= start,
    decreases k - i,
{
    let op = ops[k - 1];
    assert(step(states[k - 1], states[k], op));
    assert(start <= moment(op) && moment(op) <= start + RETENTION);
    if k - 1 > i {
        lemma_granted_is_remembered(states, ops, id, start, i, k - 1);
        if let Operation::Open { now } = op {
            lemma_history_is_kept(states, ops, k - 1);
            lemma_opened_remembers(states[k - 1], states[k], id, now);
        }
    }
}

/// What is answered to a claim follows from what the ledger holds of the job: nothing
/// and it is fresh; an outcome and it is that outcome, with its reason; only a claim
/// and it was interrupted.
pub proof fn law_a_claim_is_answered_by_what_is_held(
    jobs: Map<Seq<char>, EntryView>,
    id: Seq<char>,
)
    ensures
        !jobs.dom().contains(id) <==> answer(jobs, id) is Fresh,
        jobs.dom().contains(id) && jobs[id].state is Claimed ==> answer(jobs, id) is Interrupted,
        jobs.dom().contains(id) && jobs[id].state is Printed ==> (answer(
            jobs,
            id,
        ) matches ClaimView::AlreadyDone { ok, error } && ok && error is None),
        jobs.dom().contains(id) && jobs[id].state is Failed ==> (answer(
            jobs,
            id,
        ) matches ClaimView::AlreadyDone { ok, error } && !ok && error == jobs[id].error),
{
}

/// A claim is recorded as a claim of that job at that moment, and an outcome as the
/// outcome of that job: printed exactly where it was, with the beginning of the
/// reason, up to five hundred characters of it.
pub proof fn law_an_entry_records_what_happened(
    id: Seq<char>,
    ok: bool,
    error: Option<Seq<char>>,
    now: u64,
)
    ensures
        claim_entry(id, now).id == id && claim_entry(id, now).at == now,
        claim_entry(id, now).state is Claimed && claim_entry(id, now).error is None,
        ({
            let e = outcome_entry(id, ok, error, now);
            &&& e.id == id && e.at == now
            &&& e.state is Printed <==> ok
            &&& e.state is Failed <==> !ok
            &&& e.error is Some <==> error is Some
            &&& error matches Some(m) ==> e.error->Some_0.is_prefix_of(m) && (m.len() <= 500
                ==> e.error == error) && (m.len() > 500 ==> e.error->Some_0.len() == 500)
        }),
{
    if let Some(m) = error {
        text::law_a_cut_is_the_beginning(m, 500);
    }
}

/// An entry, a claim and its answer mean what they hold.
pub proof fn law_an_entry_means_what_it_holds(e: Entry, c: Claim)
    ensures
        e@.id == e.job_id@ && e@.state == e.state && e@.at == e.at,
        e@.error == (match e.error {
            Some(m) => Some(m@),
            None => None,
        }),
        match c {
            Claim::Fresh => c@ is Fresh,
            Claim::Interrupted => c@ is Interrupted,
            Claim::AlreadyDone { ok, error } => c@ matches ClaimView::AlreadyDone { ok: o, error: m }
                && o == ok && m == (match error {
                Some(t) => Some(t@),
                None => None,
            }),
        },
{
}

/// A line of the file names what it records.
pub proof fn law_a_line_names_what_it_records(e: EntryView)
    ensures
        entry_text(e) == record_text(entry_members(e)),
        record_member(entry_members(e), "jobId"@) == Some(Plain::Text(e.id)),
        record_member(entry_members(e), "at"@) == Some(Plain::Number(e.at)),
        record_member(entry_members(e), "state"@) == Some(
            Plain::Text(
                match e.state {
                    JobState::Claimed => "claimed"@,
                    JobState::Printed => "printed"@,
                    JobState::Failed => "failed"@,
                },
            ),
        ),
        record_member(entry_members(e), "error"@) == (match e.error {
            Some(m) => Some(Plain::Text(m)),
            None => None,
        }),
{
    lemma_entry_members(e);
}

/// An entry says what the members of its line hold, each field what stands under its
/// own name.
pub proof fn law_an_entry_is_what_its_members_hold(
    line: Seq<char>,
    members: Seq<Member>,
    e: EntryView,
)
    requires
        json_items(line) is None,
        record_in(encode_utf8(line), seq!["jobId"@, "state"@, "at"@, "error"@]) == Some(members),
        entry_of(line) == Some(e),
    ensures
        member(members, "jobId"@) matches Some(t) && json_string(t) == Some(e.id),
        member(members, "at"@) matches Some(t) && json_u64(t) == Some(e.at),
        member(members, "state"@) matches Some(t) && (json_string(t) matches Some(name) ==> name
            == state_name(e.state)),
        match member(members, "error"@) {
            Some(t) => json_string(t) == e.error && (e.error is None ==> t == "null"@),
            None => e.error is None,
        },
{
    lemma_state_names();
}

/// A job is remembered for a day: exactly the entries of the last 86400 seconds are
/// kept, as they are.
pub proof fn law_a_job_is_remembered_for_a_day(
    jobs: Map<Seq<char>, EntryView>,
    id: Seq<char>,
    now: u64,
)
    ensures
        unexpired(jobs, now).dom().contains(id) <==> jobs.dom().contains(id) && jobs[id].at + 86_400
            >= now,
        unexpired(jobs, now).dom().contains(id) ==> unexpired(jobs, now)[id] == jobs[id],
{
}

/// The last line for a job wins, and says nothing of any other job.
pub proof fn law_the_last_entry_wins(entries: Seq<EntryView>, e: EntryView, other: Seq<char>)
    requires
        other != e.id,
    ensures
        jobs_of(entries.push(e)).dom().contains(e.id),
        jobs_of(entries.push(e))[e.id] == e,
        jobs_of(entries.push(e)).dom().contains(other) == jobs_of(entries).dom().contains(other),
        jobs_of(entries).dom().contains(other) ==> jobs_of(entries.push(e))[other] == jobs_of(
            entries,
        )[other],
        jobs_of(Seq::<EntryView>::empty()).dom() == Set::<Seq<char>>::empty(),
{
    assert(entries.push(e).drop_last() =~= entries);
    assert(jobs_of(Seq::<EntryView>::empty()).dom() =~= Set::<Seq<char>>::empty());
}

/// What a file comes to, line by line: an entry counts for its job, and a line that
/// holds none changes nothing; of these, only one that is not blank is damage, and
/// only where a line follows it.
pub proof fn law_a_file_is_read_line_by_line(lines: Seq<Seq<u8>>, line: Seq<u8>)
    ensures
        line_of(line) matches Line::Entry(e) ==> replay(lines.push(line)) == replay(lines).insert(
            e.id,
            e,
        ),
        !(line_of(line) is Entry) ==> replay(lines.push(line)) == replay(lines),
        damaged(lines.push(line)) == unreadable(lines),
        unreadable(lines.push(line)) == unreadable(lines) + (if line_of(line) is Unreadable {
            1int
        } else {
            0int
        }),
        unreadable(Seq::<Seq<u8>>::empty()) == 0,
        damaged(Seq::<Seq<u8>>::empty()) == 0,
        found(lines).jobs == replay(lines),
        found(lines).recovery is Some <==> damaged(lines) > 0,
{
    assert(lines.push(line).drop_last() =~= lines);
}

/// A file is cut at its line ends and nowhere else: its first line is what stands
/// before the first of them, and the other lines are those of what stands behind it.
pub proof fn law_a_file_is_cut_at_its_line_ends(line: Seq<u8>, rest: Seq<u8>)
    requires
        forall|i: int| 0 <= i < line.len() ==> #[trigger] line[i] != 10u8,
    ensures
        lines_in(line + seq![10u8] + rest) == seq![line] + lines_in(rest),
        line.len() > 0 ==> lines_in(line) == seq![line],
        lines_in(Seq::<u8>::empty()) == Seq::<Seq<u8>>::empty(),
{
    let none = Seq::<u8>::empty();
    lemma_cut_lines_append(none, line);
    assert(none + line =~= line);
    assert(cut_lines(none).0 =~= Seq::<Seq<u8>>::empty());
    assert(cut_lines(line).1 =~= line);
    let ended = line + seq![10u8];
    assert(ended.drop_last() =~= line);
    assert(ended.last() == 10u8);
    assert(cut_lines(ended).0 =~= seq![line]);
    lemma_cut_lines_after(ended, rest);
    assert(lines_in(ended + rest) =~= seq![line] + lines_in(rest));
    assert(lines_in(line) =~= cut_lines(line).0.push(line) || line.len() == 0);
}

proof fn lemma_cut_lines_after(a: Seq<u8>, b: Seq<u8>)
    requires
        cut_lines(a).1.len() == 0,
    ensures
        cut_lines(a + b).0 == cut_lines(a).0 + cut_lines(b).0,
        cut_lines(a + b).1 == cut_lines(b).1,
    decreases b.len(),
{
    if b.len() == 0 {
        assert(a + b =~= a);
        assert(cut_lines(a).0 + cut_lines(b).0 =~= cut_lines(a).0);
        assert(cut_lines(a).1 =~= cut_lines(b).1);
    } else {
        assert((a + b).drop_last() =~= a + b.drop_last());
        lemma_cut_lines_after(a, b.drop_last());
        assert(cut_lines(a + b).0 =~= cut_lines(a).0 + cut_lines(b).0);
    }
}

/// The words for damage say how much of it there was.
pub proof fn law_damage_is_told_by_its_extent(skipped: nat)
    ensures
        exists|head: Seq<char>, end: Seq<char>|
            recovery_text(skipped) == #[trigger] (head + decimal(skipped) + end),
{
    let head = "El registro de impresiones estaba dañado y se recuperó: "@;
    let end = " línea(s) ilegible(s) descartada(s). Algún ticket reciente podría imprimirse dos veces."@;
    assert(recovery_text(skipped) == head + decimal(skipped) + end);
}

/// Each state has its name in the file.
pub proof fn law_a_job_state_is_known_by_its_name(state: JobState, name: Seq<char>)
    ensures
        state_name(state) == "claimed"@ <==> state is Claimed,
        state_name(state) == "printed"@ <==> state is Printed,
        state_name(state) == "failed"@ <==> state is Failed,
        state_of(name) == Some(state) <==> name == state_name(state),
{
    lemma_state_names();
    reveal_strlit("claimed");
    reveal_strlit("printed");
    reveal_strlit("failed");
    assert("claimed"@[0] == 'c');
    assert("printed"@[0] == 'p');
    assert("failed"@[0] == 'f');
}

/// A line that is blank is passed over, a line that holds an entry is that entry, and
/// everything else, what is no text among it, cannot be read.
pub proof fn law_a_line_is_what_it_holds(text: Seq<char>)
    ensures
        blank(text) ==> line_of(encode_utf8(text)) is Blank,
        !blank(text) ==> match entry_of(text) {
            Some(e) => line_of(encode_utf8(text)) == Line::Entry(e),
            None => line_of(encode_utf8(text)) is Unreadable,
        },
        forall|bytes: Seq<u8>|
            utf8_text(bytes) is None ==> #[trigger] line_of(bytes) is Unreadable,
{
    text::lemma_utf8_text(text);
}

/// A line is an entry wherever it says what it has to, in the right shape: as an
/// object, whatever else it says, or as an array.
pub proof fn law_an_entry_in_shape_is_taken(line: Seq<char>)
    ensures
        json_items(line) is None ==> (record_in(
            encode_utf8(line),
            seq!["jobId"@, "state"@, "at"@, "error"@],
        ) matches Some(m) ==> (member(m, "jobId"@) matches Some(t) && json_string(t) is Some) && (
        member(m, "state"@) matches Some(t) && (json_string(t) == Some("claimed"@) || json_string(t)
            == Some("printed"@) || json_string(t) == Some("failed"@))) && (member(
            m,
            "at"@,
        ) matches Some(t) && json_u64(t) is Some) && (member(m, "error"@) matches Some(t)
            ==> json_string(t) is Some || t == "null"@) ==> entry_of(line) is Some),
        json_items(line) matches Some(items) ==> (entry_of(line) matches Some(e) ==> items.len() == 4
            && json_string(items[0]) == Some(e.id) && json_u64(items[2]) == Some(e.at)
            && json_string(items[3]) == e.error),
        json_items(line) matches Some(items) ==> items.len() == 4 && json_string(items[0]) is Some
            && json_string(items[1]) == Some("claimed"@) && json_u64(items[2]) is Some && (
        json_string(items[3]) is Some || items[3] == "null"@) ==> entry_of(line) is Some,
{
}

} // verus!
