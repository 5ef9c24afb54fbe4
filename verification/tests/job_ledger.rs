use std::cell::RefCell;

use print_bridge::error::{BridgeError, BridgeResult};
use print_bridge::job_ledger::{
    lines_of, Claim, Entry, JobLedger, JobState, Recovery, COMPACT_AT_ENTRIES, RETENTION,
};

const NOW: u64 = 1_800_000_000;

/// A file that can be made to refuse a write.
struct Disk {
    content: RefCell<Vec<u8>>,
    broken: bool,
}

impl Disk {
    fn new(content: &str) -> Disk {
        Disk { content: RefCell::new(content.as_bytes().to_vec()), broken: false }
    }

    fn lines(&self) -> Vec<Vec<u8>> {
        lines_of(&self.content.borrow())
    }

    fn bytes(&self) -> Vec<u8> {
        self.content.borrow().clone()
    }

    fn text(&self) -> String {
        String::from_utf8(self.content.borrow().clone()).expect("utf-8")
    }

    fn append(&self, line: &str) -> BridgeResult<()> {
        if self.broken {
            return Err(BridgeError::Io("disk full".into()));
        }
        self.content.borrow_mut().extend_from_slice(line.as_bytes());
        Ok(())
    }

    fn rewrite(&self, body: &str) -> BridgeResult<()> {
        if self.broken {
            return Err(BridgeError::Io("disk full".into()));
        }
        *self.content.borrow_mut() = body.as_bytes().to_vec();
        Ok(())
    }

    fn open(&self, now: u64) -> BridgeResult<JobLedger> {
        let content = self.content.borrow().clone();
        JobLedger::open(&content, now, || Ok(()), |body: &str| self.rewrite(body))
    }

    fn claim(&self, ledger: &mut JobLedger, id: &str, now: u64) -> BridgeResult<Claim> {
        ledger.claim(id, now, |l: &str| self.append(l), |b: &str| self.rewrite(b))
    }

    fn finish(
        &self,
        ledger: &mut JobLedger,
        id: &str,
        ok: bool,
        error: Option<String>,
        now: u64,
    ) -> BridgeResult<()> {
        ledger.finish(id, ok, error, now, |l: &str| self.append(l), |b: &str| self.rewrite(b))
    }
}

#[test]
fn a_new_job_is_fresh_and_a_repeat_is_not() {
    let disk = Disk::new("");
    let mut ledger = disk.open(NOW).expect("open");
    assert_eq!(disk.claim(&mut ledger, "job-1", NOW).expect("claim"), Claim::Fresh);
    disk.finish(&mut ledger, "job-1", true, None, NOW).expect("finish");
    assert_eq!(
        disk.claim(&mut ledger, "job-1", NOW).expect("claim"),
        Claim::AlreadyDone { ok: true, error: None }
    );
}

#[test]
fn a_failure_is_replayed_as_a_failure_not_as_a_reprint() {
    let disk = Disk::new("");
    let mut ledger = disk.open(NOW).expect("open");
    disk.claim(&mut ledger, "job-2", NOW).expect("claim");
    disk.finish(&mut ledger, "job-2", false, Some("sin papel".into()), NOW).expect("finish");
    assert_eq!(
        disk.claim(&mut ledger, "job-2", NOW).expect("claim"),
        Claim::AlreadyDone { ok: false, error: Some("sin papel".into()) }
    );
}

#[test]
fn a_crash_between_claiming_and_printing_does_not_reprint() {
    let disk = Disk::new("");
    {
        let mut ledger = disk.open(NOW).expect("open");
        assert_eq!(disk.claim(&mut ledger, "job-3", NOW).expect("claim"), Claim::Fresh);
        // Power cut here: `finish` never runs.
    }
    let mut reborn = disk.open(NOW).expect("reopen");
    assert_eq!(disk.claim(&mut reborn, "job-3", NOW).expect("claim"), Claim::Interrupted);
}

#[test]
fn survives_a_torn_final_line() {
    let disk = Disk::new("");
    {
        let mut ledger = disk.open(NOW).expect("open");
        disk.claim(&mut ledger, "job-4", NOW).expect("claim");
        disk.finish(&mut ledger, "job-4", true, None, NOW).expect("finish");
    }
    // A write interrupted halfway through the last line.
    let mut raw = disk.text();
    raw.push_str("{\"jobId\":\"job-5\",\"sta");
    let disk = Disk::new(&raw);

    let mut reborn = disk.open(NOW).expect("reopen");
    assert_eq!(
        disk.claim(&mut reborn, "job-4", NOW).expect("claim"),
        Claim::AlreadyDone { ok: true, error: None }
    );
    // The half-written one was never really claimed, so it prints.
    assert_eq!(disk.claim(&mut reborn, "job-5", NOW).expect("claim"), Claim::Fresh);
    assert_eq!(reborn.recovery(), None);
}

#[test]
fn compaction_evicts_expired_entries_and_shrinks_the_file() {
    let stale = NOW - RETENTION - 60;
    let fresh = NOW;
    let mut body = String::new();
    for i in 0..50 {
        body.push_str(&format!(
            "{{\"jobId\":\"old-{i}\",\"state\":\"printed\",\"at\":{stale}}}\n"
        ));
    }
    body.push_str(&format!(
        "{{\"jobId\":\"new\",\"state\":\"printed\",\"at\":{fresh}}}\n"
    ));
    let disk = Disk::new(&body);

    let mut ledger = disk.open(NOW).expect("open");
    assert_eq!(ledger.remembered(), 1, "only the fresh entry survives");
    // An evicted job is treated as new again: the server can no longer replay
    // something that old.
    assert_eq!(disk.claim(&mut ledger, "old-0", NOW).expect("claim"), Claim::Fresh);
    let on_disk = disk.text();
    assert!(
        on_disk.lines().count() <= 2,
        "file was rewritten, not grown"
    );
}

#[test]
fn the_lines_have_the_shape_they_always_had() {
    let disk = Disk::new("");
    let mut ledger = disk.open(NOW).expect("open");
    disk.claim(&mut ledger, "a\"b\n", NOW).expect("claim");
    disk.finish(&mut ledger, "a\"b\n", false, Some("sin papel".into()), NOW + 1).expect("finish");
    assert_eq!(
        disk.text(),
        "{\"jobId\":\"a\\\"b\\n\",\"state\":\"claimed\",\"at\":1800000000}\n\
         {\"jobId\":\"a\\\"b\\n\",\"state\":\"failed\",\"at\":1800000001,\"error\":\"sin papel\"}\n"
    );
    let mut reborn = disk.open(NOW).expect("reopen");
    assert_eq!(
        disk.claim(&mut reborn, "a\"b\n", NOW).expect("claim"),
        Claim::AlreadyDone { ok: false, error: Some("sin papel".into()) }
    );
}

#[test]
fn a_line_that_was_written_reads_back_as_the_entry() {
    let entry = Entry {
        job_id: "x\\y".into(),
        state: JobState::Failed,
        at: u64::MAX,
        error: Some("null".into()),
    };
    let back = Entry::parse(&entry.line()).expect("entry");
    assert_eq!(back.job_id, "x\\y");
    assert_eq!(back.state, JobState::Failed);
    assert_eq!(back.at, u64::MAX);
    assert_eq!(back.error.as_deref(), Some("null"));

    let bare = Entry::parse(r#"["j","claimed",7,null]"#).expect("array form");
    assert_eq!((bare.job_id.as_str(), bare.state, bare.at), ("j", JobState::Claimed, 7));
    assert!(bare.error.is_none());
    assert!(Entry::parse(r#"["j","claimed",7]"#).is_none());
    assert!(Entry::parse(r#"{"jobId":"j","state":"lost","at":7}"#).is_none());
    assert!(Entry::parse(r#"{"jobId":"j","state":"printed","at":-7}"#).is_none());
    assert!(Entry::parse(r#"{"jobId":"j","state":"printed","at":7,"error":5}"#).is_none());
    assert!(Entry::parse(r#"{"jobId":"j","state":"printed","at":7,"error":null}"#).is_some());
    assert!(Entry::from_fields(None, None, None, None).is_none());
}

#[test]
fn a_claim_that_cannot_be_written_is_not_granted() {
    let mut disk = Disk::new("");
    let mut ledger = disk.open(NOW).expect("open");
    disk.broken = true;
    match disk.claim(&mut ledger, "job", NOW) {
        Err(BridgeError::Io(m)) => assert_eq!(m, "disk full"),
        other => panic!("{other:?}"),
    }
    assert_eq!(ledger.remembered(), 0);
    disk.broken = false;
    // Nothing was remembered of the failed attempt.
    assert_eq!(disk.claim(&mut ledger, "job", NOW).expect("claim"), Claim::Fresh);
}

#[test]
fn an_outcome_that_cannot_be_written_leaves_the_job_claimed() {
    let mut disk = Disk::new("");
    let mut ledger = disk.open(NOW).expect("open");
    disk.claim(&mut ledger, "job", NOW).expect("claim");
    disk.broken = true;
    assert!(disk.finish(&mut ledger, "job", true, None, NOW).is_err());
    disk.broken = false;
    assert_eq!(disk.claim(&mut ledger, "job", NOW).expect("claim"), Claim::Interrupted);
}

#[test]
fn the_last_line_for_a_job_wins() {
    let disk = Disk::new(&format!(
        "{{\"jobId\":\"j\",\"state\":\"claimed\",\"at\":{NOW}}}\n\n\
         {{\"jobId\":\"j\",\"state\":\"printed\",\"at\":{NOW}}}\n"
    ));
    let mut ledger = disk.open(NOW).expect("open");
    assert_eq!(ledger.remembered(), 1);
    assert_eq!(
        disk.claim(&mut ledger, "j", NOW).expect("claim"),
        Claim::AlreadyDone { ok: true, error: None }
    );
}

#[test]
fn damage_before_the_last_line_is_salvaged_and_said_out_loud() {
    let mut content = b"garbage\n".to_vec();
    content.extend_from_slice(&[0xff, 0xfe, b'\n']);
    content.extend_from_slice(
        format!("{{\"jobId\":\"j\",\"state\":\"printed\",\"at\":{NOW}}}\n").as_bytes(),
    );
    let disk = Disk { content: RefCell::new(content), broken: false };
    let mut kept_aside = false;
    let mut ledger = JobLedger::open(
        &disk.bytes(),
        NOW,
        || {
            kept_aside = true;
            Ok(())
        },
        |b: &str| disk.rewrite(b),
    )
    .expect("open");
    assert!(kept_aside);
    assert_eq!(ledger.recovery(), Some(Recovery { skipped: 2 }));
    assert_eq!(
        ledger.recovery().map(|r| r.message()).as_deref(),
        Some(
            "El registro de impresiones estaba dañado y se recuperó: 2 línea(s) ilegible(s) \
             descartada(s). Algún ticket reciente podría imprimirse dos veces."
        )
    );
    assert_eq!(
        disk.claim(&mut ledger, "j", NOW).expect("claim"),
        Claim::AlreadyDone { ok: true, error: None }
    );
}

#[test]
fn a_damaged_file_that_cannot_be_kept_aside_is_not_overwritten() {
    let disk = Disk::new("garbage\n\n");
    let refused = JobLedger::open(
        &disk.bytes(),
        NOW,
        || Err(BridgeError::Io("cannot move".into())),
        |_: &str| unreachable!("the file must stay as it is"),
    );
    match refused {
        Err(BridgeError::Io(m)) => assert_eq!(m, "cannot move"),
        _ => panic!("opened over a damaged file"),
    }
    assert_eq!(disk.text(), "garbage\n\n");
}

#[test]
fn a_file_that_cannot_be_rewritten_is_not_opened() {
    let mut disk = Disk::new("");
    disk.broken = true;
    assert!(disk.open(NOW).is_err());
}

#[test]
fn a_long_file_is_compacted_on_the_way() {
    let disk = Disk::new("");
    let mut ledger = disk.open(NOW).expect("open");
    for i in 0..COMPACT_AT_ENTRIES {
        let id = format!("job-{}", i % 3);
        disk.finish(&mut ledger, &id, true, None, NOW).expect("finish");
    }
    assert_eq!(disk.lines().len(), COMPACT_AT_ENTRIES);
    disk.finish(&mut ledger, "one-more", true, None, NOW).expect("finish");
    assert_eq!(disk.lines().len(), 4, "one line per job is left");
    assert_eq!(ledger.remembered(), 4);
}

#[test]
fn a_job_just_inside_the_day_is_still_remembered() {
    let disk = Disk::new(&format!(
        "{{\"jobId\":\"in\",\"state\":\"printed\",\"at\":{}}}\n\
         {{\"jobId\":\"out\",\"state\":\"printed\",\"at\":{}}}\n",
        NOW - RETENTION,
        NOW - RETENTION - 1
    ));
    let mut ledger = disk.open(NOW).expect("open");
    assert_eq!(ledger.remembered(), 1);
    assert_eq!(
        disk.claim(&mut ledger, "in", NOW).expect("claim"),
        Claim::AlreadyDone { ok: true, error: None }
    );
    assert_eq!(disk.claim(&mut ledger, "out", NOW).expect("claim"), Claim::Fresh);
}

#[test]
fn a_long_error_is_cut() {
    let disk = Disk::new("");
    let mut ledger = disk.open(NOW).expect("open");
    disk.claim(&mut ledger, "j", NOW).expect("claim");
    disk.finish(&mut ledger, "j", false, Some("ñ".repeat(600)), NOW).expect("finish");
    assert_eq!(
        disk.claim(&mut ledger, "j", NOW).expect("claim"),
        Claim::AlreadyDone { ok: false, error: Some("ñ".repeat(500)) }
    );
}

#[test]
fn a_job_is_granted_at_most_once_a_day_whatever_happens() {
    for code in 0..5usize.pow(6) {
        let mut disk = Disk::new("");
        let mut ledger = disk.open(NOW).expect("open");
        let (mut granted, mut rest) = (0, code);
        for step in 0..6u64 {
            let now = NOW + step * (RETENTION / 6);
            match rest % 5 {
                0 => {
                    if disk.claim(&mut ledger, "j", now).expect("claim") == Claim::Fresh {
                        granted += 1;
                    }
                }
                1 => disk.finish(&mut ledger, "j", false, None, now).expect("finish"),
                2 => {
                    disk.claim(&mut ledger, "other", now).expect("claim");
                }
                3 => {
                    // A refused write grants nothing.
                    disk.broken = true;
                    assert!(!matches!(disk.claim(&mut ledger, "j", now), Ok(Claim::Fresh)));
                    disk.broken = false;
                }
                _ => ledger = disk.open(now).expect("reopen"),
            }
            rest /= 5;
        }
        assert!(granted <= 1, "granted {granted} times in history {code}");
    }
}

#[test]
fn a_file_is_cut_at_its_line_ends() {
    let lines = |text: &str| -> Vec<String> {
        lines_of(&text.as_bytes().to_vec())
            .into_iter()
            .map(|l| String::from_utf8(l).expect("utf-8"))
            .collect()
    };
    assert!(lines("").is_empty());
    assert_eq!(lines("\n"), vec![""]);
    assert_eq!(lines("a"), vec!["a"]);
    assert_eq!(lines("a\n"), vec!["a"]);
    assert_eq!(lines("a\n\nñ\nb"), vec!["a", "", "ñ", "b"]);
}

#[test]
fn what_the_ledger_writes_takes_one_line_each() {
    let disk = Disk::new("");
    let mut ledger = disk.open(NOW).expect("open");
    disk.claim(&mut ledger, "two\nlines", NOW).expect("claim");
    disk.finish(&mut ledger, "two\nlines", false, Some("line\nend".into()), NOW).expect("finish");
    assert_eq!(disk.lines().len(), 2);
    let mut again = disk.open(NOW).expect("reopen");
    assert!(again.recovery().is_none());
    assert_eq!(
        disk.claim(&mut again, "two\nlines", NOW).expect("claim"),
        Claim::AlreadyDone { ok: false, error: Some("line\nend".into()) }
    );
}

#[test]
fn a_claim_survives_a_restart() {
    let disk = Disk::new("");
    let mut ledger = disk.open(NOW).expect("open");
    assert_eq!(disk.claim(&mut ledger, "j", NOW).expect("claim"), Claim::Fresh);
    let mut reborn = disk.open(NOW + RETENTION).expect("reopen");
    assert_eq!(disk.claim(&mut reborn, "j", NOW + RETENTION).expect("claim"), Claim::Interrupted);
    let mut late = disk.open(NOW + RETENTION + 1).expect("reopen");
    assert_eq!(disk.claim(&mut late, "j", NOW + RETENTION + 1).expect("claim"), Claim::Fresh);
}

#[test]
fn a_claim_of_a_known_job_leaves_the_file_alone() {
    let disk = Disk::new("");
    let mut ledger = disk.open(NOW).expect("open");
    disk.claim(&mut ledger, "j", NOW).expect("claim");
    let again = ledger.claim(
        "j",
        NOW + 1,
        |_: &str| unreachable!("nothing to append"),
        |_: &str| unreachable!("nothing to rewrite"),
    );
    assert_eq!(again.expect("claim"), Claim::Interrupted);
}

#[test]
fn a_short_file_is_only_appended_to() {
    let disk = Disk::new("");
    let mut ledger = disk.open(NOW).expect("open");
    ledger
        .finish("j", true, None, NOW, |l: &str| disk.append(l), |_: &str| {
            unreachable!("nothing to compact")
        })
        .expect("finish");
    assert_eq!(disk.text(), "{\"jobId\":\"j\",\"state\":\"printed\",\"at\":1800000000}\n");
}

#[test]
fn a_member_that_nobody_reads_does_not_spoil_a_line() {
    // A number that no integer and no float can hold, and a key of its own.
    let disk = Disk::new(&format!(
        "{{\"$serde_json::private::RawValue\":\"1\",\"x\":1e999,\"jobId\":\"j\",\"state\":\"printed\",\"at\":{NOW}}}\nend\n"
    ));
    let mut ledger = disk.open(NOW).expect("open");
    assert!(ledger.recovery().is_none());
    assert_eq!(
        disk.claim(&mut ledger, "j", NOW).expect("claim"),
        Claim::AlreadyDone { ok: true, error: None }
    );
}

#[test]
fn a_line_that_repeats_a_member_is_no_record() {
    assert!(Entry::parse(r#"{"jobId":"a","jobId":"b","state":"printed","at":7}"#).is_none());
    assert!(Entry::parse(r#"{"jobId":"a","state":"printed","at":7,"at":7}"#).is_none());
    // One that nobody reads may stand there as often as it likes.
    let entry = Entry::parse(r#"{"x":1,"jobId":"a","x":2,"state":"printed","at":7}"#);
    assert_eq!(entry.expect("entry").job_id, "a");
}

#[test]
fn a_state_may_be_written_as_an_object() {
    let state = |json: &str| Entry::parse(json).map(|e| e.state);
    let line = |state: &str| format!(r#"{{"jobId":"a","state":{state},"at":7}}"#);
    assert_eq!(state(&line(r#"{"claimed":null}"#)), Some(JobState::Claimed));
    assert_eq!(state(&line(r#"{ "printed" : null }"#)), Some(JobState::Printed));
    assert_eq!(state(r#"["a",{"failed":null},7,null]"#), Some(JobState::Failed));
    for refused in [
        r#"{"claimed":1}"#,
        r#"{"claimed":null,"claimed":null}"#,
        r#"{"claimed":null,"x":null}"#,
        r#"{"lost":null}"#,
        r#"{}"#,
        "null",
    ] {
        assert_eq!(state(&line(refused)), None, "{refused}");
    }
}
