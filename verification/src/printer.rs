//! What reaches a printer, short of the spooler itself.

use vstd::prelude::*;
use vstd::string::*;

use crate::error::{BridgeError, BridgeResult};
use crate::text;
use crate::text::{decimal, digit, lower, texts, upper};

verus! {

/// The name a print job has in the spooler's queue.
pub const SPOOL_JOB_NAME: &'static str = "GourmelyPrint Job";

/// The ESC/POS bytes of the test ticket: reset, centre, double size, the name,
/// normal size, a line of text, four line feeds and a partial cut.
pub open spec fn test_ticket() -> Seq<u8> {
    seq![
        0x1bu8, 0x40, 0x1b, 0x61, 0x01, 0x1b, 0x21, 0x30,
        // GOURMELYPRINT
        0x47, 0x4f, 0x55, 0x52, 0x4d, 0x45, 0x4c, 0x59, 0x50, 0x52, 0x49, 0x4e, 0x54, 0x0a,
        0x1b, 0x21, 0x00,
        // Test desde el bridge
        0x54, 0x65, 0x73, 0x74, 0x20, 0x64, 0x65, 0x73, 0x64, 0x65, 0x20, 0x65, 0x6c, 0x20, 0x62,
        0x72, 0x69, 0x64, 0x67, 0x65, 0x0a, 0x0a,
        0x0a, 0x0a, 0x0a, 0x0a, 0x1d, 0x56, 0x01,
    ]
}

/// Canonical ESC/POS test ticket, used by both the tray menu and the `test`
/// request so the two print byte-identical pages.
pub fn test_ticket_bytes() -> (r: Vec<u8>)
    ensures
        r@ == test_ticket(),
{
    let bytes: Vec<u8> = vec![
        0x1b, 0x40, 0x1b, 0x61, 0x01, 0x1b, 0x21, 0x30,
        // GOURMELYPRINT
        0x47, 0x4f, 0x55, 0x52, 0x4d, 0x45, 0x4c, 0x59, 0x50, 0x52, 0x49, 0x4e, 0x54, 0x0a,
        0x1b, 0x21, 0x00,
        // Test desde el bridge
        0x54, 0x65, 0x73, 0x74, 0x20, 0x64, 0x65, 0x73, 0x64, 0x65, 0x20, 0x65, 0x6c, 0x20, 0x62,
        0x72, 0x69, 0x64, 0x67, 0x65, 0x0a, 0x0a,
        0x0a, 0x0a, 0x0a, 0x0a, 0x1d, 0x56, 0x01,
    ];
    assert(bytes@ =~= test_ticket());
    bytes
}

/// The character as it stands in a file name: letters and digits of ASCII are
/// kept, anything else becomes an underscore.
pub open spec fn file_char(c: char) -> char {
    if digit(c) || upper(c) || lower(c) {
        c
    } else {
        '_'
    }
}

/// The name of the file that a job for `printer` goes to instead of the spooler.
pub open spec fn sink_name(printer: Seq<char>, stamp: u64) -> Seq<char> {
    printer.map_values(|c: char| file_char(c)) + "-"@ + decimal(stamp as nat) + ".escpos"@
}

/// The name of the file that a job for `printer` goes to, at the moment `stamp`
/// in milliseconds, when jobs are sent to a folder instead of the spooler.
pub fn sink_file_name(printer: &str, stamp: u64) -> (r: String)
    ensures
        r@ == sink_name(printer@, stamp),
{
    let chars: Vec<char> = text::chars_of(printer);
    let mut out = String::new();
    let mut i: usize = 0;
    let ghost safe = printer@.map_values(|c: char| file_char(c));
    assert(out@ =~= safe.take(0));
    while i < chars.len()
        invariant
            i <= chars.len(),
            chars@ == printer@,
            safe == printer@.map_values(|c: char| file_char(c)),
            out@ == safe.take(i as int),
        decreases chars.len() - i,
    {
        let c: char = chars[i];
        if text::is_digit(c) || text::is_upper(c) || text::is_lower(c) {
            out.push(c);
        } else {
            out.push('_');
        }
        assert(out@ =~= safe.take(i + 1));
        i += 1;
    }
    assert(safe.take(i as int) =~= safe);
    out.append("-");
    out.append(text::number(stamp).as_str());
    out.append(".escpos");
    out
}

/// Where the printer of this name stands in the list: the first of them, or an
/// error that names it.
pub fn find_printer(names: &Vec<String>, name: &str) -> (r: BridgeResult<usize>)
    ensures
        match r {
            Ok(i) => {
                &&& i < names@.len()
                &&& names@[i as int]@ == name@
                &&& forall|j: int| 0 <= j < i ==> (#[trigger] names@[j])@ != name@
            },
            Err(e) => {
                &&& e matches BridgeError::PrinterNotFound(n) && n@ == name@
                &&& !texts(names@).contains(name@)
            },
        },
{
    let mut i: usize = 0;
    while i < names.len()
        invariant
            i <= names.len(),
            forall|j: int| 0 <= j < i ==> (#[trigger] names@[j])@ != name@,
        decreases names.len() - i,
    {
        if text::same(names[i].as_str(), name) {
            return Ok(i);
        }
        i += 1;
    }
    proof {
        if texts(names@).contains(name@) {
            let k = choose|k: int| 0 <= k < texts(names@).len() && texts(names@)[k] == name@;
            assert(names@[k]@ == name@);
        }
    }
    Err(BridgeError::PrinterNotFound(name.to_string()))
}

// ── Laws ────────────────────────────────────────────────────────────────

/// The name of the file keeps the letters and digits of the printer's name, each in
/// its place, and nothing else of it; and it says when.
pub proof fn law_a_file_is_named_after_its_printer(printer: Seq<char>, stamp: u64)
    ensures
        sink_name(printer, stamp).len() == printer.len() + 1 + decimal(stamp as nat).len() + 7,
        forall|i: int|
            0 <= i < printer.len() ==> (#[trigger] sink_name(printer, stamp)[i]) == (if '0'
                <= printer[i] <= '9' || 'A' <= printer[i] <= 'Z' || 'a' <= printer[i] <= 'z' {
                printer[i]
            } else {
                '_'
            }),
        sink_name(printer, stamp).skip(printer.len() as int) == "-"@ + decimal(stamp as nat)
            + ".escpos"@,
{
    reveal_strlit("-");
    reveal_strlit(".escpos");
    assert forall|i: int| 0 <= i < printer.len() implies (#[trigger] sink_name(printer, stamp)[i])
        == file_char(printer[i]) by {
        assert(printer.map_values(|c: char| file_char(c))[i] == file_char(printer[i]));
    }
    assert(sink_name(printer, stamp).skip(printer.len() as int) =~= "-"@ + decimal(stamp as nat)
        + ".escpos"@);
}

} // verus!
