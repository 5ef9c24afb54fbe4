//! One bridge per till.
//!
//! The operating system enforces it: a lock on a file of its own, held for as
//! long as the process lives. This module holds the words around it: the note
//! that says who holds the lock, and the sentence the second copy shows.

use vstd::prelude::*;
use vstd::string::*;

use crate::error::joined;
use crate::text;
use crate::text::{all_digits, decimal, digit, text_opt, word};

verus! {

/// Appended to the lock file's name to get the note that names the holder.
pub const OWNER_SUFFIX: &'static str = ".owner";

/// The note beside the lock: the process and the moment it took the lock, in
/// Unix seconds.
pub open spec fn owner_note_text(pid: u32, at: u64) -> Seq<char> {
    decimal(pid as nat) + " "@ + decimal(at as nat) + "\n"@
}

/// The note beside the lock.
pub fn owner_note(pid: u32, at: u64) -> (r: String)
    ensures
        r@ == owner_note_text(pid, at),
{
    let mut out = joined(text::number(pid as u64).as_str(), " ");
    out.append(text::number(at).as_str());
    out.append("\n");
    out
}

/// The process that a note names: its first word, where that is a number.
pub open spec fn named_process(note: Option<Seq<char>>) -> Option<Seq<char>> {
    match note {
        Some(n) => if word(n).len() > 0 && all_digits(word(n)) {
            Some(word(n))
        } else {
            None
        },
        None => None,
    }
}

/// The sentence the second copy shows.
pub open spec fn held_by_text(note: Option<Seq<char>>) -> Seq<char> {
    "GourmelyPrint Bridge ya está abierto en este equipo"@ + (match named_process(note) {
        Some(pid) => " (proceso "@ + pid + ")"@,
        None => Seq::empty(),
    })
        + ". Esta copia no va a imprimir: dos bridges en la misma caja sacan cada ticket dos veces. Usa el que ya está funcionando desde el icono junto al reloj."@
}

/// The sentence the second copy shows, given the note beside the lock, if it
/// could be read. Written for whoever is standing at the till, so it says what
/// to do. The process is a bonus: the sentence has to work without it.
pub fn held_by(note: &Option<String>) -> (r: String)
    ensures
        r@ == held_by_text(text_opt(*note)),
{
    let mut out = "GourmelyPrint Bridge ya está abierto en este equipo".to_string();
    match note {
        Some(n) => {
            let pid: String = text::first_word(n.as_str());
            if pid.as_str().unicode_len() > 0 && text::is_all_digits(pid.as_str()) {
                out.append(" (proceso ");
                out.append(pid.as_str());
                out.append(")");
            }
        },
        None => {},
    }
    out.append(
        ". Esta copia no va a imprimir: dos bridges en la misma caja sacan cada ticket dos veces. Usa el que ya está funcionando desde el icono junto al reloj.",
    );
    assert(out@ =~= held_by_text(text_opt(*note)));
    out
}

// ── Laws ────────────────────────────────────────────────────────────────

/// The note that a process leaves beside its lock names that process, and so does
/// the sentence that the second copy shows; where there is no note the sentence
/// stands all the same.
pub proof fn law_the_note_names_its_process(pid: u32, at: u64)
    ensures
        named_process(Some(owner_note_text(pid, at))) == Some(decimal(pid as nat)),
        forall|later: u64|
            (#[trigger] owner_note_text(pid, later)) == owner_note_text(pid, at) ==> later == at,
        exists|head: Seq<char>, end: Seq<char>|
            held_by_text(Some(owner_note_text(pid, at))) == #[trigger] (head + decimal(pid as nat)
                + end) && held_by_text(None).len() < (head + end).len(),
{
    let digits = decimal(pid as nat);
    let note = owner_note_text(pid, at);
    reveal_strlit(" ");
    reveal_strlit("\n");
    text::lemma_decimal_digits(pid as nat);
    let rest = " "@ + decimal(at as nat) + "\n"@;
    assert(note =~= digits + rest);
    assert(digit(digits[0]));
    assert(text::trim_start(note) == note);
    lemma_until_white(digits, rest);
    assert forall|later: u64|
        (#[trigger] owner_note_text(pid, later)) == owner_note_text(pid, at) implies later == at by {
        let other = decimal(later as nat);
        let n = digits.len() as int;
        let seen = owner_note_text(pid, later);
        assert(seen =~= digits + " "@ + other + "\n"@);
        assert(note =~= digits + " "@ + decimal(at as nat) + "\n"@);
        assert(seen.len() == n + 2 + other.len());
        assert(note.len() == n + 2 + decimal(at as nat).len());
        assert(seen.subrange(n + 1, seen.len() - 1) =~= other);
        assert(note.subrange(n + 1, note.len() - 1) =~= decimal(at as nat));
        text::law_a_decimal_is_its_number(later as nat);
        text::law_a_decimal_is_its_number(at as nat);
    }
    let start = "GourmelyPrint Bridge ya está abierto en este equipo"@;
    let stop = ". Esta copia no va a imprimir: dos bridges en la misma caja sacan cada ticket dos veces. Usa el que ya está funcionando desde el icono junto al reloj."@;
    let head = start + " (proceso "@;
    let end = ")"@ + stop;
    reveal_strlit(" (proceso ");
    reveal_strlit(")");
    assert(held_by_text(Some(note)) =~= head + digits + end);
    assert(held_by_text(None) =~= start + stop);
}

proof fn lemma_until_white(digits: Seq<char>, rest: Seq<char>)
    requires
        all_digits(digits),
        rest.len() > 0 && text::white_space(rest[0]),
    ensures
        text::until_white(digits + rest) == digits,
    decreases digits.len(),
{
    let s = digits + rest;
    if digits.len() == 0 {
        assert(s =~= rest);
    } else {
        assert(digit(digits[0]));
        assert(s[0] == digits[0]);
        assert(s.drop_first() =~= digits.drop_first() + rest);
        assert forall|i: int| 0 <= i < digits.drop_first().len() implies digit(
            #[trigger] digits.drop_first()[i],
        ) by {
            assert(digit(digits[i + 1]));
        }
        lemma_until_white(digits.drop_first(), rest);
        assert(seq![digits[0]] + digits.drop_first() =~= digits);
    }
}

/// A note names a process only by a number, and only its first word counts.
pub proof fn law_a_process_is_a_number(note: Seq<char>)
    ensures
        named_process(Some(note)) matches Some(pid) ==> pid.len() > 0 && all_digits(pid) && pid
            == word(note),
        word(note).len() > 0 && all_digits(word(note)) ==> named_process(Some(note)) is Some,
        named_process(None) is None,
{
}

} // verus!
