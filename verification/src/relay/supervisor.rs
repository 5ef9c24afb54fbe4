//! What the relay does between connections: take the ledger, dial, wait, dial
//! again, for ever.

use vstd::prelude::*;
use vstd::string::*;

use crate::config::{server_url_of, Settings};
use crate::engineio::{websocket_url, websocket_url_text};
use crate::error::{error_text, joined, BridgeError};
use crate::relay::connection::{Ended, EndedView};
use crate::relay::{
    backoff_at, ledger_taken_status, wait_at, RelayHandle, RelayState, RelayStatusView,
    HEALTHY_AFTER, LEDGER_LOG_EVERY, LEDGER_RETRY_MAX, MAX_BACKOFF, REVOKED_BACKOFF,
};
use crate::text::text_opt;

verus! {

// ── Taking the ledger ───────────────────────────────────────────────────

/// How far the wait for the print ledger has got.
///
/// Failing to take the ledger means another copy of the bridge holds it, or the
/// disk is in trouble, and this one must not connect: two relays with one
/// station token print every ticket twice. It keeps asking, because the other
/// copy can be closed and this one should come back on its own when it is.
#[derive(Debug)]
pub struct LedgerWait {
    attempt: u32,
}

impl View for LedgerWait {
    type V = u32;

    closed spec fn view(&self) -> u32 {
        self.attempt
    }
}

/// What to do after an attempt to open the ledger.
#[derive(Debug, Clone, Copy, PartialEq, Eq)]
pub enum LedgerStep {
    /// The ledger is ours.
    Taken,
    /// Try again in `delay` milliseconds; `log` when a reminder is due.
    Retry { delay: u64, log: bool },
}

/// One more attempt than `n`, as far as they are counted.
pub open spec fn one_more(n: u32) -> u32 {
    if n < u32::MAX {
        (n + 1) as u32
    } else {
        u32::MAX
    }
}

/// The sentence for a ledger that cannot be opened.
pub open spec fn ledger_trouble(path: Seq<char>, e: BridgeError) -> Seq<char> {
    "El bridge no puede abrir su registro de impresiones en "@ + path + ": "@ + error_text(e)
        + ". No imprimirá pedidos remotos hasta que se resuelva en este equipo (espacio en disco, permisos o antivirus). Lo seguirá intentando."@
}

/// The status after an attempt to open the ledger at `path`.
pub open spec fn ledger_status(
    before: RelayStatusView,
    attempt: u32,
    outcome: Result<Option<Seq<char>>, BridgeError>,
    path: Seq<char>,
) -> RelayStatusView {
    match outcome {
        Ok(recovered) => ledger_taken_status(before, attempt, recovered),
        Err(BridgeError::AlreadyRunning(message)) => RelayStatusView {
            state: RelayState::Standby,
            last_error: Some(message@),
            ..before
        },
        Err(e) => RelayStatusView {
            state: RelayState::LedgerUnavailable,
            last_error: Some(ledger_trouble(path, e)),
            ..before
        },
    }
}

/// The view of what came of an attempt to open the ledger.
pub open spec fn outcome_view(outcome: Result<Option<String>, BridgeError>) -> Result<
    Option<Seq<char>>,
    BridgeError,
> {
    match outcome {
        Ok(recovered) => Ok(text_opt(recovered)),
        Err(e) => Err(e),
    }
}

impl LedgerWait {
    /// Before the first attempt.
    pub fn new() -> (r: LedgerWait)
        ensures
            r@ == 0,
    {
        LedgerWait { attempt: 0 }
    }

    /// An attempt to open the ledger at `path` came to `outcome`: open, with the
    /// words for the damage that was worked around if there was any, or an
    /// error. The two kinds of error need opposite things from whoever is
    /// standing there, so each has a state and a sentence of its own.
    pub fn attempted(
        &mut self,
        relay: &mut RelayHandle,
        outcome: Result<Option<String>, BridgeError>,
        path: &str,
        nanos: u32,
    ) -> (r: LedgerStep)
        ensures
            final(relay)@ == ledger_status(old(relay)@, old(self)@, outcome_view(outcome), path@),
            match outcome {
                Ok(_) => r is Taken && final(self)@ == old(self)@,
                Err(_) => {
                    &&& r matches LedgerStep::Retry { delay, log } && delay == wait_at(
                        old(self)@,
                        LEDGER_RETRY_MAX,
                        nanos,
                    ) && log == (old(self)@ % LEDGER_LOG_EVERY == 0)
                    &&& final(self)@ == one_more(old(self)@)
                },
            },
    {
        let attempt: u32 = self.attempt;
        match outcome {
            Ok(recovered) => {
                relay.ledger_taken(attempt, recovered);
                return LedgerStep::Taken;
            },
            Err(BridgeError::AlreadyRunning(message)) => {
                relay.fail(RelayState::Standby, message);
            },
            Err(e) => {
                let mut sentence = joined(
                    "El bridge no puede abrir su registro de impresiones en ",
                    path,
                );
                sentence.append(": ");
                sentence.append(e.message().as_str());
                sentence.append(
                    ". No imprimirá pedidos remotos hasta que se resuelva en este equipo (espacio en disco, permisos o antivirus). Lo seguirá intentando.",
                );
                relay.fail(RelayState::LedgerUnavailable, sentence);
            },
        }
        self.attempt = attempt.saturating_add(1);
        LedgerStep::Retry {
            delay: backoff_at(attempt, LEDGER_RETRY_MAX, nanos),
            log: attempt % LEDGER_LOG_EVERY == 0,
        }
    }
}

// ── Dialling ────────────────────────────────────────────────────────────

/// How many connections in a row have failed.
#[derive(Debug)]
pub struct Supervisor {
    attempt: u32,
}

impl View for Supervisor {
    type V = u32;

    closed spec fn view(&self) -> u32 {
        self.attempt
    }
}

/// What to do next.
#[derive(Debug)]
pub enum Next {
    /// No station is paired: wait until one is.
    Park,
    /// Connect to `url` with the station token.
    Dial { url: String, token: String },
}

/// The sentence for a token that the server refused.
pub open spec fn rejected_text() -> Seq<char> {
    "El servidor rechazó esta estación. Genera un código nuevo en Configuración → Impresión → Estaciones y vuelve a vincularla."@
}

/// The attempts that count against a connection that ended: none when it had
/// held.
pub open spec fn counted_attempts(attempt: u32, held: u64) -> u32 {
    if held >= HEALTHY_AFTER {
        0
    } else {
        attempt
    }
}

/// The attempts that count after a connection ended.
pub open spec fn attempts_after(attempt: u32, ended: EndedView, held: u64) -> u32 {
    match ended {
        EndedView::Rejected(_) => attempt,
        EndedView::Transport(_) => one_more(counted_attempts(attempt, held)),
    }
}

/// How long to wait after a connection ended.
pub open spec fn delay_after(attempt: u32, ended: EndedView, held: u64, nanos: u32) -> int {
    match ended {
        EndedView::Rejected(_) => REVOKED_BACKOFF as int,
        EndedView::Transport(_) => wait_at(counted_attempts(attempt, held), MAX_BACKOFF, nanos),
    }
}

/// The status after a connection ended.
pub open spec fn status_after(before: RelayStatusView, ended: EndedView) -> RelayStatusView {
    match ended {
        EndedView::Rejected(_) => RelayStatusView {
            state: RelayState::Rejected,
            last_error: Some(rejected_text()),
            ..before
        },
        EndedView::Transport(message) => RelayStatusView {
            state: RelayState::Connecting,
            last_error: Some(message),
            ..before
        },
    }
}

impl Supervisor {
    /// Before the first connection.
    pub fn new() -> (r: Supervisor)
        ensures
            r@ == 0,
    {
        Supervisor { attempt: 0 }
    }

    /// What to do under these settings.
    pub fn next(&self, settings: &Settings, relay: &mut RelayHandle) -> (r: Next)
        ensures
            match settings@.station_token {
                Some(token) => {
                    &&& r matches Next::Dial { url, token: t } && t@ == token && url@
                        == websocket_url_text(server_url_of(settings@.server_url))
                    &&& final(relay)@ == (RelayStatusView {
                        state: RelayState::Connecting,
                        ..old(relay)@
                    })
                },
                None => {
                    &&& r is Park
                    &&& final(relay)@ == (RelayStatusView {
                        state: RelayState::Unpaired,
                        last_error: None,
                        ..old(relay)@
                    })
                },
            },
    {
        match &settings.station_token {
            Some(token) => {
                let url: String = websocket_url(settings.server_url().as_str());
                relay.set_state(RelayState::Connecting);
                Next::Dial { url, token: token.clone() }
            },
            None => {
                relay.unpaired();
                Next::Park
            },
        }
    }

    /// A connection ended after it had held for `held` milliseconds. Returns how
    /// long to wait before the next one.
    ///
    /// A revoked token is not a network problem: it waits longer and says so,
    /// while still retrying. The backoff resets only after a connection has
    /// held: resetting on "connected" alone would turn a crash loop into a tight
    /// loop.
    pub fn ended(&mut self, relay: &mut RelayHandle, ended: Ended, held: u64, nanos: u32) -> (r: u64)
        ensures
            r == delay_after(old(self)@, ended@, held, nanos),
            final(self)@ == attempts_after(old(self)@, ended@, held),
            final(relay)@ == status_after(old(relay)@, ended@),
    {
        match ended {
            Ended::Rejected(_) => {
                relay.fail(
                    RelayState::Rejected,
                    "El servidor rechazó esta estación. Genera un código nuevo en Configuración → Impresión → Estaciones y vuelve a vincularla.".to_string(),
                );
                REVOKED_BACKOFF
            },
            Ended::Transport(message) => {
                if held >= HEALTHY_AFTER {
                    self.attempt = 0;
                }
                relay.fail(RelayState::Connecting, message);
                let delay: u64 = backoff_at(self.attempt, MAX_BACKOFF, nanos);
                self.attempt = self.attempt.saturating_add(1);
                delay
            },
        }
    }

    /// The pairing changed: start over, without waiting the backoff out.
    pub fn woken(&mut self)
        ensures
            final(self)@ == 0,
    {
        self.attempt = 0;
    }
}

// ── Laws ────────────────────────────────────────────────────────────────

/// The attempts that count after a run of dropped connections, each with how
/// long it had held.
pub open spec fn attempts_after_drops(attempt: u32, helds: Seq<u64>) -> u32
    decreases helds.len(),
{
    if helds.len() == 0 {
        attempt
    } else {
        one_more(counted_attempts(attempts_after_drops(attempt, helds.drop_last()), helds.last()))
    }
}

/// A run of connections that never held is counted in full, however long it is:
/// none of them resets the backoff. So the wait after such a run is the one of
/// its last attempt.
pub proof fn law_a_crash_loop_does_not_reset_the_backoff(attempt: u32, helds: Seq<u64>)
    requires
        forall|i: int| 0 <= i < helds.len() ==> #[trigger] helds[i] < HEALTHY_AFTER,
    ensures
        attempts_after_drops(attempt, helds) == (if attempt + helds.len() < u32::MAX {
            attempt + helds.len()
        } else {
            u32::MAX as int
        }),
    decreases helds.len(),
{
    if helds.len() > 0 {
        law_a_crash_loop_does_not_reset_the_backoff(attempt, helds.drop_last());
        assert(helds.last() < HEALTHY_AFTER);
    }
}

/// The relay never gives up: whatever ended a connection, there is a next
/// attempt, at most five minutes away, and a dropped connection waits no longer
/// than a minute and a fifth.
pub proof fn law_the_relay_never_gives_up(attempt: u32, ended: EndedView, held: u64, nanos: u32)
    ensures
        0 < delay_after(attempt, ended, held, nanos) <= REVOKED_BACKOFF,
        ended is Transport ==> delay_after(attempt, ended, held, nanos) <= MAX_BACKOFF + MAX_BACKOFF
            / 5,
{
    crate::relay::law_the_wait_is_capped(counted_attempts(attempt, held), MAX_BACKOFF, nanos);
    crate::relay::law_the_wait_grows(0, counted_attempts(attempt, held), MAX_BACKOFF);
    reveal_with_fuel(crate::relay::power_of_two, 7);
}

/// A refused token and a dead link are told apart: they leave the relay in
/// different states, and only the refused token asks for a human.
pub proof fn law_a_refused_token_is_not_a_network_problem(
    before: RelayStatusView,
    refusal: Seq<char>,
    reason: Seq<char>,
)
    ensures
        status_after(before, EndedView::Rejected(refusal)).state is Rejected,
        status_after(before, EndedView::Transport(reason)).state is Connecting,
        status_after(before, EndedView::Transport(reason)).last_error == Some(reason),
{
}

/// A connection that held for half a minute or longer resets the backoff, however
/// many failed before it and however long it held: the wait after it is the first
/// wait, and it counts as the first failure.
pub proof fn law_a_connection_that_held_resets_the_backoff(
    attempt: u32,
    reason: Seq<char>,
    held: u64,
    nanos: u32,
)
    requires
        held >= 30_000,
    ensures
        delay_after(attempt, EndedView::Transport(reason), held, nanos) == wait_at(
            0,
            MAX_BACKOFF,
            nanos,
        ),
        attempts_after(attempt, EndedView::Transport(reason), held) == 1,
{
}

/// A connection that did not hold counts: the wait after it is the one of all the
/// failures before it, and there is one more of them.
pub proof fn law_a_connection_that_did_not_hold_counts(
    attempt: u32,
    reason: Seq<char>,
    held: u64,
    nanos: u32,
)
    requires
        held < 30_000,
    ensures
        delay_after(attempt, EndedView::Transport(reason), held, nanos) == wait_at(
            attempt,
            MAX_BACKOFF,
            nanos,
        ),
        attempt < u32::MAX ==> attempts_after(attempt, EndedView::Transport(reason), held)
            == attempt + 1,
        attempt == u32::MAX ==> attempts_after(attempt, EndedView::Transport(reason), held)
            == attempt,
{
}

/// The longer a connection had held, the shorter the wait after it: the wait
/// never grows with the time that it held.
pub proof fn law_the_wait_never_grows_with_the_time_held(
    attempt: u32,
    reason: Seq<char>,
    shorter: u64,
    longer: u64,
    nanos: u32,
)
    requires
        shorter <= longer,
    ensures
        delay_after(attempt, EndedView::Transport(reason), longer, nanos) <= delay_after(
            attempt,
            EndedView::Transport(reason),
            shorter,
            nanos,
        ),
        attempts_after(attempt, EndedView::Transport(reason), longer) <= attempts_after(
            attempt,
            EndedView::Transport(reason),
            shorter,
        ),
{
    crate::relay::law_the_wait_doubles(0, MAX_BACKOFF, nanos);
    if attempt > 0 {
        crate::relay::law_the_wait_grows(1, attempt, MAX_BACKOFF);
        crate::relay::law_the_wait_is_capped(attempt, MAX_BACKOFF, nanos);
        crate::relay::law_the_jitter_is_a_fifth(0, MAX_BACKOFF, nanos);
    }
}

/// A refused token waits five minutes, whatever went before, and changes nothing
/// of what counts against the next dropped connection.
pub proof fn law_a_refused_token_waits_its_own_time(
    attempt: u32,
    refusal: Seq<char>,
    held: u64,
    nanos: u32,
)
    ensures
        delay_after(attempt, EndedView::Rejected(refusal), held, nanos) == 300_000,
        attempts_after(attempt, EndedView::Rejected(refusal), held) == attempt,
{
}

/// The end of a connection changes the state and the message of the relay and
/// nothing else that it shows.
pub proof fn law_an_end_keeps_the_counts(before: RelayStatusView, ended: EndedView)
    ensures
        ({
            let after = status_after(before, ended);
            &&& after.jobs_printed == before.jobs_printed
            &&& after.jobs_failed == before.jobs_failed
            &&& after.ledger_recovered == before.ledger_recovered
            &&& after.last_error is Some
            &&& !(after.state is Connected)
        }),
{
}

/// What keeps the ledger from being taken decides what is shown: another copy of
/// the bridge has its own state and its own sentence, passed on untouched; any
/// other trouble has another state, and a sentence that names the file and the
/// error.
pub proof fn law_a_held_ledger_is_not_a_broken_one(
    before: RelayStatusView,
    attempt: u32,
    path: Seq<char>,
    e: BridgeError,
)
    ensures
        ({
            let after = ledger_status(before, attempt, Err(e), path);
            &&& after.jobs_printed == before.jobs_printed
            &&& after.jobs_failed == before.jobs_failed
            &&& after.ledger_recovered == before.ledger_recovered
            &&& match e {
                BridgeError::AlreadyRunning(m) => after.state is Standby && after.last_error == Some(
                    m@,
                ),
                _ => after.state is LedgerUnavailable && exists|head: Seq<char>, mid: Seq<char>, end:
                    Seq<char>|
                    after.last_error == Some(#[trigger] (head + path + mid + error_text(e) + end)),
            }
        }),
{
    let head = "El bridge no puede abrir su registro de impresiones en "@;
    let mid = ": "@;
    let end = ". No imprimirá pedidos remotos hasta que se resuelva en este equipo (espacio en disco, permisos o antivirus). Lo seguirá intentando."@;
    assert(ledger_trouble(path, e) == head + path + mid + error_text(e) + end);
}

/// Taking the ledger ends the wait for it: no state is left that asks for a human,
/// the message that the wait put there is gone, and the words for damage stay, new
/// ones before old ones.
pub proof fn law_a_taken_ledger_ends_the_wait(
    before: RelayStatusView,
    attempt: u32,
    path: Seq<char>,
    recovered: Option<Seq<char>>,
)
    ensures
        ({
            let after = ledger_status(before, attempt, Ok(recovered), path);
            &&& !(after.state is Rejected || after.state is Standby
                || after.state is LedgerUnavailable)
            &&& before.state is Unpaired || before.state is Connecting || before.state is Connected
                ==> after.state == before.state
            &&& attempt > 0 ==> after.last_error is None
            &&& attempt == 0 ==> after.last_error == before.last_error
            &&& recovered is Some ==> after.ledger_recovered == recovered
            &&& recovered is None ==> after.ledger_recovered == before.ledger_recovered
            &&& after.jobs_printed == before.jobs_printed
            &&& after.jobs_failed == before.jobs_failed
        }),
{
}

} // verus!
