//! The dashboard's decisions: what each message changes in the window and in
//! what the dashboard remembers, the rows of the device table, the lines of the
//! activity log and the clock that stamps them.
use vstd::prelude::*;

use crate::hotspot::{HotspotError, error_message};
use crate::network::{ConnectedClient, QuickTickStatus, client_views, clients_equal};
use crate::text::{chars_of, push_char, string_of, trim, trim_chars};

verus! {

/// A message to the window's event loop.
#[derive(Clone, Debug)]
pub enum AppMsg {
    /// The start/stop button was pressed.
    TogglePower,
    /// The apply button was pressed.
    Apply,
    /// The "hide the passphrase" box changed; whether it is now checked.
    ToggleShowPassword(bool),
    /// The periodic check ended.
    Tick(QuickTickStatus),
    /// A line for the activity log.
    Log(String),
}

// ---------------------------------------------------------------------------
// Clock
// ---------------------------------------------------------------------------
/// The decimal digit `d`.
pub open spec fn digit(d: int) -> char {
    (48 + d) as char
}

/// `n` on two digits, with a leading zero (`{:02}` for `n < 100`).
pub open spec fn two_digits(n: int) -> Seq<char> {
    seq![digit(n / 10), digit(n % 10)]
}

/// `HH:MM:SS` of the time of day in UTC+3 for a number of seconds since the
/// Unix epoch.
pub open spec fn clock_spec(secs: int) -> Seq<char> {
    two_digits((secs / 3600 + 3) % 24) + ":"@ + two_digits((secs / 60) % 60) + ":"@ + two_digits(
        secs % 60,
    )
}

/// The value of a decimal digit character.
pub open spec fn digit_value(c: char) -> int {
    c as int - 48
}

proof fn lemma_two_digits_read_back(n: int)
    requires
        0 <= n < 100,
    ensures
        two_digits(n).len() == 2,
        0 <= digit_value(two_digits(n)[0]) <= 9,
        0 <= digit_value(two_digits(n)[1]) <= 9,
        digit_value(two_digits(n)[0]) * 10 + digit_value(two_digits(n)[1]) == n,
{
    let t = n / 10;
    let o = n % 10;
    assert(0 <= t <= 9 && 0 <= o <= 9 && t * 10 + o == n) by (nonlinear_arith)
        requires
            0 <= n < 100,
            t == n / 10,
            o == n % 10,
    {
        vstd::arithmetic::div_mod::lemma_fundamental_div_mod(n, 10);
    }
    assert(((48 + t) as char) as int == 48 + t);
    assert(((48 + o) as char) as int == 48 + o);
}

/// The clock reads back as the time of day in UTC+3: `HH:MM:SS` with
/// decimal digits, hours below 24, minutes and seconds below 60, and
/// `HH * 3600 + MM * 60 + SS` is the number of seconds since midnight in
/// UTC+3.
pub proof fn lemma_clock_reads_back(secs: int)
    requires
        secs >= 0,
    ensures
        ({
            let c = clock_spec(secs);
            let h = digit_value(c[0]) * 10 + digit_value(c[1]);
            let m = digit_value(c[3]) * 10 + digit_value(c[4]);
            let s = digit_value(c[6]) * 10 + digit_value(c[7]);
            &&& c.len() == 8
            &&& c[2] == ':' && c[5] == ':'
            &&& forall|k: int| 0 <= k < 8 && k != 2 && k != 5 ==> 0 <= #[trigger] digit_value(c[k]) <= 9
            &&& 0 <= h < 24
            &&& 0 <= m < 60
            &&& 0 <= s < 60
            &&& h * 3600 + m * 60 + s == (secs + 10800) % 86400
        }),
{
    reveal_strlit(":");
    let hh = (secs / 3600 + 3) % 24;
    let mm = (secs / 60) % 60;
    let ss = secs % 60;
    let c = clock_spec(secs);
    lemma_two_digits_read_back(hh);
    lemma_two_digits_read_back(mm);
    lemma_two_digits_read_back(ss);
    assert(c =~= two_digits(hh) + seq![':'] + two_digits(mm) + seq![':'] + two_digits(ss));
    assert(c[0] == two_digits(hh)[0] && c[1] == two_digits(hh)[1]);
    assert(c[3] == two_digits(mm)[0] && c[4] == two_digits(mm)[1]);
    assert(c[6] == two_digits(ss)[0] && c[7] == two_digits(ss)[1]);
    let a = secs / 3600;
    let r = secs % 3600;
    vstd::arithmetic::div_mod::lemma_fundamental_div_mod(secs, 3600);
    vstd::arithmetic::div_mod::lemma_fundamental_div_mod(secs, 60);
    vstd::arithmetic::div_mod::lemma_fundamental_div_mod(r, 60);
    vstd::arithmetic::div_mod::lemma_fundamental_div_mod(secs / 60, 60);
    vstd::arithmetic::div_mod::lemma_fundamental_div_mod(a + 3, 24);
    assert(mm * 60 + ss == r) by (nonlinear_arith)
        requires
            secs == 3600 * a + r,
            0 <= r < 3600,
            secs == 60 * (secs / 60) + ss,
            0 <= ss < 60,
            secs / 60 == 60 * ((secs / 60) / 60) + mm,
            0 <= mm < 60,
            secs >= 0,
    {
        let q = secs / 60;
        assert(q == 60 * a + r / 60) by {
            vstd::arithmetic::div_mod::lemma_fundamental_div_mod_converse(
                secs,
                60,
                60 * a + r / 60,
                r % 60,
            );
            vstd::arithmetic::div_mod::lemma_fundamental_div_mod(r, 60);
        }
        vstd::arithmetic::div_mod::lemma_fundamental_div_mod_converse(q, 60, a, r / 60);
        vstd::arithmetic::div_mod::lemma_fundamental_div_mod(r, 60);
        vstd::arithmetic::div_mod::lemma_fundamental_div_mod_converse(secs, 60, 60 * a + r / 60, r % 60);
    }
    assert(hh * 3600 + r == (secs + 10800) % 86400) by {
        vstd::arithmetic::div_mod::lemma_fundamental_div_mod_converse(
            secs + 10800,
            86400,
            (a + 3) / 24,
            hh * 3600 + r,
        );
    }
}

fn push_two_digits(s: &mut String, n: u64)
    requires
        n < 100,
    ensures
        final(s)@ == old(s)@ + two_digits(n as int),
{
    let tens = (n / 10) as u8;
    let ones = (n % 10) as u8;
    push_char(s, (48u8 + tens) as char);
    push_char(s, (48u8 + ones) as char);
    assert(final(s)@ =~= old(s)@ + two_digits(n as int));
}

/// The clock shown in the activity log: the time of day in UTC+3 for the
/// seconds since the Unix epoch, or `00:00:00` when the system clock is set
/// before the epoch (`None`).
pub fn chrono_now_str(since_epoch: Option<u64>) -> (r: String)
    ensures
        r@ == match since_epoch {
            Some(secs) => clock_spec(secs as int),
            None => "00:00:00"@,
        },
{
    match since_epoch {
        None => String::from_str("00:00:00"),
        Some(secs) => {
            let s = secs % 60;
            let m = (secs / 60) % 60;
            let h = (secs / 3600 + 3) % 24;
            let mut out = String::new();
            push_two_digits(&mut out, h);
            out.append(":");
            push_two_digits(&mut out, m);
            out.append(":");
            push_two_digits(&mut out, s);
            out
        },
    }
}

// ---------------------------------------------------------------------------
// Texts
// ---------------------------------------------------------------------------
/// A line of the activity log: white, with the clock in brackets.
pub open spec fn log_line_spec(clock: Seq<char>, msg: Seq<char>) -> Seq<char> {
    "@f@C255  ["@ + clock + "] "@ + msg
}

/// A line of the activity log.
pub fn log_line(clock: &str, msg: &str) -> (r: String)
    ensures
        r@ == log_line_spec(clock@, msg@),
{
    let mut r = String::from_str("@f@C255  [");
    r.append(clock);
    r.append("] ");
    r.append(msg);
    r
}

/// What the log says of an operation's result: its message, or the error's
/// message after `Erreur: `.
pub open spec fn result_log_spec(result: Result<String, HotspotError>) -> Seq<char> {
    match result {
        Ok(m) => m@,
        Err(e) => "Erreur: "@ + error_message(e),
    }
}

/// What the log says of an operation's result.
pub fn result_log(result: &Result<String, HotspotError>) -> (r: String)
    ensures
        r@ == result_log_spec(*result),
{
    match result {
        Ok(m) => m.clone(),
        Err(e) => {
            let mut r = String::from_str("Erreur: ");
            let msg = e.message();
            r.append(msg.as_str());
            r
        },
    }
}

/// What the log says when a start is asked for.
pub fn starting_log(ssid: &str) -> (r: String)
    ensures
        r@ == "Démarrage du hotspot (SSID: '"@ + ssid@ + "')..."@,
{
    let mut r = String::from_str("Démarrage du hotspot (SSID: '");
    r.append(ssid);
    r.append("')...");
    r
}

/// What the log says of the hotspot's state when the window opens.
pub fn initial_state_log(active: bool) -> (r: String)
    ensures
        r@ == if active {
            "Point d'accès Wi-Fi actuellement ACTIF."@
        } else {
            "Point d'accès Wi-Fi actuellement INACTIF."@
        },
{
    if active {
        String::from_str("Point d'accès Wi-Fi actuellement ACTIF.")
    } else {
        String::from_str("Point d'accès Wi-Fi actuellement INACTIF.")
    }
}

/// The status badge for a hotspot that is up or down.
pub fn badge_label(active: bool) -> (r: String)
    ensures
        r@ == if active {
            "● HOTSPOT ACTIF"@
        } else {
            "○ HOTSPOT INACTIF"@
        },
{
    if active {
        String::from_str("● HOTSPOT ACTIF")
    } else {
        String::from_str("○ HOTSPOT INACTIF")
    }
}

/// The label of the start/stop button for a hotspot that is up or down.
pub fn toggle_label(active: bool) -> (r: String)
    ensures
        r@ == if active {
            "■  ARRÊTER LE PARTAGE"@
        } else {
            "▶  DÉMARRER LE PARTAGE"@
        },
{
    if active {
        String::from_str("■  ARRÊTER LE PARTAGE")
    } else {
        String::from_str("▶  DÉMARRER LE PARTAGE")
    }
}

/// What was typed in an input field, without surrounding whitespace.
pub fn trim_input(s: &str) -> (r: String)
    ensures
        r@ == trim(s@),
{
    let v = chars_of(s);
    let t = trim_chars(&v);
    string_of(&t)
}

// ---------------------------------------------------------------------------
// Device table
// ---------------------------------------------------------------------------
/// The heading row of the device table.
pub open spec fn header_row() -> Seq<char> {
    "@b@f@C223  ADRESSE IP\t@b@f@C223ADRESSE MAC\t@b@f@C223ÉTAT"@
}

/// The row shown in place of devices when there are none.
pub open spec fn empty_row(active: bool) -> Seq<char> {
    if active {
        "@f@C255  ○ Aucun appareil connecté pour le moment."@
    } else {
        "@f@C255  ○ Le point d'accès est inactif."@
    }
}

/// The row of one device: address, hardware address, state.
pub open spec fn client_row(c: (Seq<char>, Seq<char>, Seq<char>)) -> Seq<char> {
    "@f@C255  "@ + c.0 + "\t@f@C255"@ + c.1 + "\t@b@f@C63"@ + c.2
}

/// All rows of the device table.
pub open spec fn client_rows_spec(active: bool, clients: Seq<(Seq<char>, Seq<char>, Seq<char>)>) -> Seq<
    Seq<char>,
> {
    if clients.len() == 0 {
        seq![header_row(), empty_row(active)]
    } else {
        seq![header_row()] + clients.map_values(|c: (Seq<char>, Seq<char>, Seq<char>)| client_row(c))
    }
}

/// The device table has its heading first, then exactly one row per device
/// in the order found, each showing that device's address, hardware address
/// and state; with no device it has one more row, which says that none is
/// connected on a hotspot that is up, or that the hotspot is down.
pub proof fn lemma_device_table_rows(active: bool, cs: Seq<(Seq<char>, Seq<char>, Seq<char>)>)
    ensures
        client_rows_spec(active, cs)[0]
            == "@b@f@C223  ADRESSE IP\t@b@f@C223ADRESSE MAC\t@b@f@C223ÉTAT"@,
        cs.len() == 0 ==> client_rows_spec(active, cs).len() == 2,
        cs.len() == 0 && active ==> client_rows_spec(active, cs)[1]
            == "@f@C255  ○ Aucun appareil connecté pour le moment."@,
        cs.len() == 0 && !active ==> client_rows_spec(active, cs)[1]
            == "@f@C255  ○ Le point d'accès est inactif."@,
        cs.len() > 0 ==> client_rows_spec(active, cs).len() == cs.len() + 1,
        forall|k: int|
            0 <= k < cs.len() ==> #[trigger] client_rows_spec(active, cs)[k + 1] == "@f@C255  "@
                + cs[k].0 + "\t@f@C255"@ + cs[k].1 + "\t@b@f@C63"@ + cs[k].2,
{
    if cs.len() > 0 {
        let rows = client_rows_spec(active, cs);
        assert forall|k: int| 0 <= k < cs.len() implies #[trigger] rows[k + 1] == "@f@C255  "@
            + cs[k].0 + "\t@f@C255"@ + cs[k].1 + "\t@b@f@C63"@ + cs[k].2 by {
            assert(rows[k + 1] == client_row(cs[k]));
        }
    }
}

/// The views of a list of strings.
pub open spec fn row_views(v: Seq<String>) -> Seq<Seq<char>> {
    v.map_values(|s: String| s@)
}

/// The heading row of the device table, shown alone until the first check.
pub fn client_table_header() -> (r: String)
    ensures
        r@ == header_row(),
{
    String::from_str("@b@f@C223  ADRESSE IP\t@b@f@C223ADRESSE MAC\t@b@f@C223ÉTAT")
}

fn client_row_exec(c: &ConnectedClient) -> (r: String)
    ensures
        r@ == client_row(c@),
{
    let mut r = String::from_str("@f@C255  ");
    r.append(c.ip.as_str());
    r.append("\t@f@C255");
    r.append(c.mac.as_str());
    r.append("\t@b@f@C63");
    r.append(c.state.as_str());
    r
}

/// The rows of the device table: the heading, then one row per device, or a
/// row that says that there is none (on a hotspot that is up) or that the
/// hotspot is down.
pub fn client_rows(active: bool, clients: &Vec<ConnectedClient>) -> (r: Vec<String>)
    ensures
        row_views(r@) == client_rows_spec(active, client_views(clients@)),
{
    let mut rows: Vec<String> = Vec::new();
    rows.push(client_table_header());
    if clients.len() == 0 {
        let empty = if active {
            String::from_str("@f@C255  ○ Aucun appareil connecté pour le moment.")
        } else {
            String::from_str("@f@C255  ○ Le point d'accès est inactif.")
        };
        rows.push(empty);
        assert(row_views(rows@) =~= client_rows_spec(active, client_views(clients@)));
        return rows;
    }
    let ghost cv = client_views(clients@);
    let ghost mapped = cv.map_values(|c: (Seq<char>, Seq<char>, Seq<char>)| client_row(c));
    let mut i: usize = 0;
    while i < clients.len()
        invariant
            i <= clients.len(),
            cv == client_views(clients@),
            mapped == cv.map_values(|c: (Seq<char>, Seq<char>, Seq<char>)| client_row(c)),
            row_views(rows@) == seq![header_row()] + mapped.subrange(0, i as int),
        decreases clients.len() - i,
    {
        let row = client_row_exec(&clients[i]);
        assert(cv[i as int] == clients@[i as int]@);
        assert(mapped[i as int] == row@);
        let ghost before = row_views(rows@);
        rows.push(row);
        assert(row_views(rows@) =~= before.push(row@));
        assert(row_views(rows@) =~= seq![header_row()] + mapped.subrange(0, i + 1));
        i = i + 1;
    }
    assert(mapped.subrange(0, i as int) =~= mapped);
    rows
}

// ---------------------------------------------------------------------------
// What the dashboard remembers
// ---------------------------------------------------------------------------
/// The table of devices to show: how many there are, and the rows.
pub struct ClientTable {
    pub count: usize,
    pub rows: Vec<String>,
}

/// What a message changes in the window.
pub struct ViewUpdate {
    /// A line to add to the activity log.
    pub log: Option<String>,
    /// The hotspot's state to show, when it changed (`true`: up).
    pub power: Option<bool>,
    /// The device table to show, when it changed.
    pub clients: Option<ClientTable>,
    /// Whether the window must be redrawn.
    pub redraw: bool,
}

/// What the start/stop button does.
#[derive(PartialEq, Eq, Structural, Clone, Copy, Debug)]
pub enum PowerAction {
    Start,
    Stop,
}

/// What the dashboard remembers between messages: the hotspot's last known
/// state and the devices last shown.
pub struct Dashboard {
    pub last_active: Option<bool>,
    pub last_clients: Vec<ConnectedClient>,
}

/// Whether `t` is the device table for the given state and devices.
pub open spec fn is_table_of(
    t: ClientTable,
    active: bool,
    clients: Seq<(Seq<char>, Seq<char>, Seq<char>)>,
) -> bool {
    t.count == clients.len() && row_views(t.rows@) == client_rows_spec(active, clients)
}

/// The state to show after a check that found the hotspot `active`, when the
/// last known state was `last`: none when it has not changed.
pub open spec fn power_change(last: Option<bool>, active: bool) -> Option<bool> {
    if last != Some(active) {
        Some(active)
    } else {
        None
    }
}

/// A check whose finding differs from the last known state always shows the
/// new state, in both directions (up to down as well as down to up, and from
/// an unknown state); one that agrees with it shows nothing new.
pub proof fn lemma_power_change_follows_the_check(last: Option<bool>, active: bool)
    ensures
        last != Some(active) ==> power_change(last, active) == Some(active),
        last == Some(active) ==> power_change(last, active) is None,
        power_change(Some(true), false) == Some(false),
        power_change(Some(false), true) == Some(true),
{
}

/// Whether the device table must be redrawn: the devices found differ from
/// those last shown.
pub open spec fn table_changed(
    last: Seq<(Seq<char>, Seq<char>, Seq<char>)>,
    now: Seq<(Seq<char>, Seq<char>, Seq<char>)>,
) -> bool {
    last != now
}

/// A check that finds what the previous one found changes nothing on screen:
/// after a tick the dashboard remembers the state and the devices it showed,
/// so the same status again asks for no new state, no new table and no redraw.
pub proof fn lemma_repeated_tick_is_quiet(
    active: bool,
    clients: Seq<(Seq<char>, Seq<char>, Seq<char>)>,
)
    ensures
        power_change(Some(active), active) is None,
        !table_changed(clients, clients),
{
}

impl Dashboard {
    /// The dashboard when the window opens, with the hotspot's state found then.
    pub fn new(initially_active: bool) -> (r: Dashboard)
        ensures
            r.last_active == Some(initially_active),
            r.last_clients@.len() == 0,
    {
        Dashboard { last_active: Some(initially_active), last_clients: Vec::new() }
    }

    /// What the start/stop button does: stop a hotspot known to be up, start
    /// it otherwise.
    pub fn toggle_action(&self) -> (r: PowerAction)
        ensures
            r == if self.last_active == Some(true) {
                PowerAction::Stop
            } else {
                PowerAction::Start
            },
    {
        match self.last_active {
            Some(true) => PowerAction::Stop,
            _ => PowerAction::Start,
        }
    }

    /// Takes the result of a periodic check: the state shown changes when it
    /// differs from the last known one, the device table when the devices
    /// differ from those last shown; both are then remembered.
    pub fn on_tick(&mut self, status: QuickTickStatus) -> (u: ViewUpdate)
        ensures
            final(self).last_active == Some(status.is_active),
            u.log is None,
            u.power == power_change(old(self).last_active, status.is_active),
            old(self).last_active != Some(status.is_active) ==> u.power == Some(status.is_active),
            old(self).last_active == Some(status.is_active) ==> u.power is None,
            table_changed(client_views(old(self).last_clients@), client_views(status.clients@))
                ==> (
            u.clients matches Some(t) && is_table_of(
                t,
                status.is_active,
                client_views(status.clients@),
            )) && client_views(final(self).last_clients@) == client_views(status.clients@),
            !table_changed(client_views(old(self).last_clients@), client_views(status.clients@))
                ==> u.clients
                is None && final(self).last_clients == old(self).last_clients,
            u.redraw == (u.power is Some || u.clients is Some),
    {
        let power = if self.last_active != Some(status.is_active) {
            Some(status.is_active)
        } else {
            None
        };
        self.last_active = Some(status.is_active);
        let clients = if !clients_equal(&self.last_clients, &status.clients) {
            let rows = client_rows(status.is_active, &status.clients);
            let count = status.clients.len();
            self.last_clients = status.clients;
            Some(ClientTable { count, rows })
        } else {
            None
        };
        let redraw = power.is_some() || clients.is_some();
        ViewUpdate { log: None, power, clients, redraw }
    }

    /// Takes the result of stopping the hotspot: on success the hotspot is
    /// shown down with an empty table and remembered down; an error is only
    /// logged.
    pub fn on_stopped(&mut self, result: Result<String, HotspotError>) -> (u: ViewUpdate)
        ensures
            u.log matches Some(l) && l@ == result_log_spec(result),
            u.redraw,
            result is Ok ==> final(self).last_active == Some(false) && final(self).last_clients@.len() == 0 && u.power == Some(false) && (u.clients matches Some(t)
                && is_table_of(t, false, seq![])),
            result is Err ==> final(self).last_active == old(self).last_active && final(self).last_clients == old(self).last_clients && u.power is None && u.clients is None,
    {
        let log = result_log(&result);
        match result {
            Ok(_) => {
                self.last_active = Some(false);
                self.last_clients = Vec::new();
                let empty: Vec<ConnectedClient> = Vec::new();
                let rows = client_rows(false, &empty);
                assert(client_views(empty@) =~= seq![]);
                ViewUpdate {
                    log: Some(log),
                    power: Some(false),
                    clients: Some(ClientTable { count: 0, rows }),
                    redraw: true,
                }
            },
            Err(_) => ViewUpdate { log: Some(log), power: None, clients: None, redraw: true },
        }
    }

    /// Takes the result of starting the hotspot: on success it is shown and
    /// remembered up (the device table stays as it is); an error is only logged.
    pub fn on_started(&mut self, result: Result<String, HotspotError>) -> (u: ViewUpdate)
        ensures
            u.log matches Some(l) && l@ == result_log_spec(result),
            u.redraw,
            u.clients is None,
            final(self).last_clients == old(self).last_clients,
            result is Ok ==> final(self).last_active == Some(true) && u.power == Some(true),
            result is Err ==> final(self).last_active == old(self).last_active && u.power is None,
    {
        let log = result_log(&result);
        match result {
            Ok(_) => {
                self.last_active = Some(true);
                ViewUpdate { log: Some(log), power: Some(true), clients: None, redraw: true }
            },
            Err(_) => ViewUpdate { log: Some(log), power: None, clients: None, redraw: true },
        }
    }
}

} // verus!
