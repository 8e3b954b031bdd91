//! What the tool learns from NetworkManager, `ip` and the kernel's ARP table:
//! each function here reads the text that a command printed (or that a file
//! held) and returns what the dashboard shows.
use vstd::prelude::*;

use crate::text::{
    lemma_lines_cons, lemma_lines_single, strip_cr, chars_eq, chars_eq_str, chars_of, contains_char, split, split_lines, split_on, split_words,
    starts_with, starts_with_chars, string_of, trim, trim_chars, lines, words, views,
};

verus! {

/// Name of the NetworkManager connection profile that holds the hotspot.
pub const HOTSPOT_CON_NAME: &'static str = "WifiPartage";

/// Interface shown when no Wi-Fi interface is found.
pub const DEFAULT_WIFI_INTERFACE: &'static str = "wlp4s0";

/// Network name used when the profile has none.
pub const DEFAULT_SSID: &'static str = "Niaina";

/// Passphrase used when the profile has none.
pub const DEFAULT_PSK: &'static str = "12345678";

/// Gateway address shown when the interface has no private IPv4 address.
pub const DEFAULT_GATEWAY_IP: &'static str = "10.42.0.1";

/// State shown for every device found in the ARP table.
pub const CONNECTED_STATE: &'static str = "CONNECTÉ";

/// A device that the kernel's ARP table lists on the hotspot interface.
#[derive(Debug, Clone, PartialEq, Eq)]
pub struct ConnectedClient {
    pub ip: String,
    pub mac: String,
    pub state: String,
}

impl View for ConnectedClient {
    type V = (Seq<char>, Seq<char>, Seq<char>);

    open spec fn view(&self) -> (Seq<char>, Seq<char>, Seq<char>) {
        (self.ip@, self.mac@, self.state@)
    }
}

/// What the periodic check learns: whether the hotspot is up, and who is on it.
#[derive(Debug, Clone)]
pub struct QuickTickStatus {
    pub is_active: bool,
    pub clients: Vec<ConnectedClient>,
}

/// The views of a list of clients.
pub open spec fn client_views(v: Seq<ConnectedClient>) -> Seq<(Seq<char>, Seq<char>, Seq<char>)> {
    v.map_values(|c: ConnectedClient| c@)
}

/// The view of an optional string slice.
pub open spec fn opt_view(o: Option<&str>) -> Option<Seq<char>> {
    match o {
        Some(s) => Some(s@),
        None => None,
    }
}

/// Whether two client lists are equal, field by field.
pub fn clients_equal(a: &Vec<ConnectedClient>, b: &Vec<ConnectedClient>) -> (r: bool)
    ensures
        r == (client_views(a@) == client_views(b@)),
{
    if a.len() != b.len() {
        return false;
    }
    let mut i: usize = 0;
    while i < a.len()
        invariant
            a.len() == b.len(),
            i <= a.len(),
            forall|k: int| 0 <= k < i ==> a@[k]@ == b@[k]@,
        decreases a.len() - i,
    {
        let same = a[i].ip == b[i].ip && a[i].mac == b[i].mac && a[i].state == b[i].state;
        if !same {
            assert(client_views(a@)[i as int] != client_views(b@)[i as int]);
            return false;
        }
        i = i + 1;
    }
    assert(client_views(a@) =~= client_views(b@));
    true
}

// ---------------------------------------------------------------------------
// Wi-Fi interface
// ---------------------------------------------------------------------------
/// The device of the first line of `nmcli -t -f DEVICE,TYPE device` (from line
/// `i` on) whose second `:`-separated field is `wifi`.
pub open spec fn first_wifi_device(ls: Seq<Seq<char>>, i: int) -> Option<Seq<char>>
    decreases ls.len() - i,
{
    if i < 0 || i >= ls.len() {
        None
    } else {
        let p = split(ls[i], ':');
        if p.len() >= 2 && p[1] == "wifi"@ {
            Some(p[0])
        } else {
            first_wifi_device(ls, i + 1)
        }
    }
}

/// The interface that the dashboard uses: the one found under sysfs, else the
/// first Wi-Fi device that NetworkManager lists, else a fixed default.
pub open spec fn wifi_interface_spec(sysfs: Option<Seq<char>>, nmcli: Option<Seq<char>>) -> Seq<
    char,
> {
    match sysfs {
        Some(name) => name,
        None => match nmcli {
            Some(out) => match first_wifi_device(lines(out), 0) {
                Some(dev) => dev,
                None => DEFAULT_WIFI_INTERFACE@,
            },
            None => DEFAULT_WIFI_INTERFACE@,
        },
    }
}

/// Chooses the Wi-Fi interface. `sysfs_wireless` is the first entry of
/// `/sys/class/net` that has a `wireless` or `phy80211` child, if any;
/// `nmcli_devices` is what `nmcli -t -f DEVICE,TYPE device` printed, if it ran.
pub fn get_wifi_interface(sysfs_wireless: Option<String>, nmcli_devices: Option<&str>) -> (r:
    String)
    ensures
        r@ == wifi_interface_spec(
            match sysfs_wireless {
                Some(s) => Some(s@),
                None => None,
            },
            opt_view(nmcli_devices),
        ),
{
    match sysfs_wireless {
        Some(name) => name,
        None => match nmcli_devices {
            Some(out) => {
                let text = chars_of(out);
                let ls = split_lines(&text);
                let mut i: usize = 0;
                while i < ls.len()
                    invariant
                        sysfs_wireless is None,
                        nmcli_devices == Some(out),
                        i <= ls.len(),
                        views(ls@) == lines(out@),
                        first_wifi_device(lines(out@), i as int) == first_wifi_device(
                            lines(out@),
                            0,
                        ),
                    decreases ls.len() - i,
                {
                    assert(ls@[i as int]@ == lines(out@)[i as int]);
                    let parts = split_on(&ls[i], ':');
                    if parts.len() >= 2 {
                        assert(parts@[1]@ == split(lines(out@)[i as int], ':')[1]);
                        if chars_eq_str(&parts[1], "wifi") {
                            assert(parts@[0]@ == split(lines(out@)[i as int], ':')[0]);
                            assert(split(lines(out@)[i as int], ':').len() == parts.len());
                            assert(first_wifi_device(lines(out@), i as int) == Some(parts@[0]@));
                            return string_of(&parts[0]);
                        }
                    }
                    i = i + 1;
                }
                String::from_str(DEFAULT_WIFI_INTERFACE)
            },
            None => String::from_str(DEFAULT_WIFI_INTERFACE),
        },
    }
}

// ---------------------------------------------------------------------------
// Hotspot activity
// ---------------------------------------------------------------------------
/// Whether a line of `nmcli -t -f NAME,TYPE connection show --active` names
/// the hotspot profile in its first `:`-separated field.
pub open spec fn names_hotspot(line: Seq<char>) -> bool {
    split(line, ':')[0] == HOTSPOT_CON_NAME@
}

/// Whether the active connections that nmcli printed include the hotspot.
pub open spec fn hotspot_listed(out: Seq<char>) -> bool {
    exists|j: int| 0 <= j < lines(out).len() && names_hotspot(#[trigger] lines(out)[j])
}

/// The hotspot profile is called `WifiPartage`.
pub proof fn lemma_profile_name()
    ensures
        HOTSPOT_CON_NAME@ == "WifiPartage"@,
{
}

/// The listing of active connections names the hotspot exactly when one of
/// its lines, wherever it stands, has `WifiPartage` as its first
/// `:`-separated field: a listing whose first line (followed by a line feed)
/// names the hotspot counts as up whatever follows, and a first line that
/// does not leaves the answer to the lines after it; an empty listing, or a
/// single line without a line feed, is judged on that line alone.
pub proof fn lemma_hotspot_listed_by_lines(l: Seq<char>, rest: Seq<char>)
    requires
        !l.contains('\n'),
    ensures
        hotspot_listed(l + seq!['\n'] + rest) <==> (split(strip_cr(l), ':')[0] == "WifiPartage"@
            || hotspot_listed(rest)),
        hotspot_listed(l) <==> (l.len() > 0 && split(l, ':')[0] == "WifiPartage"@),
{
    lemma_profile_name();
    let whole = l + seq!['\n'] + rest;
    lemma_lines_cons(l, rest);
    let ls = lines(whole);
    assert(ls == seq![strip_cr(l)] + lines(rest));
    if split(strip_cr(l), ':')[0] == "WifiPartage"@ {
        assert(ls[0] == strip_cr(l));
        assert(names_hotspot(ls[0]));
    }
    if hotspot_listed(rest) {
        let j = choose|j: int| 0 <= j < lines(rest).len() && names_hotspot(#[trigger] lines(rest)[j]);
        assert(ls[j + 1] == lines(rest)[j]);
        assert(names_hotspot(ls[j + 1]));
    }
    if hotspot_listed(whole) {
        let j = choose|j: int| 0 <= j < ls.len() && names_hotspot(#[trigger] ls[j]);
        if j > 0 {
            assert(ls[j] == lines(rest)[j - 1]);
            assert(names_hotspot(lines(rest)[j - 1]));
        }
    }
    lemma_lines_single(l);
    if l.len() > 0 && split(l, ':')[0] == "WifiPartage"@ {
        assert(names_hotspot(lines(l)[0]));
    }
}

/// Whether the hotspot is up, from what `nmcli -t -f NAME,TYPE connection show
/// --active` printed (`None` when nmcli could not be run: not up).
pub fn is_hotspot_active(active_connections: Option<&str>) -> (r: bool)
    ensures
        r == match active_connections {
            Some(out) => hotspot_listed(out@),
            None => false,
        },
        active_connections matches Some(out) ==> (r <==> exists|j: int|
            0 <= j < lines(out@).len() && #[trigger] split(lines(out@)[j], ':')[0]
                == "WifiPartage"@),
{
    proof {
        lemma_profile_name();
    }
    match active_connections {
        None => false,
        Some(out) => {
            let text = chars_of(out);
            let ls = split_lines(&text);
            let mut i: usize = 0;
            while i < ls.len()
                invariant
                    active_connections == Some(out),
                    i <= ls.len(),
                    views(ls@) == lines(out@),
                    forall|k: int| 0 <= k < i ==> !names_hotspot(#[trigger] lines(out@)[k]),
                decreases ls.len() - i,
            {
                assert(ls@[i as int]@ == lines(out@)[i as int]);
                let parts = split_on(&ls[i], ':');
                assert(parts@[0]@ == split(lines(out@)[i as int], ':')[0]);
                if chars_eq_str(&parts[0], HOTSPOT_CON_NAME) {
                    assert(names_hotspot(lines(out@)[i as int]));
                    assert(hotspot_listed(out@));
                    return true;
                }
                i = i + 1;
            }
            false
        },
    }
}

// ---------------------------------------------------------------------------
// Hotspot configuration
// ---------------------------------------------------------------------------
/// A field of the profile: the given line trimmed, or the default when the
/// line is missing or blank.
pub open spec fn config_field(ls: Seq<Seq<char>>, i: int, default: Seq<char>) -> Seq<char> {
    let v = trim(
        if i < ls.len() {
            ls[i]
        } else {
            default
        },
    );
    if v.len() == 0 {
        default
    } else {
        v
    }
}

/// SSID and passphrase from what `nmcli -s -g
/// 802-11-wireless.ssid,802-11-wireless-security.psk connection show` printed:
/// the first two lines, trimmed, with defaults for what is missing or blank.
pub open spec fn hotspot_config_spec(out: Option<Seq<char>>) -> (Seq<char>, Seq<char>) {
    match out {
        Some(o) => (
            config_field(lines(o), 0, DEFAULT_SSID@),
            config_field(lines(o), 1, DEFAULT_PSK@),
        ),
        None => (DEFAULT_SSID@, DEFAULT_PSK@),
    }
}

fn config_field_exec(ls: &Vec<Vec<char>>, i: usize, default: &str) -> (r: String)
    ensures
        r@ == config_field(views(ls@), i as int, default@),
{
    let raw = if i < ls.len() {
        let t = trim_chars(&ls[i]);
        assert(t@ == trim(views(ls@)[i as int]));
        t
    } else {
        let d = chars_of(default);
        trim_chars(&d)
    };
    if raw.len() == 0 {
        String::from_str(default)
    } else {
        string_of(&raw)
    }
}

/// The SSID and passphrase shown are never empty: a missing or blank field
/// gives way to its default.
pub proof fn lemma_hotspot_config_nonempty(out: Option<Seq<char>>)
    ensures
        hotspot_config_spec(out).0.len() > 0,
        hotspot_config_spec(out).1.len() > 0,
{
    reveal_strlit("Niaina");
    reveal_strlit("12345678");
}

/// The hotspot's SSID and passphrase, from the output of the nmcli query
/// (`None` when nmcli could not be run: the defaults).
pub fn get_hotspot_config(output: Option<&str>) -> (r: (String, String))
    ensures
        (r.0@, r.1@) == hotspot_config_spec(opt_view(output)),
{
    match output {
        None => (String::from_str(DEFAULT_SSID), String::from_str(DEFAULT_PSK)),
        Some(out) => {
            let text = chars_of(out);
            let ls = split_lines(&text);
            let ssid = config_field_exec(&ls, 0, DEFAULT_SSID);
            let psk = config_field_exec(&ls, 1, DEFAULT_PSK);
            (ssid, psk)
        },
    }
}

// ---------------------------------------------------------------------------
// Gateway address
// ---------------------------------------------------------------------------
/// A word of `ip -4 -o addr show dev <iface>` that is an address with a prefix
/// length in a private range the hotspot uses.
pub open spec fn is_gateway_word(w: Seq<char>) -> bool {
    w.contains('/') && (starts_with(w, "10."@) || starts_with(w, "192.168."@))
}

/// The address part of the first such word from index `i` on.
pub open spec fn first_gateway(ws: Seq<Seq<char>>, i: int) -> Option<Seq<char>>
    decreases ws.len() - i,
{
    if i < 0 || i >= ws.len() {
        None
    } else if is_gateway_word(ws[i]) {
        Some(split(ws[i], '/')[0])
    } else {
        first_gateway(ws, i + 1)
    }
}

/// The gateway address that the dashboard shows.
pub open spec fn gateway_ip_spec(out: Option<Seq<char>>) -> Seq<char> {
    match out {
        Some(o) => match first_gateway(words(o), 0) {
            Some(ip) => ip,
            None => DEFAULT_GATEWAY_IP@,
        },
        None => DEFAULT_GATEWAY_IP@,
    }
}

/// The hotspot's gateway address, from what `ip -4 -o addr show dev <iface>`
/// printed (`None` when `ip` could not be run: the default).
pub fn get_gateway_ip(output: Option<&str>) -> (r: String)
    ensures
        r@ == gateway_ip_spec(opt_view(output)),
{
    match output {
        None => String::from_str(DEFAULT_GATEWAY_IP),
        Some(out) => {
            let text = chars_of(out);
            let ws = split_words(&text);
            let ten = chars_of("10.");
            let private = chars_of("192.168.");
            let mut i: usize = 0;
            while i < ws.len()
                invariant
                    output == Some(out),
                    i <= ws.len(),
                    views(ws@) == words(out@),
                    ten@ == "10."@,
                    private@ == "192.168."@,
                    first_gateway(words(out@), i as int) == first_gateway(words(out@), 0),
                decreases ws.len() - i,
            {
                let w = &ws[i];
                assert(w@ == words(out@)[i as int]);
                if contains_char(w, '/') && (starts_with_chars(w, &ten) || starts_with_chars(
                    w,
                    &private,
                )) {
                    let parts = split_on(w, '/');
                    assert(is_gateway_word(words(out@)[i as int]));
                    assert(parts@[0]@ == split(w@, '/')[0]);
                    assert(first_gateway(words(out@), i as int) == Some(parts@[0]@));
                    return string_of(&parts[0]);
                }
                i = i + 1;
            }
            String::from_str(DEFAULT_GATEWAY_IP)
        },
    }
}

// ---------------------------------------------------------------------------
// Connected devices
// ---------------------------------------------------------------------------
/// Address and hardware address of a line of `/proc/net/arp` (IP, HW type,
/// flags, HW address, mask, device) for a complete entry on `iface`.
pub open spec fn arp_entry(line: Seq<char>, iface: Seq<char>) -> Option<(Seq<char>, Seq<char>)> {
    let p = words(line);
    if p.len() >= 6 && p[5] == iface && p[2] != "0x0"@ && p[3] != "00:00:00:00:00:00"@ {
        Some((p[0], p[3]))
    } else {
        None
    }
}

/// The entries of lines `i..` for `iface`, in order.
pub open spec fn arp_entries_from(ls: Seq<Seq<char>>, i: int, iface: Seq<char>) -> Seq<
    (Seq<char>, Seq<char>),
>
    decreases ls.len() - i,
{
    if i < 0 || i >= ls.len() {
        seq![]
    } else {
        match arp_entry(ls[i], iface) {
            Some(e) => seq![e] + arp_entries_from(ls, i + 1, iface),
            None => arp_entries_from(ls, i + 1, iface),
        }
    }
}

/// The entries of the table for `iface`, its heading line skipped.
pub open spec fn arp_entries(content: Seq<char>, iface: Seq<char>) -> Seq<(Seq<char>, Seq<char>)> {
    arp_entries_from(lines(content), 1, iface)
}

/// What `str::to_uppercase` returns for a string (the Unicode upper-case mapping).
pub uninterp spec fn uppercase_of(s: Seq<char>) -> Seq<char>;

/// Calls `str::to_uppercase`; its result is named `uppercase_of`.
#[verifier::external_body]
fn to_uppercase(s: &str) -> (r: String)
    ensures
        r@ == uppercase_of(s@),
{
    s.to_uppercase()
}

/// The client shown for an entry of the table: its address, its hardware
/// address in upper case, and the connected state.
pub open spec fn client_spec(e: (Seq<char>, Seq<char>)) -> (Seq<char>, Seq<char>, Seq<char>) {
    (e.0, uppercase_of(e.1), CONNECTED_STATE@)
}

/// The clients shown for a list of entries.
pub open spec fn clients_of_entries(es: Seq<(Seq<char>, Seq<char>)>) -> Seq<
    (Seq<char>, Seq<char>, Seq<char>),
> {
    es.map_values(|e: (Seq<char>, Seq<char>)| client_spec(e))
}

/// The clients of the table for `iface`.
pub open spec fn clients_spec(content: Option<Seq<char>>, iface: Seq<char>) -> Seq<
    (Seq<char>, Seq<char>, Seq<char>),
> {
    match content {
        Some(c) => clients_of_entries(arp_entries(c, iface)),
        None => seq![],
    }
}

/// The client shown for one entry, given its address and its hardware
/// address already in upper case.
pub fn connected_client(ip: String, mac_upper: String) -> (r: ConnectedClient)
    ensures
        r@ == (ip@, mac_upper@, CONNECTED_STATE@),
{
    ConnectedClient { ip, mac: mac_upper, state: String::from_str(CONNECTED_STATE) }
}

/// The devices connected on `interface`, from the content of `/proc/net/arp`
/// (`None` when the file could not be read: none).
pub fn get_connected_clients(arp_content: Option<&str>, interface: &str) -> (r: Vec<
    ConnectedClient,
>)
    ensures
        client_views(r@) == clients_spec(opt_view(arp_content), interface@),
{
    let mut clients: Vec<ConnectedClient> = Vec::new();
    match arp_content {
        None => {
            assert(client_views(clients@) =~= seq![]);
            clients
        },
        Some(content) => {
            let text = chars_of(content);
            let ls = split_lines(&text);
            let iface = chars_of(interface);
            let incomplete = chars_of("0x0");
            let zero_mac = chars_of("00:00:00:00:00:00");
            let ghost all = arp_entries(content@, interface@);
            let mut i: usize = 1;
            if ls.len() == 0 {
                assert(arp_entries_from(lines(content@), 1, interface@) =~= seq![]);
            }
            while i < ls.len()
                invariant
                    arp_content == Some(content),
                    1 <= i,
                    ls.len() > 0 ==> i <= ls.len(),
                    views(ls@) == lines(content@),
                    iface@ == interface@,
                    incomplete@ == "0x0"@,
                    zero_mac@ == "00:00:00:00:00:00"@,
                    all == arp_entries(content@, interface@),
                    client_views(clients@) + clients_of_entries(
                        arp_entries_from(lines(content@), i as int, interface@),
                    ) == clients_of_entries(all),
                decreases ls.len() - i,
            {
                let line = &ls[i];
                assert(line@ == lines(content@)[i as int]);
                let parts = split_words(line);
                let ghost rest = arp_entries_from(lines(content@), i + 1, interface@);
                let ghost old_views = client_views(clients@);
                if parts.len() >= 6 && chars_eq(&parts[5], &iface) && !chars_eq(
                    &parts[2],
                    &incomplete,
                ) && !chars_eq(&parts[3], &zero_mac) {
                    let ip = string_of(&parts[0]);
                    let raw_mac = string_of(&parts[3]);
                    let mac = to_uppercase(raw_mac.as_str());
                    let client = connected_client(ip, mac);
                    let ghost e = (parts@[0]@, parts@[3]@);
                    assert(client@ == client_spec(e));
                    clients.push(client);
                    assert(arp_entry(lines(content@)[i as int], interface@) == Some(e));
                    assert(arp_entries_from(lines(content@), i as int, interface@) == seq![e]
                        + rest);
                    assert(clients_of_entries(seq![e] + rest) =~= seq![client_spec(e)]
                        + clients_of_entries(rest));
                    assert(client_views(clients@) =~= old_views.push(client_spec(e)));
                    assert(client_views(clients@) + clients_of_entries(rest) =~= old_views
                        + clients_of_entries(seq![e] + rest));
                } else {
                    assert(arp_entry(lines(content@)[i as int], interface@) is None);
                    assert(arp_entries_from(lines(content@), i as int, interface@) == rest);
                }
                i = i + 1;
            }
            assert(arp_entries_from(lines(content@), i as int, interface@) =~= seq![]);
            assert(clients_of_entries(seq![]) =~= seq![]);
            assert(client_views(clients@) =~= client_views(clients@) + clients_of_entries(seq![]));
            clients
        },
    }
}

/// The status of one periodic check: whether the hotspot is up, from the
/// active connections that nmcli printed, and, only when it is, the clients
/// from the ARP table (which need not be read otherwise).
pub fn query_quick_status(
    active_connections: Option<&str>,
    arp_content: Option<&str>,
    interface: &str,
) -> (r: QuickTickStatus)
    ensures
        r.is_active == match active_connections {
            Some(out) => hotspot_listed(out@),
            None => false,
        },
        client_views(r.clients@) == if r.is_active {
            clients_spec(opt_view(arp_content), interface@)
        } else {
            seq![]
        },
{
    let active = is_hotspot_active(active_connections);
    let clients = if active {
        get_connected_clients(arp_content, interface)
    } else {
        let v: Vec<ConnectedClient> = Vec::new();
        assert(client_views(v@) =~= seq![]);
        v
    };
    QuickTickStatus { is_active: active, clients }
}

// ---------------------------------------------------------------------------
// Laws of the readings, line by line
// ---------------------------------------------------------------------------
proof fn lemma_first_wifi_device_shift(x: Seq<char>, ls: Seq<Seq<char>>, i: int)
    requires
        0 <= i <= ls.len(),
    ensures
        first_wifi_device(seq![x] + ls, i + 1) == first_wifi_device(ls, i),
    decreases ls.len() - i,
{
    if i < ls.len() {
        assert((seq![x] + ls)[i + 1] == ls[i]);
        lemma_first_wifi_device_shift(x, ls, i + 1);
    }
}

/// The interface found under sysfs is used as it is; otherwise the first line
/// of the device listing whose type field is `wifi` gives its device, a line
/// of another type passes the question to the lines after it, and without any
/// the interface is `wlp4s0`.
pub proof fn lemma_wifi_interface_by_lines(
    sysfs: Seq<char>,
    nmcli: Option<Seq<char>>,
    l: Seq<char>,
    rest: Seq<char>,
)
    requires
        !l.contains('\n'),
    ensures
        wifi_interface_spec(Some(sysfs), nmcli) == sysfs,
        wifi_interface_spec(None, None) == "wlp4s0"@,
        wifi_interface_spec(None, Some(Seq::<char>::empty())) == "wlp4s0"@,
        ({
            let p = split(strip_cr(l), ':');
            wifi_interface_spec(None, Some(l + seq!['\n'] + rest)) == if p.len() >= 2 && p[1]
                == "wifi"@ {
                p[0]
            } else {
                wifi_interface_spec(None, Some(rest))
            }
        }),
{
    lemma_lines_cons(l, rest);
    lemma_first_wifi_device_shift(strip_cr(l), lines(rest), 0);
    lemma_lines_single(Seq::<char>::empty());
}

/// A reading of the profile takes the network name from the first line and
/// the passphrase from the second, each without surrounding whitespace, and
/// the default for a blank line or a missing one.
pub proof fn lemma_config_by_lines(l1: Seq<char>, l2: Seq<char>, rest: Seq<char>)
    requires
        !l1.contains('\n'),
        !l2.contains('\n'),
    ensures
        ({
            let c = hotspot_config_spec(Some(l1 + seq!['\n'] + l2 + seq!['\n'] + rest));
            &&& c.0 == if trim(strip_cr(l1)).len() > 0 {
                trim(strip_cr(l1))
            } else {
                "Niaina"@
            }
            &&& c.1 == if trim(strip_cr(l2)).len() > 0 {
                trim(strip_cr(l2))
            } else {
                "12345678"@
            }
        }),
        l1.len() > 0 ==> hotspot_config_spec(Some(l1)).1 == "12345678"@,
        hotspot_config_spec(None) == ("Niaina"@, "12345678"@),
{
    let t = l1 + seq!['\n'] + l2 + seq!['\n'] + rest;
    lemma_lines_cons(l2, rest);
    lemma_lines_cons(l1, l2 + seq!['\n'] + rest);
    assert(l1 + seq!['\n'] + (l2 + seq!['\n'] + rest) =~= t);
    assert(lines(t)[0] == strip_cr(l1));
    assert(lines(t)[1] == strip_cr(l2));
    lemma_default_psk_trimmed();
    lemma_lines_single(l1);
}

proof fn lemma_default_psk_trimmed()
    ensures
        trim("12345678"@) == "12345678"@,
{
    reveal_strlit("12345678");
    crate::text::lemma_trim_shape("12345678"@);
    assert forall|k: int| 0 <= k < "12345678"@.len() implies !crate::text::is_space(
        #[trigger] "12345678"@[k],
    ) by {}
}

proof fn lemma_first_gateway_shift(x: Seq<char>, ws: Seq<Seq<char>>, i: int)
    requires
        0 <= i <= ws.len(),
    ensures
        first_gateway(seq![x] + ws, i + 1) == first_gateway(ws, i),
    decreases ws.len() - i,
{
    if i < ws.len() {
        assert((seq![x] + ws)[i + 1] == ws[i]);
        lemma_first_gateway_shift(x, ws, i + 1);
    }
}

/// The gateway is taken from the first word that holds a `/` and starts with
/// `10.` or `192.168.`: its part before the first `/`, which is a prefix of
/// the word holding no `/`; other words pass the question to the words after
/// them, and without any the gateway is `10.42.0.1`.
pub proof fn lemma_gateway_by_words(w: Seq<char>, ws: Seq<Seq<char>>)
    ensures
        first_gateway(seq![w] + ws, 0) == if w.contains('/') && (starts_with(w, "10."@)
            || starts_with(w, "192.168."@)) {
            Some(split(w, '/')[0])
        } else {
            first_gateway(ws, 0)
        },
        w.contains('/') ==> {
            let ip = split(w, '/')[0];
            &&& ip.len() < w.len()
            &&& w.subrange(0, ip.len() as int) == ip
            &&& w[ip.len() as int] == '/'
            &&& !ip.contains('/')
        },
        gateway_ip_spec(None) == "10.42.0.1"@,
        forall|o: Seq<char>|
            #[trigger] gateway_ip_spec(Some(o)) == match first_gateway(words(o), 0) {
                Some(ip) => ip,
                None => "10.42.0.1"@,
            },
{
    lemma_first_gateway_shift(w, ws, 0);
    crate::text::lemma_find_char_bounds(w, 0, '/');
    let f = crate::text::find_char_from(w, 0, '/');
    if w.contains('/') {
        let k = choose|k: int| 0 <= k < w.len() && w[k] == '/';
        assert(f <= k);
        let ip = split(w, '/')[0];
        assert(ip == w.subrange(0, f));
        if ip.contains('/') {
            let j = choose|j: int| 0 <= j < ip.len() && ip[j] == '/';
            assert(w[j] == '/');
        }
    }
}

proof fn lemma_arp_entries_shift(x: Seq<char>, ls: Seq<Seq<char>>, i: int, iface: Seq<char>)
    requires
        0 <= i <= ls.len(),
    ensures
        arp_entries_from(seq![x] + ls, i + 1, iface) == arp_entries_from(ls, i, iface),
    decreases ls.len() - i,
{
    if i < ls.len() {
        assert((seq![x] + ls)[i + 1] == ls[i]);
        lemma_arp_entries_shift(x, ls, i + 1, iface);
    }
}

/// The heading line of the ARP table gives no device; each line after it
/// gives the device of a complete entry (flags other than `0x0`, a hardware
/// address other than zero) on the interface, with its address (first word)
/// and hardware address (fourth word), in the order of the table, and the
/// other lines give none.
pub proof fn lemma_arp_entries_by_lines(h: Seq<char>, l: Seq<char>, rest: Seq<char>, iface: Seq<char>)
    requires
        !h.contains('\n'),
        !l.contains('\n'),
    ensures
        arp_entries(h, iface) == Seq::<(Seq<char>, Seq<char>)>::empty(),
        ({
            let w = words(strip_cr(l));
            arp_entries(h + seq!['\n'] + l + seq!['\n'] + rest, iface) == (if w.len() >= 6 && w[5]
                == iface && w[2] != "0x0"@ && w[3] != "00:00:00:00:00:00"@ {
                seq![(w[0], w[3])]
            } else {
                Seq::<(Seq<char>, Seq<char>)>::empty()
            }) + arp_entries(h + seq!['\n'] + rest, iface)
        }),
{
    lemma_lines_single(h);
    let t = h + seq!['\n'] + l + seq!['\n'] + rest;
    lemma_lines_cons(l, rest);
    lemma_lines_cons(h, l + seq!['\n'] + rest);
    lemma_lines_cons(h, rest);
    assert(h + seq!['\n'] + (l + seq!['\n'] + rest) =~= t);
    let lr = lines(rest);
    let big = seq![strip_cr(h)] + (seq![strip_cr(l)] + lr);
    assert(lines(t) == big);
    assert(big[1] == strip_cr(l));
    lemma_arp_entries_shift(strip_cr(h), seq![strip_cr(l)] + lr, 1, iface);
    lemma_arp_entries_shift(strip_cr(l), lr, 0, iface);
    lemma_arp_entries_shift(strip_cr(h), lr, 0, iface);
    let e = arp_entry(strip_cr(l), iface);
    let tail = arp_entries_from(lr, 0, iface);
    assert(arp_entries_from(big, 1, iface) == match e {
        Some(x) => seq![x] + arp_entries_from(big, 2, iface),
        None => arp_entries_from(big, 2, iface),
    });
    if e is None {
        assert(Seq::<(Seq<char>, Seq<char>)>::empty() + tail =~= tail);
    }
}

/// Each device of the table for the interface is shown, in the table's
/// order, with its address as it stands, its hardware address in upper case
/// and the state `CONNECTÉ`; nothing is shown when the table cannot be read.
pub proof fn lemma_clients_follow_entries(content: Seq<char>, iface: Seq<char>)
    ensures
        clients_spec(None, iface) == Seq::<(Seq<char>, Seq<char>, Seq<char>)>::empty(),
        clients_spec(Some(content), iface).len() == arp_entries(content, iface).len(),
        forall|k: int|
            0 <= k < arp_entries(content, iface).len() ==> #[trigger] clients_spec(
                Some(content),
                iface,
            )[k] == (
                arp_entries(content, iface)[k].0,
                uppercase_of(arp_entries(content, iface)[k].1),
                "CONNECTÉ"@,
            ),
{
}

} // verus!
