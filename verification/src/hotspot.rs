//! Starting, stopping and reconfiguring the hotspot. Each operation is a short
//! sequence of `nmcli` runs whose next step depends on how the previous one
//! ended: the library says which command to run next, the caller runs it and
//! hands back how it ended.
use vstd::prelude::*;

use crate::network::{HOTSPOT_CON_NAME, hotspot_listed, is_hotspot_active};
use crate::text::{chars_of, contains_chars, contains_seq};

verus! {

/// How a run of `nmcli` ended: it ran (with its exit status and what it
/// printed), or it could not be started (with the system's message).
pub enum NmcliOutcome {
    Finished { success: bool, stdout: String, stderr: String },
    SpawnFailed { error: String },
}

/// Why an operation on the hotspot failed.
#[derive(Debug)]
pub enum HotspotError {
    /// The passphrase is shorter than 8 bytes.
    PasswordTooShort,
    /// nmcli could not be run; the system's message.
    Io(String),
    /// Changing the profile failed while starting; what nmcli reported.
    Configure(String),
    /// Bringing the profile up failed; what nmcli reported.
    Activate(String),
    /// Creating the hotspot failed; what nmcli reported.
    Create(String),
    /// Bringing the hotspot down failed; what nmcli reported.
    Stop(String),
    /// Changing the profile failed while reconfiguring; what nmcli reported.
    Update(String),
}

/// The message shown for an error.
pub open spec fn error_message(e: HotspotError) -> Seq<char> {
    match e {
        HotspotError::PasswordTooShort => "Le mot de passe doit contenir au moins 8 caractères"@,
        HotspotError::Io(m) => m@,
        HotspotError::Configure(m) => "Erreur configuration nmcli: "@ + m@,
        HotspotError::Activate(m) => "Erreur activation nmcli: "@ + m@,
        HotspotError::Create(m) => "Erreur création nmcli: "@ + m@,
        HotspotError::Stop(m) => "Erreur arrêt hotspot: "@ + m@,
        HotspotError::Update(m) => "Erreur mise à jour nmcli: "@ + m@,
    }
}

fn prefixed(prefix: &str, m: &String) -> (r: String)
    ensures
        r@ == prefix@ + m@,
{
    let mut r = String::from_str(prefix);
    r.append(m.as_str());
    r
}

impl HotspotError {
    /// The message shown for this error.
    pub fn message(&self) -> (r: String)
        ensures
            r@ == error_message(*self),
    {
        match self {
            HotspotError::PasswordTooShort => String::from_str(
                "Le mot de passe doit contenir au moins 8 caractères",
            ),
            HotspotError::Io(m) => m.clone(),
            HotspotError::Configure(m) => prefixed("Erreur configuration nmcli: ", m),
            HotspotError::Activate(m) => prefixed("Erreur activation nmcli: ", m),
            HotspotError::Create(m) => prefixed("Erreur création nmcli: ", m),
            HotspotError::Stop(m) => prefixed("Erreur arrêt hotspot: ", m),
            HotspotError::Update(m) => prefixed("Erreur mise à jour nmcli: ", m),
        }
    }
}

/// What to do next: run nmcli with these arguments, or report the result.
pub enum NmcliStep {
    Run(Vec<String>),
    Done(Result<String, HotspotError>),
}

/// The views of a list of strings.
pub open spec fn string_views(v: Seq<String>) -> Seq<Seq<char>> {
    v.map_values(|s: String| s@)
}

/// Whether `step` runs nmcli with exactly the arguments `args`.
pub open spec fn runs(step: NmcliStep, args: Seq<Seq<char>>) -> bool {
    step matches NmcliStep::Run(a) && string_views(a@) == args
}

/// Whether `step` reports success with the message `m`.
pub open spec fn succeeds_with(step: NmcliStep, m: Seq<char>) -> bool {
    step matches NmcliStep::Done(Ok(s)) && s@ == m
}

/// Whether `step` reports the error `e`.
pub open spec fn fails_with(step: NmcliStep, e: HotspotError) -> bool {
    step matches NmcliStep::Done(Err(x)) && x == e
}

/// A passphrase that nmcli accepts for WPA2: at least 8 bytes in UTF-8.
pub open spec fn password_long_enough(password: &str) -> bool {
    password.len() >= 8
}

fn push_arg(v: &mut Vec<String>, s: &str)
    ensures
        string_views(final(v)@) == string_views(old(v)@).push(s@),
{
    v.push(String::from_str(s));
    assert(string_views(v@) =~= string_views(old(v)@).push(s@));
}

// ---------------------------------------------------------------------------
// Argument lists
// ---------------------------------------------------------------------------
/// `nmcli connection show <profile>`: does the profile exist?
pub open spec fn show_profile_args() -> Seq<Seq<char>> {
    seq!["connection"@, "show"@, HOTSPOT_CON_NAME@]
}

/// `nmcli connection modify <profile> 802-11-wireless.ssid <ssid>
/// 802-11-wireless-security.psk <password>`.
pub open spec fn modify_args(ssid: Seq<char>, password: Seq<char>) -> Seq<Seq<char>> {
    seq![
        "connection"@,
        "modify"@,
        HOTSPOT_CON_NAME@,
        "802-11-wireless.ssid"@,
        ssid,
        "802-11-wireless-security.psk"@,
        password,
    ]
}

/// `nmcli connection up <profile>`.
pub open spec fn up_args() -> Seq<Seq<char>> {
    seq!["connection"@, "up"@, HOTSPOT_CON_NAME@]
}

/// `nmcli connection down <profile>`.
pub open spec fn down_args() -> Seq<Seq<char>> {
    seq!["connection"@, "down"@, HOTSPOT_CON_NAME@]
}

/// `nmcli device wifi hotspot ifname <iface> con-name <profile> ssid <ssid>
/// password <password>`.
pub open spec fn create_args(iface: Seq<char>, ssid: Seq<char>, password: Seq<char>) -> Seq<
    Seq<char>,
> {
    seq![
        "device"@,
        "wifi"@,
        "hotspot"@,
        "ifname"@,
        iface,
        "con-name"@,
        HOTSPOT_CON_NAME@,
        "ssid"@,
        ssid,
        "password"@,
        password,
    ]
}

/// A passphrase is long enough exactly when its UTF-8 encoding has at least
/// 8 bytes (not 8 characters: four `é` are enough, seven ASCII letters are not).
pub proof fn lemma_password_length_is_in_bytes(password: &str)
    requires
        vstd::utf8::encode_utf8(password@).len() <= usize::MAX,
    ensures
        password_long_enough(password) <==> vstd::utf8::encode_utf8(password@).len() >= 8,
{
}

/// Every command that acts on the hotspot profile names it `WifiPartage`
/// right after its verb: `connection show`, `connection up`, `connection
/// down`, `connection modify`; the listing of active connections is
/// `-t -f NAME,TYPE connection show --active`.
pub proof fn lemma_profile_commands()
    ensures
        show_profile_args() =~= seq!["connection"@, "show"@, "WifiPartage"@],
        up_args() =~= seq!["connection"@, "up"@, "WifiPartage"@],
        down_args() =~= seq!["connection"@, "down"@, "WifiPartage"@],
        active_connections_args_spec() =~= seq![
            "-t"@,
            "-f"@,
            "NAME,TYPE"@,
            "connection"@,
            "show"@,
            "--active"@,
        ],
{
    crate::network::lemma_profile_name();
}

/// The modify command passes the network name and the passphrase exactly as
/// given, each right after its setting's name, whatever characters they hold.
pub proof fn lemma_modify_args_carry_inputs(ssid: Seq<char>, password: Seq<char>)
    ensures
        modify_args(ssid, password).len() == 7,
        modify_args(ssid, password)[0] == "connection"@,
        modify_args(ssid, password)[1] == "modify"@,
        modify_args(ssid, password)[2] == "WifiPartage"@,
        modify_args(ssid, password)[3] == "802-11-wireless.ssid"@,
        modify_args(ssid, password)[4] == ssid,
        modify_args(ssid, password)[5] == "802-11-wireless-security.psk"@,
        modify_args(ssid, password)[6] == password,
{
    crate::network::lemma_profile_name();
}

/// The create command passes the interface, the network name and the
/// passphrase exactly as given, each right after its keyword, whatever
/// characters they hold.
pub proof fn lemma_create_args_carry_inputs(iface: Seq<char>, ssid: Seq<char>, password: Seq<char>)
    ensures
        create_args(iface, ssid, password).len() == 11,
        create_args(iface, ssid, password)[0] == "device"@,
        create_args(iface, ssid, password)[1] == "wifi"@,
        create_args(iface, ssid, password)[2] == "hotspot"@,
        create_args(iface, ssid, password)[3] == "ifname"@,
        create_args(iface, ssid, password)[4] == iface,
        create_args(iface, ssid, password)[5] == "con-name"@,
        create_args(iface, ssid, password)[6] == "WifiPartage"@,
        create_args(iface, ssid, password)[7] == "ssid"@,
        create_args(iface, ssid, password)[8] == ssid,
        create_args(iface, ssid, password)[9] == "password"@,
        create_args(iface, ssid, password)[10] == password,
{
    crate::network::lemma_profile_name();
}

/// `nmcli -t -f NAME,TYPE connection show --active`.
pub open spec fn active_connections_args_spec() -> Seq<Seq<char>> {
    seq!["-t"@, "-f"@, "NAME,TYPE"@, "connection"@, "show"@, "--active"@]
}

/// `nmcli -s -g 802-11-wireless.ssid,802-11-wireless-security.psk connection show <profile>`.
pub open spec fn hotspot_config_args_spec() -> Seq<Seq<char>> {
    seq![
        "-s"@,
        "-g"@,
        "802-11-wireless.ssid,802-11-wireless-security.psk"@,
        "connection"@,
        "show"@,
        HOTSPOT_CON_NAME@,
    ]
}

/// `nmcli -t -f DEVICE,TYPE device`.
pub open spec fn wifi_devices_args_spec() -> Seq<Seq<char>> {
    seq!["-t"@, "-f"@, "DEVICE,TYPE"@, "device"@]
}

/// `ip -4 -o addr show dev <iface>`.
pub open spec fn gateway_args_spec(iface: Seq<char>) -> Seq<Seq<char>> {
    seq!["-4"@, "-o"@, "addr"@, "show"@, "dev"@, iface]
}

fn show_profile_cmd() -> (r: Vec<String>)
    ensures
        string_views(r@) == show_profile_args(),
{
    let mut v: Vec<String> = Vec::new();
    push_arg(&mut v, "connection");
    push_arg(&mut v, "show");
    push_arg(&mut v, HOTSPOT_CON_NAME);
    assert(string_views(v@) =~= show_profile_args());
    v
}

fn modify_cmd(ssid: &str, password: &str) -> (r: Vec<String>)
    ensures
        string_views(r@) == modify_args(ssid@, password@),
{
    let mut v: Vec<String> = Vec::new();
    push_arg(&mut v, "connection");
    push_arg(&mut v, "modify");
    push_arg(&mut v, HOTSPOT_CON_NAME);
    push_arg(&mut v, "802-11-wireless.ssid");
    push_arg(&mut v, ssid);
    push_arg(&mut v, "802-11-wireless-security.psk");
    push_arg(&mut v, password);
    assert(string_views(v@) =~= modify_args(ssid@, password@));
    v
}

fn up_cmd() -> (r: Vec<String>)
    ensures
        string_views(r@) == up_args(),
{
    let mut v: Vec<String> = Vec::new();
    push_arg(&mut v, "connection");
    push_arg(&mut v, "up");
    push_arg(&mut v, HOTSPOT_CON_NAME);
    assert(string_views(v@) =~= up_args());
    v
}

fn create_cmd(iface: &str, ssid: &str, password: &str) -> (r: Vec<String>)
    ensures
        string_views(r@) == create_args(iface@, ssid@, password@),
{
    let mut v: Vec<String> = Vec::new();
    push_arg(&mut v, "device");
    push_arg(&mut v, "wifi");
    push_arg(&mut v, "hotspot");
    push_arg(&mut v, "ifname");
    push_arg(&mut v, iface);
    push_arg(&mut v, "con-name");
    push_arg(&mut v, HOTSPOT_CON_NAME);
    push_arg(&mut v, "ssid");
    push_arg(&mut v, ssid);
    push_arg(&mut v, "password");
    push_arg(&mut v, password);
    assert(string_views(v@) =~= create_args(iface@, ssid@, password@));
    v
}

/// Arguments of the nmcli run that lists the active connections.
pub fn active_connections_args() -> (r: Vec<String>)
    ensures
        string_views(r@) == active_connections_args_spec(),
{
    let mut v: Vec<String> = Vec::new();
    push_arg(&mut v, "-t");
    push_arg(&mut v, "-f");
    push_arg(&mut v, "NAME,TYPE");
    push_arg(&mut v, "connection");
    push_arg(&mut v, "show");
    push_arg(&mut v, "--active");
    assert(string_views(v@) =~= active_connections_args_spec());
    v
}

/// Arguments of the nmcli run that reads the hotspot's SSID and passphrase.
pub fn hotspot_config_args() -> (r: Vec<String>)
    ensures
        string_views(r@) == hotspot_config_args_spec(),
{
    let mut v: Vec<String> = Vec::new();
    push_arg(&mut v, "-s");
    push_arg(&mut v, "-g");
    push_arg(&mut v, "802-11-wireless.ssid,802-11-wireless-security.psk");
    push_arg(&mut v, "connection");
    push_arg(&mut v, "show");
    push_arg(&mut v, HOTSPOT_CON_NAME);
    assert(string_views(v@) =~= hotspot_config_args_spec());
    v
}

/// Arguments of the nmcli run that lists the network devices and their types.
pub fn wifi_devices_args() -> (r: Vec<String>)
    ensures
        string_views(r@) == wifi_devices_args_spec(),
{
    let mut v: Vec<String> = Vec::new();
    push_arg(&mut v, "-t");
    push_arg(&mut v, "-f");
    push_arg(&mut v, "DEVICE,TYPE");
    push_arg(&mut v, "device");
    assert(string_views(v@) =~= wifi_devices_args_spec());
    v
}

/// Arguments of the `ip` run that lists the IPv4 addresses of an interface.
pub fn gateway_args(iface: &str) -> (r: Vec<String>)
    ensures
        string_views(r@) == gateway_args_spec(iface@),
{
    let mut v: Vec<String> = Vec::new();
    push_arg(&mut v, "-4");
    push_arg(&mut v, "-o");
    push_arg(&mut v, "addr");
    push_arg(&mut v, "show");
    push_arg(&mut v, "dev");
    push_arg(&mut v, iface);
    assert(string_views(v@) =~= gateway_args_spec(iface@));
    v
}

/// Arguments of the nmcli run that brings the hotspot down.
pub fn stop_hotspot_args() -> (r: Vec<String>)
    ensures
        string_views(r@) == down_args(),
{
    let mut v: Vec<String> = Vec::new();
    push_arg(&mut v, "connection");
    push_arg(&mut v, "down");
    push_arg(&mut v, HOTSPOT_CON_NAME);
    assert(string_views(v@) =~= down_args());
    v
}

fn ssid_message(prefix: &str, ssid: &String) -> (r: String)
    ensures
        r@ == prefix@ + ssid@ + "')"@,
{
    let mut r = String::from_str(prefix);
    r.append(ssid.as_str());
    r.append("')");
    r
}

// ---------------------------------------------------------------------------
// Starting
// ---------------------------------------------------------------------------
/// Where a start of the hotspot stands.
#[derive(PartialEq, Eq, Structural, Clone, Copy, Debug)]
pub enum StartPhase {
    /// Waiting for `nmcli connection show <profile>`.
    CheckExisting,
    /// Waiting for `nmcli connection modify ...`.
    Modify,
    /// Waiting for `nmcli connection up <profile>`.
    BringUp,
    /// Waiting for `nmcli device wifi hotspot ...`.
    Create,
    /// The result has been reported.
    Finished,
}

/// The most nmcli runs that a start may still ask for from this phase.
pub open spec fn start_runs_left(p: StartPhase) -> nat {
    match p {
        StartPhase::CheckExisting => 2,
        StartPhase::Modify => 1,
        StartPhase::BringUp => 0,
        StartPhase::Create => 0,
        StartPhase::Finished => 0,
    }
}

/// A start of the hotspot under way.
pub struct StartHotspot {
    pub ssid: String,
    pub password: String,
    pub iface: String,
    pub phase: StartPhase,
}

/// Begins to start (or re-start) the hotspot with the given network name,
/// passphrase and interface. A passphrase shorter than 8 bytes is refused at
/// once; otherwise the first step asks whether the profile exists.
pub fn start_hotspot(ssid: &str, password: &str, iface: &str) -> (r: (StartHotspot, NmcliStep))
    ensures
        r.0.ssid@ == ssid@,
        r.0.password@ == password@,
        r.0.iface@ == iface@,
        !password_long_enough(password) ==> r.0.phase == StartPhase::Finished && fails_with(
            r.1,
            HotspotError::PasswordTooShort,
        ),
        password_long_enough(password) ==> r.0.phase == StartPhase::CheckExisting && runs(
            r.1,
            show_profile_args(),
        ),
{
    let st = StartHotspot {
        ssid: String::from_str(ssid),
        password: String::from_str(password),
        iface: String::from_str(iface),
        phase: StartPhase::Finished,
    };
    if password.len() < 8 {
        (st, NmcliStep::Done(Err(HotspotError::PasswordTooShort)))
    } else {
        let st = StartHotspot { phase: StartPhase::CheckExisting, ..st };
        (st, NmcliStep::Run(show_profile_cmd()))
    }
}

impl StartHotspot {
    /// Takes the outcome of the command that the last step asked for and says
    /// what to do next. An nmcli that cannot be run ends the start with its
    /// message. An existing profile is changed and brought up; otherwise a new
    /// hotspot is created; a failing step ends the start with what nmcli
    /// reported.
    pub fn resume(&mut self, outcome: NmcliOutcome) -> (step: NmcliStep)
        requires
            old(self).phase != StartPhase::Finished,
        ensures
            final(self).ssid == old(self).ssid,
            final(self).password == old(self).password,
            final(self).iface == old(self).iface,
            step is Done <==> final(self).phase == StartPhase::Finished,
            step is Run ==> start_runs_left(final(self).phase) < start_runs_left(old(self).phase),
            match outcome {
                NmcliOutcome::SpawnFailed { error } => fails_with(step, HotspotError::Io(error)),
                NmcliOutcome::Finished { success, stdout, stderr } => match old(self).phase {
                    StartPhase::CheckExisting => if success {
                        final(self).phase == StartPhase::Modify && runs(
                            step,
                            modify_args(old(self).ssid@, old(self).password@),
                        )
                    } else {
                        final(self).phase == StartPhase::Create && runs(
                            step,
                            create_args(old(self).iface@, old(self).ssid@, old(self).password@),
                        )
                    },
                    StartPhase::Modify => if success {
                        final(self).phase == StartPhase::BringUp && runs(step, up_args())
                    } else {
                        fails_with(step, HotspotError::Configure(stderr))
                    },
                    StartPhase::BringUp => if success {
                        succeeds_with(
                            step,
                            "Hotspot activé avec succès (SSID: '"@ + old(self).ssid@ + "')"@,
                        )
                    } else {
                        fails_with(step, HotspotError::Activate(stderr))
                    },
                    StartPhase::Create => if success {
                        succeeds_with(
                            step,
                            "Hotspot créé et démarré avec succès (SSID: '"@ + old(self).ssid@
                                + "')"@,
                        )
                    } else {
                        fails_with(step, HotspotError::Create(stderr))
                    },
                    StartPhase::Finished => false,
                },
            },
    {
        let phase = self.phase;
        match outcome {
            NmcliOutcome::SpawnFailed { error } => {
                self.phase = StartPhase::Finished;
                NmcliStep::Done(Err(HotspotError::Io(error)))
            },
            NmcliOutcome::Finished { success, stdout, stderr } => match phase {
                StartPhase::CheckExisting => {
                    if success {
                        self.phase = StartPhase::Modify;
                        NmcliStep::Run(modify_cmd(self.ssid.as_str(), self.password.as_str()))
                    } else {
                        self.phase = StartPhase::Create;
                        NmcliStep::Run(
                            create_cmd(
                                self.iface.as_str(),
                                self.ssid.as_str(),
                                self.password.as_str(),
                            ),
                        )
                    }
                },
                StartPhase::Modify => {
                    if success {
                        self.phase = StartPhase::BringUp;
                        NmcliStep::Run(up_cmd())
                    } else {
                        self.phase = StartPhase::Finished;
                        NmcliStep::Done(Err(HotspotError::Configure(stderr)))
                    }
                },
                StartPhase::BringUp => {
                    self.phase = StartPhase::Finished;
                    if success {
                        NmcliStep::Done(
                            Ok(ssid_message("Hotspot activé avec succès (SSID: '", &self.ssid)),
                        )
                    } else {
                        NmcliStep::Done(Err(HotspotError::Activate(stderr)))
                    }
                },
                StartPhase::Create => {
                    self.phase = StartPhase::Finished;
                    if success {
                        NmcliStep::Done(
                            Ok(
                                ssid_message(
                                    "Hotspot créé et démarré avec succès (SSID: '",
                                    &self.ssid,
                                ),
                            ),
                        )
                    } else {
                        NmcliStep::Done(Err(HotspotError::Create(stderr)))
                    }
                },
                StartPhase::Finished => {
                    // excluded by the precondition
                    NmcliStep::Done(Err(HotspotError::Io(stderr)))
                },
            },
        }
    }
}

// ---------------------------------------------------------------------------
// Stopping
// ---------------------------------------------------------------------------
/// Whether nmcli's complaint says that the hotspot was not up.
pub open spec fn reports_not_active(stderr: Seq<char>) -> bool {
    contains_seq(stderr, "aucune connexion active"@) || contains_seq(
        stderr,
        "no active connection"@,
    )
}

/// nmcli's complaint that the hotspot was not up is recognised wherever it
/// stands in what nmcli reported, in French as in English.
pub proof fn lemma_not_active_recognised(pre: Seq<char>, post: Seq<char>)
    ensures
        reports_not_active(pre + "aucune connexion active"@ + post),
        reports_not_active(pre + "no active connection"@ + post),
{
    let fr = "aucune connexion active"@;
    let en = "no active connection"@;
    let a = pre + fr + post;
    let b = pre + en + post;
    assert(a.subrange(pre.len() as int, pre.len() + fr.len() as int) =~= fr);
    assert(b.subrange(pre.len() as int, pre.len() + en.len() as int) =~= en);
}

/// Every error that reports what nmcli or the system said ends with that
/// text, unchanged.
pub proof fn lemma_errors_keep_reported_text(m: String)
    ensures
        error_message(HotspotError::Io(m)) == m@,
        ({
            let n = m@.len() as int;
            &&& error_message(HotspotError::Configure(m)).len() >= n
            &&& error_message(HotspotError::Configure(m)).subrange(
                error_message(HotspotError::Configure(m)).len() - n,
                error_message(HotspotError::Configure(m)).len() as int,
            ) == m@
            &&& error_message(HotspotError::Activate(m)).subrange(
                error_message(HotspotError::Activate(m)).len() - n,
                error_message(HotspotError::Activate(m)).len() as int,
            ) == m@
            &&& error_message(HotspotError::Create(m)).subrange(
                error_message(HotspotError::Create(m)).len() - n,
                error_message(HotspotError::Create(m)).len() as int,
            ) == m@
            &&& error_message(HotspotError::Stop(m)).subrange(
                error_message(HotspotError::Stop(m)).len() - n,
                error_message(HotspotError::Stop(m)).len() as int,
            ) == m@
            &&& error_message(HotspotError::Update(m)).subrange(
                error_message(HotspotError::Update(m)).len() - n,
                error_message(HotspotError::Update(m)).len() as int,
            ) == m@
        }),
{
    let n = m@.len() as int;
    let c = error_message(HotspotError::Configure(m));
    assert(c.subrange(c.len() - n, c.len() as int) =~= m@);
    let c = error_message(HotspotError::Activate(m));
    assert(c.subrange(c.len() - n, c.len() as int) =~= m@);
    let c = error_message(HotspotError::Create(m));
    assert(c.subrange(c.len() - n, c.len() as int) =~= m@);
    let c = error_message(HotspotError::Stop(m));
    assert(c.subrange(c.len() - n, c.len() as int) =~= m@);
    let c = error_message(HotspotError::Update(m));
    assert(c.subrange(c.len() - n, c.len() as int) =~= m@);
}

/// The result of stopping the hotspot, from the outcome of `nmcli connection
/// down <profile>`: success; success too when nmcli says the hotspot was not
/// up; otherwise the error with what nmcli reported.
pub fn stop_hotspot(outcome: NmcliOutcome) -> (r: Result<String, HotspotError>)
    ensures
        match outcome {
            NmcliOutcome::SpawnFailed { error } => r == Err::<String, HotspotError>(
                HotspotError::Io(error),
            ),
            NmcliOutcome::Finished { success, stdout, stderr } => if success {
                r matches Ok(m) && m@ == "Hotspot désactivé avec succès"@
            } else if reports_not_active(stderr@) {
                r matches Ok(m) && m@ == "Le hotspot était déjà inactif"@
            } else {
                r == Err::<String, HotspotError>(HotspotError::Stop(stderr))
            },
        },
{
    match outcome {
        NmcliOutcome::SpawnFailed { error } => Err(HotspotError::Io(error)),
        NmcliOutcome::Finished { success, stdout, stderr } => {
            if success {
                Ok(String::from_str("Hotspot désactivé avec succès"))
            } else {
                let err = chars_of(stderr.as_str());
                let fr = chars_of("aucune connexion active");
                let en = chars_of("no active connection");
                if contains_chars(&err, &fr) || contains_chars(&err, &en) {
                    Ok(String::from_str("Le hotspot était déjà inactif"))
                } else {
                    Err(HotspotError::Stop(stderr))
                }
            }
        },
    }
}

// ---------------------------------------------------------------------------
// Reconfiguring
// ---------------------------------------------------------------------------
/// Where a change of the hotspot's configuration stands.
#[derive(PartialEq, Eq, Structural, Clone, Copy, Debug)]
pub enum UpdatePhase {
    /// Waiting for `nmcli connection modify ...`.
    Modify,
    /// Waiting for the list of active connections.
    CheckActive,
    /// Waiting for `nmcli connection up <profile>`.
    Restart,
    /// The result has been reported.
    Finished,
}

/// The most nmcli runs that a change may still ask for from this phase.
pub open spec fn update_runs_left(p: UpdatePhase) -> nat {
    match p {
        UpdatePhase::Modify => 2,
        UpdatePhase::CheckActive => 1,
        UpdatePhase::Restart => 0,
        UpdatePhase::Finished => 0,
    }
}

/// A change of the hotspot's configuration under way.
pub struct UpdateConfig {
    pub ssid: String,
    pub password: String,
    pub phase: UpdatePhase,
}

/// Begins to store a new network name and passphrase in the profile. A
/// passphrase shorter than 8 bytes is refused at once.
pub fn update_config(ssid: &str, password: &str) -> (r: (UpdateConfig, NmcliStep))
    ensures
        r.0.ssid@ == ssid@,
        r.0.password@ == password@,
        !password_long_enough(password) ==> r.0.phase == UpdatePhase::Finished && fails_with(
            r.1,
            HotspotError::PasswordTooShort,
        ),
        password_long_enough(password) ==> r.0.phase == UpdatePhase::Modify && runs(
            r.1,
            modify_args(ssid@, password@),
        ),
{
    let st = UpdateConfig {
        ssid: String::from_str(ssid),
        password: String::from_str(password),
        phase: UpdatePhase::Finished,
    };
    if password.len() < 8 {
        (st, NmcliStep::Done(Err(HotspotError::PasswordTooShort)))
    } else {
        let st = UpdateConfig { phase: UpdatePhase::Modify, ..st };
        (st, NmcliStep::Run(modify_cmd(ssid, password)))
    }
}

/// Whether the active connections, as a run of the listing ended, include the
/// hotspot (a listing that could not be run counts as not up).
pub open spec fn outcome_lists_hotspot(outcome: NmcliOutcome) -> bool {
    match outcome {
        NmcliOutcome::SpawnFailed { .. } => false,
        NmcliOutcome::Finished { stdout, .. } => hotspot_listed(stdout@),
    }
}

impl UpdateConfig {
    /// Takes the outcome of the command that the last step asked for and says
    /// what to do next: after the profile was changed, the active connections
    /// are listed, and a hotspot that is up is brought up again (whatever that
    /// last run gives).
    pub fn resume(&mut self, outcome: NmcliOutcome) -> (step: NmcliStep)
        requires
            old(self).phase != UpdatePhase::Finished,
        ensures
            final(self).ssid == old(self).ssid,
            final(self).password == old(self).password,
            step is Done <==> final(self).phase == UpdatePhase::Finished,
            step is Run ==> update_runs_left(final(self).phase) < update_runs_left(
                old(self).phase,
            ),
            match old(self).phase {
                UpdatePhase::Modify => match outcome {
                    NmcliOutcome::SpawnFailed { error } => fails_with(
                        step,
                        HotspotError::Io(error),
                    ),
                    NmcliOutcome::Finished { success, stdout, stderr } => if success {
                        final(self).phase == UpdatePhase::CheckActive && runs(
                            step,
                            active_connections_args_spec(),
                        )
                    } else {
                        fails_with(step, HotspotError::Update(stderr))
                    },
                },
                UpdatePhase::CheckActive => if outcome_lists_hotspot(outcome) {
                    final(self).phase == UpdatePhase::Restart && runs(step, up_args())
                } else {
                    succeeds_with(
                        step,
                        "Configuration enregistrée pour le prochain démarrage (SSID: '"@
                            + old(self).ssid@ + "')"@,
                    )
                },
                UpdatePhase::Restart => succeeds_with(
                    step,
                    "Configuration appliquée et hotspot redémarré (SSID: '"@ + old(self).ssid@
                        + "')"@,
                ),
                UpdatePhase::Finished => false,
            },
    {
        let phase = self.phase;
        match phase {
            UpdatePhase::Modify => match outcome {
                NmcliOutcome::SpawnFailed { error } => {
                    self.phase = UpdatePhase::Finished;
                    NmcliStep::Done(Err(HotspotError::Io(error)))
                },
                NmcliOutcome::Finished { success, stdout, stderr } => {
                    if success {
                        self.phase = UpdatePhase::CheckActive;
                        NmcliStep::Run(active_connections_args())
                    } else {
                        self.phase = UpdatePhase::Finished;
                        NmcliStep::Done(Err(HotspotError::Update(stderr)))
                    }
                },
            },
            UpdatePhase::CheckActive => {
                let active = match &outcome {
                    NmcliOutcome::SpawnFailed { .. } => false,
                    NmcliOutcome::Finished { stdout, .. } => is_hotspot_active(
                        Some(stdout.as_str()),
                    ),
                };
                if active {
                    self.phase = UpdatePhase::Restart;
                    NmcliStep::Run(up_cmd())
                } else {
                    self.phase = UpdatePhase::Finished;
                    NmcliStep::Done(
                        Ok(
                            ssid_message(
                                "Configuration enregistrée pour le prochain démarrage (SSID: '",
                                &self.ssid,
                            ),
                        ),
                    )
                }
            },
            UpdatePhase::Restart => {
                self.phase = UpdatePhase::Finished;
                NmcliStep::Done(
                    Ok(
                        ssid_message(
                            "Configuration appliquée et hotspot redémarré (SSID: '",
                            &self.ssid,
                        ),
                    ),
                )
            },
            // excluded by the precondition
            UpdatePhase::Finished => NmcliStep::Done(Err(HotspotError::PasswordTooShort)),
        }
    }
}

} // verus!
