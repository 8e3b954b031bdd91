use arch_hotspot::hotspot::{
    active_connections_args, gateway_args, hotspot_config_args, start_hotspot, stop_hotspot,
    stop_hotspot_args, update_config, wifi_devices_args, HotspotError, NmcliOutcome, NmcliStep,
    StartPhase, UpdatePhase,
};

fn ok_run(stdout: &str) -> NmcliOutcome {
    NmcliOutcome::Finished { success: true, stdout: stdout.to_string(), stderr: String::new() }
}

fn failed_run(stderr: &str) -> NmcliOutcome {
    NmcliOutcome::Finished { success: false, stdout: String::new(), stderr: stderr.to_string() }
}

fn run_args(step: &NmcliStep) -> Vec<String> {
    match step {
        NmcliStep::Run(args) => args.clone(),
        NmcliStep::Done(_) => panic!("expected a command"),
    }
}

fn done_ok(step: NmcliStep) -> String {
    match step {
        NmcliStep::Done(Ok(m)) => m,
        _ => panic!("expected success"),
    }
}

fn done_err(step: NmcliStep) -> HotspotError {
    match step {
        NmcliStep::Done(Err(e)) => e,
        _ => panic!("expected an error"),
    }
}

fn strs(v: &[&str]) -> Vec<String> {
    v.iter().map(|s| s.to_string()).collect()
}

#[test]
fn start_refuses_short_password() {
    let (st, step) = start_hotspot("Net", "1234567", "wlp4s0");
    assert_eq!(st.phase, StartPhase::Finished);
    let e = done_err(step);
    assert!(matches!(e, HotspotError::PasswordTooShort));
    assert_eq!(e.message(), "Le mot de passe doit contenir au moins 8 caractères");
}

#[test]
fn start_counts_password_bytes() {
    // four characters, eight bytes in UTF-8
    let (st, step) = start_hotspot("Net", "éééé", "wlp4s0");
    assert_eq!(st.phase, StartPhase::CheckExisting);
    assert_eq!(run_args(&step), strs(&["connection", "show", "WifiPartage"]));
}

#[test]
fn start_with_existing_profile() {
    let (mut st, _) = start_hotspot("Maison", "secret123", "wlp4s0");
    let step = st.resume(ok_run(""));
    assert_eq!(st.phase, StartPhase::Modify);
    assert_eq!(
        run_args(&step),
        strs(&[
            "connection",
            "modify",
            "WifiPartage",
            "802-11-wireless.ssid",
            "Maison",
            "802-11-wireless-security.psk",
            "secret123",
        ])
    );
    let step = st.resume(ok_run(""));
    assert_eq!(st.phase, StartPhase::BringUp);
    assert_eq!(run_args(&step), strs(&["connection", "up", "WifiPartage"]));
    let step = st.resume(ok_run("Connection successfully activated"));
    assert_eq!(st.phase, StartPhase::Finished);
    assert_eq!(done_ok(step), "Hotspot activé avec succès (SSID: 'Maison')");
}

#[test]
fn start_creates_missing_profile() {
    let (mut st, _) = start_hotspot("Maison", "secret123", "wlan0");
    let step = st.resume(failed_run("Error: no such connection profile."));
    assert_eq!(st.phase, StartPhase::Create);
    assert_eq!(
        run_args(&step),
        strs(&[
            "device",
            "wifi",
            "hotspot",
            "ifname",
            "wlan0",
            "con-name",
            "WifiPartage",
            "ssid",
            "Maison",
            "password",
            "secret123",
        ])
    );
    let step = st.resume(ok_run(""));
    assert_eq!(done_ok(step), "Hotspot créé et démarré avec succès (SSID: 'Maison')");
}

#[test]
fn start_reports_each_failure() {
    let (mut st, _) = start_hotspot("Maison", "secret123", "wlan0");
    st.resume(ok_run(""));
    let e = done_err(st.resume(failed_run("bad key")));
    assert_eq!(e.message(), "Erreur configuration nmcli: bad key");

    let (mut st, _) = start_hotspot("Maison", "secret123", "wlan0");
    st.resume(ok_run(""));
    st.resume(ok_run(""));
    let e = done_err(st.resume(failed_run("no device")));
    assert_eq!(e.message(), "Erreur activation nmcli: no device");

    let (mut st, _) = start_hotspot("Maison", "secret123", "wlan0");
    st.resume(failed_run(""));
    let e = done_err(st.resume(failed_run("busy")));
    assert_eq!(e.message(), "Erreur création nmcli: busy");

    let (mut st, _) = start_hotspot("Maison", "secret123", "wlan0");
    let e = done_err(st.resume(NmcliOutcome::SpawnFailed { error: "No such file or directory (os error 2)".to_string() }));
    assert_eq!(st.phase, StartPhase::Finished);
    assert_eq!(e.message(), "No such file or directory (os error 2)");
}

#[test]
fn stop_results() {
    assert_eq!(stop_hotspot(ok_run("")).unwrap(), "Hotspot désactivé avec succès");
    assert_eq!(
        stop_hotspot(failed_run("Erreur : aucune connexion active fournie.")).unwrap(),
        "Le hotspot était déjà inactif"
    );
    assert_eq!(
        stop_hotspot(failed_run("Error: 'WifiPartage' is not an active connection.\nError: no active connection provided.")).unwrap(),
        "Le hotspot était déjà inactif"
    );
    let e = stop_hotspot(failed_run("permission denied")).unwrap_err();
    assert_eq!(e.message(), "Erreur arrêt hotspot: permission denied");
    let e = stop_hotspot(NmcliOutcome::SpawnFailed { error: "gone".to_string() }).unwrap_err();
    assert_eq!(e.message(), "gone");
    assert_eq!(stop_hotspot_args(), strs(&["connection", "down", "WifiPartage"]));
}

#[test]
fn update_refuses_short_password() {
    let (st, step) = update_config("Net", "abc");
    assert_eq!(st.phase, UpdatePhase::Finished);
    assert!(matches!(done_err(step), HotspotError::PasswordTooShort));
}

#[test]
fn update_restarts_active_hotspot() {
    let (mut st, step) = update_config("Bureau", "motdepasse");
    assert_eq!(
        run_args(&step),
        strs(&[
            "connection",
            "modify",
            "WifiPartage",
            "802-11-wireless.ssid",
            "Bureau",
            "802-11-wireless-security.psk",
            "motdepasse",
        ])
    );
    let step = st.resume(ok_run(""));
    assert_eq!(st.phase, UpdatePhase::CheckActive);
    assert_eq!(run_args(&step), active_connections_args());
    let step = st.resume(ok_run("WifiPartage:802-11-wireless\n"));
    assert_eq!(st.phase, UpdatePhase::Restart);
    assert_eq!(run_args(&step), strs(&["connection", "up", "WifiPartage"]));
    let step = st.resume(failed_run("ignored"));
    assert_eq!(done_ok(step), "Configuration appliquée et hotspot redémarré (SSID: 'Bureau')");
}

#[test]
fn update_saves_for_next_start() {
    let (mut st, _) = update_config("Bureau", "motdepasse");
    st.resume(ok_run(""));
    let step = st.resume(ok_run("lo:loopback\n"));
    assert_eq!(
        done_ok(step),
        "Configuration enregistrée pour le prochain démarrage (SSID: 'Bureau')"
    );
    let (mut st, _) = update_config("Bureau", "motdepasse");
    st.resume(ok_run(""));
    let step = st.resume(NmcliOutcome::SpawnFailed { error: "x".to_string() });
    assert_eq!(
        done_ok(step),
        "Configuration enregistrée pour le prochain démarrage (SSID: 'Bureau')"
    );
}

#[test]
fn update_reports_failure() {
    let (mut st, _) = update_config("Bureau", "motdepasse");
    let e = done_err(st.resume(failed_run("unknown connection")));
    assert_eq!(e.message(), "Erreur mise à jour nmcli: unknown connection");
    let (mut st, _) = update_config("Bureau", "motdepasse");
    let e = done_err(st.resume(NmcliOutcome::SpawnFailed { error: "denied".to_string() }));
    assert_eq!(e.message(), "denied");
}

#[test]
fn query_argument_lists() {
    assert_eq!(
        active_connections_args(),
        strs(&["-t", "-f", "NAME,TYPE", "connection", "show", "--active"])
    );
    assert_eq!(
        hotspot_config_args(),
        strs(&[
            "-s",
            "-g",
            "802-11-wireless.ssid,802-11-wireless-security.psk",
            "connection",
            "show",
            "WifiPartage",
        ])
    );
    assert_eq!(wifi_devices_args(), strs(&["-t", "-f", "DEVICE,TYPE", "device"]));
    assert_eq!(gateway_args("wlp4s0"), strs(&["-4", "-o", "addr", "show", "dev", "wlp4s0"]));
}
