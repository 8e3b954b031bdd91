use arch_hotspot::dashboard::{
    badge_label, chrono_now_str, client_rows, client_table_header, initial_state_log, log_line, result_log,
    starting_log, toggle_label, trim_input, AppMsg, Dashboard, PowerAction,
};
use arch_hotspot::hotspot::HotspotError;
use arch_hotspot::network::{ConnectedClient, QuickTickStatus};

fn client(ip: &str, mac: &str) -> ConnectedClient {
    ConnectedClient { ip: ip.to_string(), mac: mac.to_string(), state: "CONNECTÉ".to_string() }
}

const HEADER: &str = "@b@f@C223  ADRESSE IP\t@b@f@C223ADRESSE MAC\t@b@f@C223ÉTAT";

#[test]
fn clock_in_utc_plus_three() {
    assert_eq!(chrono_now_str(Some(0)), "03:00:00");
    assert_eq!(chrono_now_str(Some(3661)), "04:01:01");
    assert_eq!(chrono_now_str(Some(86399)), "02:59:59");
    assert_eq!(chrono_now_str(Some(1_700_000_000)), "01:13:20");
    assert_eq!(chrono_now_str(Some(u64::MAX)), "10:00:15");
    assert_eq!(chrono_now_str(None), "00:00:00");
}

#[test]
fn log_lines() {
    assert_eq!(log_line("12:00:00", "Bonjour"), "@f@C255  [12:00:00] Bonjour");
    assert_eq!(starting_log("Maison"), "Démarrage du hotspot (SSID: 'Maison')...");
    assert_eq!(initial_state_log(true), "Point d'accès Wi-Fi actuellement ACTIF.");
    assert_eq!(initial_state_log(false), "Point d'accès Wi-Fi actuellement INACTIF.");
    assert_eq!(result_log(&Ok("fait".to_string())), "fait");
    assert_eq!(
        result_log(&Err(HotspotError::Stop("oups".to_string()))),
        "Erreur: Erreur arrêt hotspot: oups"
    );
}

#[test]
fn labels() {
    assert_eq!(badge_label(true), "● HOTSPOT ACTIF");
    assert_eq!(badge_label(false), "○ HOTSPOT INACTIF");
    assert_eq!(toggle_label(true), "■  ARRÊTER LE PARTAGE");
    assert_eq!(toggle_label(false), "▶  DÉMARRER LE PARTAGE");
    assert_eq!(trim_input("  Maison \t"), "Maison");
    assert_eq!(trim_input("   "), "");
    assert_eq!(client_table_header(), HEADER);
}

#[test]
fn device_table_rows() {
    assert_eq!(
        client_rows(true, &vec![]),
        vec![HEADER.to_string(), "@f@C255  ○ Aucun appareil connecté pour le moment.".to_string()]
    );
    assert_eq!(
        client_rows(false, &vec![]),
        vec![HEADER.to_string(), "@f@C255  ○ Le point d'accès est inactif.".to_string()]
    );
    assert_eq!(
        client_rows(true, &vec![client("10.42.0.23", "AA:BB:CC:DD:EE:FF")]),
        vec![
            HEADER.to_string(),
            "@f@C255  10.42.0.23\t@f@C255AA:BB:CC:DD:EE:FF\t@b@f@C63CONNECTÉ".to_string()
        ]
    );
}

#[test]
fn toggle_follows_last_known_state() {
    assert_eq!(Dashboard::new(true).toggle_action(), PowerAction::Stop);
    assert_eq!(Dashboard::new(false).toggle_action(), PowerAction::Start);
    let unknown = Dashboard { last_active: None, last_clients: vec![] };
    assert_eq!(unknown.toggle_action(), PowerAction::Start);
}

#[test]
fn tick_shows_changes() {
    let mut d = Dashboard::new(false);
    let status = QuickTickStatus { is_active: true, clients: vec![client("10.42.0.23", "AA:BB")] };
    let u = d.on_tick(status);
    assert_eq!(u.power, Some(true));
    let table = u.clients.expect("devices changed");
    assert_eq!(table.count, 1);
    assert_eq!(table.rows.len(), 2);
    assert!(u.redraw);
    assert!(u.log.is_none());
    assert_eq!(d.last_active, Some(true));
    assert_eq!(d.last_clients, vec![client("10.42.0.23", "AA:BB")]);
}

#[test]
fn repeated_tick_is_quiet() {
    let mut d = Dashboard::new(true);
    let status = QuickTickStatus { is_active: true, clients: vec![client("10.42.0.5", "11:22")] };
    let first = d.on_tick(status.clone());
    assert!(first.power.is_none());
    assert!(first.clients.is_some());
    let second = d.on_tick(status);
    assert!(second.power.is_none());
    assert!(second.clients.is_none());
    assert!(!second.redraw);
}

#[test]
fn tick_with_no_change_on_new_dashboard() {
    let mut d = Dashboard::new(false);
    let u = d.on_tick(QuickTickStatus { is_active: false, clients: vec![] });
    assert!(u.power.is_none());
    assert!(u.clients.is_none());
    assert!(!u.redraw);
}

#[test]
fn stop_success_clears_the_table() {
    let mut d = Dashboard::new(true);
    d.on_tick(QuickTickStatus { is_active: true, clients: vec![client("10.42.0.5", "11:22")] });
    let u = d.on_stopped(Ok("Hotspot désactivé avec succès".to_string()));
    assert_eq!(u.log.as_deref(), Some("Hotspot désactivé avec succès"));
    assert_eq!(u.power, Some(false));
    let table = u.clients.expect("table reset");
    assert_eq!(table.count, 0);
    assert_eq!(
        table.rows,
        vec![HEADER.to_string(), "@f@C255  ○ Le point d'accès est inactif.".to_string()]
    );
    assert_eq!(d.last_active, Some(false));
    assert!(d.last_clients.is_empty());
    assert_eq!(d.toggle_action(), PowerAction::Start);
}

#[test]
fn stop_failure_only_logs() {
    let mut d = Dashboard::new(true);
    let u = d.on_stopped(Err(HotspotError::Io("boom".to_string())));
    assert_eq!(u.log.as_deref(), Some("Erreur: boom"));
    assert!(u.power.is_none());
    assert!(u.clients.is_none());
    assert_eq!(d.last_active, Some(true));
}

#[test]
fn start_result_updates_state() {
    let mut d = Dashboard::new(false);
    let u = d.on_started(Err(HotspotError::PasswordTooShort));
    assert_eq!(u.log.as_deref(), Some("Erreur: Le mot de passe doit contenir au moins 8 caractères"));
    assert_eq!(d.last_active, Some(false));
    let u = d.on_started(Ok("Hotspot activé avec succès (SSID: 'X')".to_string()));
    assert_eq!(u.power, Some(true));
    assert_eq!(d.last_active, Some(true));
    assert_eq!(d.toggle_action(), PowerAction::Stop);
}

#[test]
fn messages_are_cloneable() {
    let m = AppMsg::Log("x".to_string());
    assert!(matches!(m.clone(), AppMsg::Log(s) if s == "x"));
}
