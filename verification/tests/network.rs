use arch_hotspot::network::{
    get_connected_clients, get_gateway_ip, get_hotspot_config, get_wifi_interface,
    is_hotspot_active, query_quick_status, ConnectedClient, HOTSPOT_CON_NAME,
};

const ARP_TABLE: &str = "IP address       HW type     Flags       HW address            Mask     Device\n\
10.42.0.23       0x1         0x2         aa:bb:cc:dd:ee:ff     *        wlp4s0\n\
10.42.0.24       0x1         0x0         00:00:00:00:00:00     *        wlp4s0\n\
10.42.0.25       0x1         0x2         00:00:00:00:00:00     *        wlp4s0\n\
192.168.1.1      0x1         0x2         11:22:33:44:55:66     *        enp3s0\n\
10.42.0.30       0x1         0x2         0a:1b:2c:3d:4e:5f     *        wlp4s0\n";

#[test]
fn profile_name_is_fixed() {
    assert_eq!(HOTSPOT_CON_NAME, "WifiPartage");
}

#[test]
fn wifi_interface_prefers_sysfs() {
    let r = get_wifi_interface(Some("wlan0".to_string()), Some("wlp2s0:wifi\n"));
    assert_eq!(r, "wlan0");
}

#[test]
fn wifi_interface_from_nmcli_listing() {
    let out = "lo:loopback\nenp3s0:ethernet\np2p-dev-wlp2s0:wifi-p2p\nwlp2s0:wifi\nwlp5s0:wifi\n";
    assert_eq!(get_wifi_interface(None, Some(out)), "wlp2s0");
}

#[test]
fn wifi_interface_uses_second_field_only() {
    assert_eq!(get_wifi_interface(None, Some("wifi\nwlx1:wifi:extra\n")), "wlx1");
}

#[test]
fn wifi_interface_defaults() {
    assert_eq!(get_wifi_interface(None, Some("eth0:ethernet\n")), "wlp4s0");
    assert_eq!(get_wifi_interface(None, Some("")), "wlp4s0");
    assert_eq!(get_wifi_interface(None, None), "wlp4s0");
}

#[test]
fn hotspot_active_when_profile_listed() {
    let out = "Wired connection 1:802-3-ethernet\nWifiPartage:802-11-wireless\n";
    assert!(is_hotspot_active(Some(out)));
    assert!(is_hotspot_active(Some("WifiPartage")));
    assert!(is_hotspot_active(Some("lo:loopback\r\nWifiPartage:802-11-wireless\r\n")));
}

#[test]
fn hotspot_inactive_otherwise() {
    assert!(!is_hotspot_active(Some("Wired connection 1:802-3-ethernet\n")));
    assert!(!is_hotspot_active(Some("WifiPartage2:802-11-wireless\n")));
    assert!(!is_hotspot_active(Some(" WifiPartage:802-11-wireless\n")));
    assert!(!is_hotspot_active(Some("")));
    assert!(!is_hotspot_active(None));
}

#[test]
fn hotspot_config_reads_two_trimmed_lines() {
    let (ssid, psk) = get_hotspot_config(Some("  MonReseau \n\tsecret123 \n"));
    assert_eq!(ssid, "MonReseau");
    assert_eq!(psk, "secret123");
}

#[test]
fn hotspot_config_defaults_for_missing_or_blank() {
    assert_eq!(
        get_hotspot_config(Some("\n   \n")),
        ("Niaina".to_string(), "12345678".to_string())
    );
    assert_eq!(
        get_hotspot_config(Some("Seul")),
        ("Seul".to_string(), "12345678".to_string())
    );
    assert_eq!(
        get_hotspot_config(Some("")),
        ("Niaina".to_string(), "12345678".to_string())
    );
    assert_eq!(
        get_hotspot_config(None),
        ("Niaina".to_string(), "12345678".to_string())
    );
}

#[test]
fn hotspot_config_keeps_inner_spaces() {
    let (ssid, psk) = get_hotspot_config(Some("Mon Reseau\u{a0}\nmot de passe\n"));
    assert_eq!(ssid, "Mon Reseau");
    assert_eq!(psk, "mot de passe");
}

#[test]
fn gateway_from_ip_output() {
    let out = "3: wlp4s0    inet 10.42.0.1/24 brd 10.42.0.255 scope global noprefixroute wlp4s0\\       valid_lft forever preferred_lft forever\n";
    assert_eq!(get_gateway_ip(Some(out)), "10.42.0.1");
}

#[test]
fn gateway_in_192_168_range() {
    let out = "2: wlan0    inet 192.168.12.1/24 brd 192.168.12.255 scope global wlan0\n";
    assert_eq!(get_gateway_ip(Some(out)), "192.168.12.1");
}

#[test]
fn gateway_defaults_without_private_prefix() {
    let out = "2: wlan0    inet 172.16.0.1/16 brd 172.16.255.255 scope global wlan0\n";
    assert_eq!(get_gateway_ip(Some(out)), "10.42.0.1");
    assert_eq!(get_gateway_ip(Some("10.0.0.1 without prefix")), "10.42.0.1");
    assert_eq!(get_gateway_ip(Some("")), "10.42.0.1");
    assert_eq!(get_gateway_ip(None), "10.42.0.1");
}

#[test]
fn connected_clients_from_arp_table() {
    let clients = get_connected_clients(Some(ARP_TABLE), "wlp4s0");
    assert_eq!(
        clients,
        vec![
            ConnectedClient {
                ip: "10.42.0.23".to_string(),
                mac: "AA:BB:CC:DD:EE:FF".to_string(),
                state: "CONNECTÉ".to_string(),
            },
            ConnectedClient {
                ip: "10.42.0.30".to_string(),
                mac: "0A:1B:2C:3D:4E:5F".to_string(),
                state: "CONNECTÉ".to_string(),
            },
        ]
    );
}

#[test]
fn connected_clients_on_other_interface() {
    let clients = get_connected_clients(Some(ARP_TABLE), "enp3s0");
    assert_eq!(clients.len(), 1);
    assert_eq!(clients[0].ip, "192.168.1.1");
    assert_eq!(clients[0].mac, "11:22:33:44:55:66");
}

#[test]
fn connected_clients_skip_heading_and_short_lines() {
    let content = "10.42.0.9 0x1 0x2 aa:aa:aa:aa:aa:aa * wlp4s0\n10.42.0.10 0x1 0x2 bb:bb\n";
    assert!(get_connected_clients(Some(content), "wlp4s0").is_empty());
    assert!(get_connected_clients(Some(""), "wlp4s0").is_empty());
    assert!(get_connected_clients(None, "wlp4s0").is_empty());
}

#[test]
fn quick_status_reads_clients_only_when_active() {
    let active = query_quick_status(Some("WifiPartage:802-11-wireless\n"), Some(ARP_TABLE), "wlp4s0");
    assert!(active.is_active);
    assert_eq!(active.clients.len(), 2);
    assert_eq!(active.clients[1].mac, "0A:1B:2C:3D:4E:5F");

    let inactive = query_quick_status(Some("lo:loopback\n"), Some(ARP_TABLE), "wlp4s0");
    assert!(!inactive.is_active);
    assert!(inactive.clients.is_empty());

    let no_nmcli = query_quick_status(None, Some(ARP_TABLE), "wlp4s0");
    assert!(!no_nmcli.is_active);
    assert!(no_nmcli.clients.is_empty());
}
