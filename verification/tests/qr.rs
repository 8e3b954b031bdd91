use arch_hotspot::qr::{
    escape_wifi_str, generate_qr_image, qr_network_label, qr_security_label, render_qr_rgb,
    wifi_qr_payload,
};

fn unescape(t: &str) -> String {
    let mut out = String::new();
    let mut it = t.chars();
    while let Some(c) = it.next() {
        if c == '\\' {
            match it.next() {
                Some(n) => out.push(n),
                None => out.push('\\'),
            }
        } else {
            out.push(c);
        }
    }
    out
}

#[test]
fn escape_reserved_characters() {
    assert_eq!(escape_wifi_str("a;b,c:d\\e\"f"), "a\\;b\\,c\\:d\\\\e\\\"f");
    assert_eq!(escape_wifi_str("Café Wi-Fi"), "Café Wi-Fi");
    assert_eq!(escape_wifi_str(""), "");
}

#[test]
fn escape_then_unescape_gives_back_the_text() {
    for s in ["plain", ";;;", "\\\\", "a\\", "x:y,z\"w", "été;\\"] {
        assert_eq!(unescape(&escape_wifi_str(s)), s);
    }
}

#[test]
fn payload_with_password() {
    assert_eq!(wifi_qr_payload("Niaina", "12345678"), "WIFI:S:Niaina;T:WPA;P:12345678;;");
    assert_eq!(wifi_qr_payload("a;b", "p:w"), "WIFI:S:a\\;b;T:WPA;P:p\\:w;;");
}

#[test]
fn payload_for_open_network() {
    assert_eq!(wifi_qr_payload("Libre", ""), "WIFI:S:Libre;T:nopass;;");
}

fn byte_at(data: &[u8], dim: usize, y: usize, x: usize) -> u8 {
    data[(y * dim + x) * 3]
}

#[test]
fn render_one_pixel_per_module() {
    let mut modules = vec![false; 21 * 21];
    modules[0] = true;
    modules[21 * 20 + 20] = true;
    let img = render_qr_rgb(21, &modules, 25);
    assert_eq!(img.dim, 25);
    assert_eq!(img.data.len(), 25 * 25 * 3);
    for y in 0..25 {
        for x in 0..25 {
            let dark = (y == 2 && x == 2) || (y == 22 && x == 22);
            let expected = if dark { 0 } else { 255 };
            for c in 0..3 {
                assert_eq!(img.data[(y * 25 + x) * 3 + c], expected);
            }
        }
    }
}

#[test]
fn render_scales_modules() {
    let mut modules = vec![false; 21 * 21];
    modules[21 + 3] = true; // row 1, column 3
    let img = render_qr_rgb(21, &modules, 80);
    assert_eq!(img.dim, 75);
    let d = img.dim as usize;
    for y in 0..d {
        for x in 0..d {
            let dark = (9..12).contains(&y) && (15..18).contains(&x);
            assert_eq!(byte_at(&img.data, d, y, x), if dark { 0 } else { 255 });
        }
    }
}

#[test]
fn render_small_or_negative_target_uses_one_pixel() {
    let modules = vec![true; 21 * 21];
    for t in [0, -7, 10, 24] {
        let img = render_qr_rgb(21, &modules, t);
        assert_eq!(img.dim, 25);
        assert_eq!(byte_at(&img.data, 25, 0, 0), 255);
        assert_eq!(byte_at(&img.data, 25, 2, 2), 0);
        assert_eq!(byte_at(&img.data, 25, 24, 24), 255);
    }
}

#[test]
fn qr_image_of_wifi_network() {
    let img = generate_qr_image("Niaina", "12345678", 260).expect("payload fits");
    let code = qrcode::QrCode::new("WIFI:S:Niaina;T:WPA;P:12345678;;".as_bytes()).unwrap();
    let w = code.width();
    let scale = 260 / (w + 4);
    let dim = (w + 4) * scale;
    assert_eq!(img.dim as usize, dim);
    assert!(dim <= 260);
    assert_eq!(img.data.len(), dim * dim * 3);
    let colors = code.to_colors();
    for row in 0..w {
        for col in 0..w {
            let dark = colors[row * w + col] == qrcode::Color::Dark;
            let y = (row + 2) * scale;
            let x = (col + 2) * scale;
            assert_eq!(byte_at(&img.data, dim, y, x), if dark { 0 } else { 255 });
        }
    }
    // quiet zone and the finder pattern's corner
    assert_eq!(byte_at(&img.data, dim, 0, 0), 255);
    assert_eq!(byte_at(&img.data, dim, 2 * scale - 1, 2 * scale - 1), 255);
    assert_eq!(byte_at(&img.data, dim, 2 * scale, 2 * scale), 0);
}

#[test]
fn qr_image_too_much_data() {
    let long = "x".repeat(3000);
    assert!(generate_qr_image(&long, "12345678", 260).is_none());
}

#[test]
fn qr_dialog_labels() {
    assert_eq!(qr_network_label("Niaina"), "Réseau (SSID) : Niaina");
    assert_eq!(qr_security_label("12345678"), ("Mot de passe : 12345678".to_string(), true));
    assert_eq!(
        qr_security_label(""),
        ("Sécurité : Réseau ouvert (sans mot de passe)".to_string(), false)
    );
}
