//! The Wi-Fi QR code: the standard `WIFI:` payload with its escaping, the QR
//! symbol that the `qrcode` crate encodes for it, and the RGB raster that is
//! shown, with a quiet zone of two modules.
use vstd::prelude::*;

use vstd::arithmetic::div_mod::lemma_fundamental_div_mod_converse;
use vstd::utf8::encode_utf8;
use crate::text::push_char;

verus! {

/// Characters that the payload format reserves and that are escaped with a backslash.
pub open spec fn is_reserved(c: char) -> bool {
    c == '\\' || c == ';' || c == ',' || c == ':' || c == '"'
}

/// The escaped form of one character.
pub open spec fn escape_char(c: char) -> Seq<char> {
    if is_reserved(c) {
        seq!['\\', c]
    } else {
        seq![c]
    }
}

/// Every reserved character of `s` preceded by a backslash.
pub open spec fn escape_spec(s: Seq<char>) -> Seq<char>
    decreases s.len(),
{
    if s.len() == 0 {
        seq![]
    } else {
        escape_char(s[0]) + escape_spec(s.drop_first())
    }
}

/// Reading an escaped field back: a backslash takes the next character as it is.
pub open spec fn unescape_spec(t: Seq<char>) -> Seq<char>
    decreases t.len(),
{
    if t.len() == 0 {
        seq![]
    } else if t[0] == '\\' && t.len() >= 2 {
        seq![t[1]] + unescape_spec(t.subrange(2, t.len() as int))
    } else {
        seq![t[0]] + unescape_spec(t.drop_first())
    }
}

/// Escaping distributes over concatenation.
pub proof fn lemma_escape_concat(a: Seq<char>, b: Seq<char>)
    ensures
        escape_spec(a + b) == escape_spec(a) + escape_spec(b),
    decreases a.len(),
{
    if a.len() == 0 {
        assert(a + b =~= b);
    } else {
        lemma_escape_concat(a.drop_first(), b);
        assert((a + b).drop_first() =~= a.drop_first() + b);
        assert(escape_spec(a + b) =~= escape_char(a[0]) + escape_spec(a.drop_first() + b));
    }
}

/// Escaping loses nothing: reading an escaped field back gives the original
/// text, so two different names or passphrases never give the same payload.
pub proof fn lemma_unescape_escape(s: Seq<char>)
    ensures
        unescape_spec(escape_spec(s)) == s,
    decreases s.len(),
{
    if s.len() > 0 {
        let rest = escape_spec(s.drop_first());
        lemma_unescape_escape(s.drop_first());
        let t = escape_spec(s);
        if is_reserved(s[0]) {
            assert(t == seq!['\\', s[0]] + rest);
            assert(t.subrange(2, t.len() as int) =~= rest);
        } else {
            assert(t == seq![s[0]] + rest);
            assert(t.drop_first() =~= rest);
        }
        assert(unescape_spec(t) =~= seq![s[0]] + s.drop_first());
        assert(s =~= seq![s[0]] + s.drop_first());
    }
}

/// Escaping changes only the reserved characters: text without any is left
/// as it is, and each reserved character gets exactly one backslash before it.
pub proof fn lemma_escape_changes_only_reserved(s: Seq<char>)
    ensures
        (forall|k: int| 0 <= k < s.len() ==> !is_reserved(#[trigger] s[k])) ==> escape_spec(s) == s,
        escape_spec(seq!['\\']) == seq!['\\', '\\'],
        escape_spec(seq![';']) == seq!['\\', ';'],
        escape_spec(seq![',']) == seq!['\\', ','],
        escape_spec(seq![':']) == seq!['\\', ':'],
        escape_spec(seq!['"']) == seq!['\\', '"'],
    decreases s.len(),
{
    if s.len() > 0 {
        lemma_escape_changes_only_reserved(s.drop_first());
        if forall|k: int| 0 <= k < s.len() ==> !is_reserved(#[trigger] s[k]) {
            assert(forall|k: int|
                0 <= k < s.drop_first().len() ==> #[trigger] s.drop_first()[k] == s[k + 1]);
            assert(!is_reserved(s[0]));
            assert(escape_spec(s) =~= seq![s[0]] + s.drop_first());
            assert(s =~= seq![s[0]] + s.drop_first());
        }
    }
    let bs = seq!['\\'];
    assert(bs.len() == 1);
    assert(bs[0] == '\\');
    assert(bs.drop_first() =~= Seq::<char>::empty());
    assert(is_reserved(bs[0]));
    assert(escape_spec(bs) == escape_char(bs[0]) + escape_spec(bs.drop_first()));
    assert(seq!['\\'].drop_first() =~= Seq::<char>::empty());
    assert(seq![';'].drop_first() =~= Seq::<char>::empty());
    assert(seq![','].drop_first() =~= Seq::<char>::empty());
    assert(seq![':'].drop_first() =~= Seq::<char>::empty());
    assert(seq!['"'].drop_first() =~= Seq::<char>::empty());
    assert(escape_spec(seq!['\\']) =~= seq!['\\', '\\']);
    assert(escape_spec(seq![';']) =~= seq!['\\', ';']);
    assert(escape_spec(seq![',']) =~= seq!['\\', ',']);
    assert(escape_spec(seq![':']) =~= seq!['\\', ':']);
    assert(escape_spec(seq!['"']) =~= seq!['\\', '"']);
}

/// Escapes the characters that the Wi-Fi payload format reserves
/// (`\`, `;`, `,`, `:`, `"`) with a backslash.
pub fn escape_wifi_str(s: &str) -> (r: String)
    ensures
        r@ == escape_spec(s@),
{
    let n = s.unicode_len();
    let mut out = String::new();
    let mut i: usize = 0;
    while i < n
        invariant
            n == s@.len(),
            i <= n,
            out@ == escape_spec(s@.subrange(0, i as int)),
        decreases n - i,
    {
        let c = s.get_char(i);
        proof {
            lemma_escape_concat(s@.subrange(0, i as int), seq![c]);
            assert(s@.subrange(0, i + 1) =~= s@.subrange(0, i as int) + seq![c]);
            assert(escape_spec(seq![c]) =~= escape_char(c) + escape_spec(seq![c].drop_first()));
            assert(seq![c].drop_first() =~= Seq::<char>::empty());
        }
        if c == '\\' || c == ';' || c == ',' || c == ':' || c == '"' {
            push_char(&mut out, '\\');
            push_char(&mut out, c);
            assert(out@ =~= escape_spec(s@.subrange(0, i as int)) + escape_char(c));
        } else {
            push_char(&mut out, c);
            assert(out@ =~= escape_spec(s@.subrange(0, i as int)) + escape_char(c));
        }
        i = i + 1;
    }
    assert(s@.subrange(0, n as int) =~= s@);
    out
}

/// The standard Wi-Fi payload: `WIFI:S:<ssid>;T:WPA;P:<password>;;`, or
/// `WIFI:S:<ssid>;T:nopass;;` for an open network, fields escaped.
pub open spec fn wifi_payload_spec(ssid: Seq<char>, password: Seq<char>) -> Seq<char> {
    if password.len() == 0 {
        "WIFI:S:"@ + escape_spec(ssid) + ";T:nopass;;"@
    } else {
        "WIFI:S:"@ + escape_spec(ssid) + ";T:WPA;P:"@ + escape_spec(password) + ";;"@
    }
}

/// What a phone reads from the payload: after `WIFI:S:` comes the escaped
/// network name, which unescapes to the name as given; then, for any
/// non-empty passphrase (whatever its length), `;T:WPA;P:`, the escaped
/// passphrase, which unescapes to the passphrase as given, and `;;`; only an
/// empty passphrase gives `;T:nopass;;`, an open network.
pub proof fn lemma_payload_carries_credentials(ssid: Seq<char>, password: Seq<char>)
    ensures
        ({
            let p = wifi_payload_spec(ssid, password);
            let e = escape_spec(ssid);
            let n: int = 7 + e.len() as int;
            &&& p.subrange(0, 7) == "WIFI:S:"@
            &&& p.subrange(7, n) == e
            &&& unescape_spec(e) == ssid
            &&& password.len() > 0 ==> {
                &&& p.len() == n + 9 + escape_spec(password).len() + 2
                &&& p.subrange(n, n + 9) == ";T:WPA;P:"@
                &&& p.subrange(n + 9, p.len() - 2) == escape_spec(password)
                &&& unescape_spec(p.subrange(n + 9, p.len() - 2)) == password
                &&& p.subrange(p.len() - 2, p.len() as int) == ";;"@
            }
            &&& password.len() == 0 ==> p.subrange(n, p.len() as int) == ";T:nopass;;"@
        }),
{
    reveal_strlit("WIFI:S:");
    reveal_strlit(";T:WPA;P:");
    reveal_strlit(";;");
    reveal_strlit(";T:nopass;;");
    let p = wifi_payload_spec(ssid, password);
    let e = escape_spec(ssid);
    let n: int = 7 + e.len() as int;
    lemma_unescape_escape(ssid);
    lemma_unescape_escape(password);
    assert(p.subrange(0, 7) =~= "WIFI:S:"@);
    assert(p.subrange(7, n) =~= e);
    if password.len() > 0 {
        let ep = escape_spec(password);
        assert(p.subrange(n, n + 9) =~= ";T:WPA;P:"@);
        assert(p.subrange(n + 9, p.len() - 2) =~= ep);
        assert(p.subrange(p.len() - 2, p.len() as int) =~= ";;"@);
    } else {
        assert(p.subrange(n, p.len() as int) =~= ";T:nopass;;"@);
    }
}

/// The Wi-Fi payload that the QR code carries.
pub fn wifi_qr_payload(ssid: &str, password: &str) -> (r: String)
    ensures
        r@ == wifi_payload_spec(ssid@, password@),
{
    let escaped_ssid = escape_wifi_str(ssid);
    let mut payload = String::from_str("WIFI:S:");
    payload.append(escaped_ssid.as_str());
    if password.unicode_len() == 0 {
        payload.append(";T:nopass;;");
    } else {
        let escaped_pwd = escape_wifi_str(password);
        payload.append(";T:WPA;P:");
        payload.append(escaped_pwd.as_str());
        payload.append(";;");
    }
    payload
}

/// What `QrCode::new` of the `qrcode` crate makes of the given bytes: the
/// number of modules per side and the modules in row-major order (`true` for
/// dark), or `None` when the data does not fit in a QR code.
pub uninterp spec fn qr_modules(data: Seq<u8>) -> Option<(nat, Seq<bool>)>;

/// Calls `qrcode::QrCode::new` (medium error correction, smallest version),
/// then `width` and `to_colors`. Its result is named `qr_modules`; beside the
/// name it states what the crate's source shows: the symbols it makes are of
/// versions 1 to 40, 21 to 177 modules wide (17 plus four per version), and
/// hold one color per module.
#[verifier::external_body]
fn encode_qr(data: &[u8]) -> (r: Option<(usize, Vec<bool>)>)
    ensures
        r is None <==> qr_modules(data@) is None,
        r matches Some(x) ==> qr_modules(data@) == Some((x.0 as nat, x.1@)) && 21 <= x.0 <= 177
            && x.1@.len() == x.0 * x.0,
{
    match qrcode::QrCode::new(data) {
        Ok(code) => {
            let colors = code.to_colors().into_iter().map(
                |c| match c {
                    qrcode::Color::Dark => true,
                    qrcode::Color::Light => false,
                },
            ).collect();
            Some((code.width(), colors))
        },
        Err(_) => None,
    }
}

/// An RGB image with 8 bits per channel, `dim` pixels on each side, rows top to bottom.
pub struct QrImage {
    pub data: Vec<u8>,
    pub dim: i32,
}

/// Width of the quiet zone around the symbol, in modules.
pub open spec fn quiet_zone() -> int {
    2
}

/// Pixels per module for a symbol `w` modules wide and the requested size:
/// the most that lets the symbol and its quiet zone fit, and at least one.
pub open spec fn qr_scale(w: int, target: int) -> int {
    let full = w + 2 * quiet_zone();
    if target / full >= 1 {
        target / full
    } else {
        1
    }
}

/// Side of the image in pixels.
pub open spec fn qr_dim(w: int, target: int) -> int {
    (w + 2 * quiet_zone()) * qr_scale(w, target)
}

/// Whether the module at (`row`, `col`) of the symbol is dark; outside the
/// symbol (the quiet zone) it is light.
pub open spec fn module_dark(w: int, m: Seq<bool>, row: int, col: int) -> bool {
    0 <= row < w && 0 <= col < w && m[row * w + col]
}

/// Whether the pixel at (`y`, `x`) is dark.
pub open spec fn pixel_dark(w: int, m: Seq<bool>, scale: int, y: int, x: int) -> bool {
    module_dark(w, m, y / scale - quiet_zone(), x / scale - quiet_zone())
}

/// Byte `k` of the raster: every channel of a dark pixel is 0, of a light one 255.
pub open spec fn raster_byte(w: int, m: Seq<bool>, target: int, k: int) -> u8 {
    let dim = qr_dim(w, target);
    let p = k / 3;
    if pixel_dark(w, m, qr_scale(w, target), p / dim, p % dim) {
        0
    } else {
        255
    }
}

/// Whether `img` is the raster of the symbol at the requested size.
pub open spec fn is_raster_of(img: QrImage, w: int, m: Seq<bool>, target: int) -> bool {
    let dim = qr_dim(w, target);
    &&& img.dim == dim
    &&& img.data@.len() == dim * dim * 3
    &&& forall|k: int| 0 <= k < img.data@.len() ==> #[trigger] img.data@[k] == raster_byte(w, m, target, k)
}

/// Whether the raster of a symbol `w` modules wide at the requested size fits
/// in memory.
pub open spec fn raster_fits(w: int, target: int) -> bool {
    qr_dim(w, target) * qr_dim(w, target) * 3 <= usize::MAX
}

proof fn lemma_scale_bounds(w: int, target: int)
    requires
        21 <= w <= 177,
    ensures
        qr_scale(w, target) >= 1,
        qr_dim(w, target) >= w + 4,
        qr_dim(w, target) <= if target > 181 { target } else { 181 },
{
    let full = w + 4;
    if target / full >= 1 {
        assert(target >= full) by (nonlinear_arith)
            requires
                full > 0,
                target / full >= 1,
        {
            vstd::arithmetic::div_mod::lemma_fundamental_div_mod(target, full);
        }
        assert(full * (target / full) <= target) by (nonlinear_arith)
            requires
                full > 0,
                target >= 0,
        {
            vstd::arithmetic::div_mod::lemma_fundamental_div_mod(target, full);
        }
        assert(full * (target / full) >= full) by (nonlinear_arith)
            requires
                full > 0,
                target / full >= 1,
        ;
    }
}

proof fn lemma_pixel_index(y: int, x: int, c: int, dim: int)
    requires
        0 <= y,
        0 <= x < dim,
        0 <= c < 3,
    ensures
        ((y * dim + x) * 3 + c) / 3 == y * dim + x,
        (y * dim + x) / dim == y,
        (y * dim + x) % dim == x,
{
    lemma_fundamental_div_mod_converse((y * dim + x) * 3 + c, 3, y * dim + x, c);
    lemma_fundamental_div_mod_converse(y * dim + x, dim, y, x);
}

/// The raster of a symbol `width` modules wide (`modules` in row-major order,
/// `true` for dark) with a quiet zone of two modules, each module a square of
/// the most pixels that lets the whole fit in `target_size` (at least one).
pub fn render_qr_rgb(width: usize, modules: &Vec<bool>, target_size: i32) -> (r: QrImage)
    requires
        21 <= width <= 177,
        modules@.len() == width * width,
        raster_fits(width as int, target_size as int),
    ensures
        is_raster_of(r, width as int, modules@, target_size as int),
{
    let ghost w = width as int;
    let ghost m = modules@;
    let ghost t = target_size as int;
    proof {
        lemma_scale_bounds(w, t);
    }
    let full: usize = width + 4;
    let scale: usize = if target_size > 0 {
        let q = (target_size as u32 as usize) / full;
        if q >= 1 {
            q
        } else {
            1
        }
    } else {
        proof {
            assert(t / (w + 4) < 1) by (nonlinear_arith)
                requires
                    t <= 0,
                    w + 4 > 0,
            {
                vstd::arithmetic::div_mod::lemma_fundamental_div_mod(t, w + 4);
            }
        }
        1
    };
    assert(scale == qr_scale(w, t));
    let dim: usize = full * scale;
    assert(dim == qr_dim(w, t));
    let mut data: Vec<u8> = Vec::new();
    let mut y: usize = 0;
    while y < dim
        invariant
            w == width,
            m == modules@,
            21 <= width <= 177,
            modules@.len() == width * width,
            raster_fits(w, t),
            full == width + 4,
            scale == qr_scale(w, t),
            scale >= 1,
            dim == qr_dim(w, t),
            y <= dim,
            data@.len() == y * dim * 3,
            forall|k: int| 0 <= k < data@.len() ==> #[trigger] data@[k] == raster_byte(w, m, t, k),
        decreases dim - y,
    {
        let mut x: usize = 0;
        while x < dim
            invariant
                w == width,
                m == modules@,
                21 <= width <= 177,
                modules@.len() == width * width,
                raster_fits(w, t),
                full == width + 4,
                scale == qr_scale(w, t),
                scale >= 1,
                dim == qr_dim(w, t),
                y < dim,
                x <= dim,
                data@.len() == (y * dim + x) * 3,
                forall|k: int| 0 <= k < data@.len() ==> #[trigger] data@[k] == raster_byte(w, m, t, k),
            decreases dim - x,
        {
            let my = y / scale;
            let mx = x / scale;
            let dark = if my >= 2 && my - 2 < width && mx >= 2 && mx - 2 < width {
                let row = my - 2;
                let col = mx - 2;
                assert(row * width + col < width * width && width * width <= 31329)
                    by (nonlinear_arith)
                    requires
                        row < width,
                        col < width,
                        width <= 177,
                ;
                modules[row * width + col]
            } else {
                false
            };
            assert(dark == pixel_dark(w, m, scale as int, y as int, x as int));
            let byte: u8 = if dark {
                0
            } else {
                255
            };
            assert((y * dim + x) * 3 + 3 <= dim * dim * 3) by (nonlinear_arith)
                requires
                    y < dim,
                    x < dim,
            ;
            let ghost base = (y * dim + x) * 3;
            proof {
                lemma_pixel_index(y as int, x as int, 0, dim as int);
                lemma_pixel_index(y as int, x as int, 1, dim as int);
                lemma_pixel_index(y as int, x as int, 2, dim as int);
                assert(raster_byte(w, m, t, base) == byte);
                assert(raster_byte(w, m, t, base + 1) == byte);
                assert(raster_byte(w, m, t, base + 2) == byte);
            }
            data.push(byte);
            data.push(byte);
            data.push(byte);
            x = x + 1;
        }
        assert((y * dim + dim) * 3 == (y + 1) * dim * 3) by (nonlinear_arith);
        y = y + 1;
    }
    assert(y * dim * 3 == dim * dim * 3);
    QrImage { data, dim: dim as i32 }
}

/// Whether a raster of the requested size fits in memory whatever the
/// symbol's width (a symbol with its quiet zone is at most 181 modules wide).
pub open spec fn target_fits(target: int) -> bool {
    let side = if target > 181 {
        target
    } else {
        181
    };
    side * side * 3 <= usize::MAX
}

/// The QR code image of the Wi-Fi network: `None` when the payload does not
/// fit in a QR code, otherwise the raster of the symbol that `QrCode::new`
/// makes of the payload's UTF-8 bytes, sized for `target_size`.
pub fn generate_qr_image(ssid: &str, password: &str, target_size: i32) -> (r: Option<QrImage>)
    requires
        target_fits(target_size as int),
    ensures
        match qr_modules(encode_utf8(wifi_payload_spec(ssid@, password@))) {
            None => r is None,
            Some(sym) => r matches Some(img) && is_raster_of(
                img,
                sym.0 as int,
                sym.1,
                target_size as int,
            ),
        },
{
    let payload = wifi_qr_payload(ssid, password);
    match encode_qr(payload.as_str().as_bytes()) {
        None => None,
        Some((width, modules)) => {
            proof {
                let t = target_size as int;
                lemma_scale_bounds(width as int, t);
                let d = qr_dim(width as int, t);
                let side = if t > 181 {
                    t
                } else {
                    181
                };
                assert(d * d * 3 <= side * side * 3) by (nonlinear_arith)
                    requires
                        0 <= d <= side,
                ;
            }
            Some(render_qr_rgb(width, &modules, target_size))
        },
    }
}

/// The side of the image never exceeds the requested size, unless a single
/// pixel per module is already too big, and it falls short of the requested
/// size by less than one symbol with its quiet zone.
pub proof fn lemma_qr_dim_fits_target(w: int, target: int)
    requires
        21 <= w <= 177,
    ensures
        target >= w + 4 ==> qr_dim(w, target) <= target && target - qr_dim(w, target) < w + 4,
        target < w + 4 ==> qr_dim(w, target) == w + 4,
{
    let full = w + 4;
    vstd::arithmetic::div_mod::lemma_fundamental_div_mod(target, full);
    if target >= full {
        assert(target / full >= 1) by (nonlinear_arith)
            requires
                full > 0,
                target >= full,
                target == full * (target / full) + target % full,
                0 <= target % full < full,
        ;
    } else {
        assert(target / full < 1) by (nonlinear_arith)
            requires
                full > 0,
                target < full,
                target == full * (target / full) + target % full,
                0 <= target % full < full,
        ;
    }
}

/// The quiet zone is light: every pixel within two modules of an edge of the
/// image is white.
pub proof fn lemma_quiet_zone_light(w: int, m: Seq<bool>, target: int, y: int, x: int)
    requires
        21 <= w <= 177,
        0 <= y < qr_dim(w, target),
        0 <= x < qr_dim(w, target),
        y < 2 * qr_scale(w, target) || x < 2 * qr_scale(w, target) || y >= (w + 2) * qr_scale(
            w,
            target,
        ) || x >= (w + 2) * qr_scale(w, target),
    ensures
        !pixel_dark(w, m, qr_scale(w, target), y, x),
{
    lemma_scale_bounds(w, target);
    let sc = qr_scale(w, target);
    vstd::arithmetic::div_mod::lemma_fundamental_div_mod(y, sc);
    vstd::arithmetic::div_mod::lemma_fundamental_div_mod(x, sc);
    if y < 2 * sc {
        assert(y / sc < 2) by (nonlinear_arith)
            requires
                sc > 0,
                y < 2 * sc,
                y == sc * (y / sc) + y % sc,
                0 <= y % sc,
        ;
    } else if x < 2 * sc {
        assert(x / sc < 2) by (nonlinear_arith)
            requires
                sc > 0,
                x < 2 * sc,
                x == sc * (x / sc) + x % sc,
                0 <= x % sc,
        ;
    } else if y >= (w + 2) * sc {
        assert(y / sc >= w + 2) by (nonlinear_arith)
            requires
                sc > 0,
                y >= (w + 2) * sc,
                y == sc * (y / sc) + y % sc,
                y % sc < sc,
        ;
    } else {
        assert(x / sc >= w + 2) by (nonlinear_arith)
            requires
                sc > 0,
                x >= (w + 2) * sc,
                x == sc * (x / sc) + x % sc,
                x % sc < sc,
        ;
    }
}

/// Each module of the symbol is drawn as a square of `scale` by `scale`
/// pixels, shifted by the two-module quiet zone, whose three channel bytes
/// are all 0 for a dark module and all 255 for a light one.
pub proof fn lemma_module_is_a_square(
    w: int,
    m: Seq<bool>,
    target: int,
    row: int,
    col: int,
    dy: int,
    dx: int,
    ch: int,
)
    requires
        21 <= w <= 177,
        m.len() == w * w,
        0 <= row < w,
        0 <= col < w,
        0 <= dy < qr_scale(w, target),
        0 <= dx < qr_scale(w, target),
        0 <= ch < 3,
    ensures
        ({
            let sc = qr_scale(w, target);
            let dim = qr_dim(w, target);
            let y = (row + 2) * sc + dy;
            let x = (col + 2) * sc + dx;
            &&& 0 <= y < dim
            &&& 0 <= x < dim
            &&& raster_byte(w, m, target, (y * dim + x) * 3 + ch) == if m[row * w + col] {
                0u8
            } else {
                255u8
            }
        }),
{
    lemma_scale_bounds(w, target);
    let sc = qr_scale(w, target);
    let dim = qr_dim(w, target);
    let y = (row + 2) * sc + dy;
    let x = (col + 2) * sc + dx;
    lemma_fundamental_div_mod_converse(y, sc, row + 2, dy);
    lemma_fundamental_div_mod_converse(x, sc, col + 2, dx);
    assert(y < dim && x < dim) by (nonlinear_arith)
        requires
            y == (row + 2) * sc + dy,
            x == (col + 2) * sc + dx,
            dim == (w + 4) * sc,
            row < w,
            col < w,
            dy < sc,
            dx < sc,
            sc >= 1,
    ;
    assert(0 <= y && 0 <= x) by (nonlinear_arith)
        requires
            y == (row + 2) * sc + dy,
            x == (col + 2) * sc + dx,
            row >= 0,
            col >= 0,
            dy >= 0,
            dx >= 0,
            sc >= 1,
    ;
    lemma_pixel_index(y, x, ch, dim);
}

/// The network line of the QR dialog.
pub fn qr_network_label(ssid: &str) -> (r: String)
    ensures
        r@ == "Réseau (SSID) : "@ + ssid@,
{
    let mut r = String::from_str("Réseau (SSID) : ");
    r.append(ssid);
    r
}

/// The security line of the QR dialog, and whether it shows a passphrase
/// (which the dialog highlights): an open network for an empty passphrase,
/// the passphrase otherwise.
pub fn qr_security_label(password: &str) -> (r: (String, bool))
    ensures
        r.1 == (password@.len() > 0),
        r.1 ==> r.0@ == "Mot de passe : "@ + password@,
        !r.1 ==> r.0@ == "Sécurité : Réseau ouvert (sans mot de passe)"@,
{
    if password.unicode_len() == 0 {
        (String::from_str("Sécurité : Réseau ouvert (sans mot de passe)"), false)
    } else {
        let mut r = String::from_str("Mot de passe : ");
        r.append(password);
        (r, true)
    }
}

} // verus!
