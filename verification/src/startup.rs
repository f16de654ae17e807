//! What the program prints and decides when it starts: the machine's addresses, the web addresses
//! with their QR code, the lists of devices and screens, and the demo picture's band.

use crate::audio::AudioDevice;
use crate::pc;
use crate::strings;
use crate::ui::MonitorInfo;
use vstd::prelude::*;

verus! {

/// An address that a phone on the local network can use: neither the machine's own nor one that
/// it gave itself.
pub open spec fn is_reachable(ip: Seq<u8>) -> bool {
    ip[0] != 127 && !(ip[0] == 169 && ip[1] == 254)
}

/// The reachable addresses of a list, where `None` stands for one of another kind.
pub open spec fn reachable(list: Seq<Option<[u8; 4]>>) -> Seq<Seq<char>>
    decreases list.len(),
{
    if list.len() == 0 {
        seq![]
    } else {
        let before = reachable(list.drop_last());
        match list.last() {
            Some(ip) if is_reachable(ip@) => before.push(pc::dotted(ip@)),
            _ => before,
        }
    }
}

/// The addresses to show: the main one first, unless it is among the others.
pub open spec fn shown_addresses(
    list: Seq<Option<[u8; 4]>>,
    main: Option<Seq<char>>,
) -> Seq<Seq<char>> {
    let all = reachable(list);
    match main {
        Some(m) if !all.contains(m) => seq![m] + all,
        _ => all,
    }
}

/// The addresses to show, out of those of the interfaces and the main one.
pub fn local_ips(list: &Vec<Option<[u8; 4]>>, main: Option<String>) -> (r: Vec<String>)
    ensures
        strings::texts(r@) == shown_addresses(
            list@,
            match main {
                Some(m) => Some(m@),
                None => None,
            },
        ),
{
    let mut ips: Vec<String> = Vec::new();
    let mut i: usize = 0;
    assert(list@.take(0) == Seq::<Option<[u8; 4]>>::empty());
    assert(strings::texts(ips@) == reachable(list@.take(0)));
    while i < list.len()
        invariant
            i <= list@.len(),
            strings::texts(ips@) == reachable(list@.take(i as int)),
        decreases list.len() - i,
    {
        proof {
            assert(list@.take(i + 1).drop_last() == list@.take(i as int));
            assert(list@.take(i + 1).last() == list@[i as int]);
        }
        if let Some(ip) = &list[i] {
            if ip[0] != 127 && !(ip[0] == 169 && ip[1] == 254) {
                let ghost before = strings::texts(ips@);
                ips.push(pc::dotted_of(ip));
                assert(strings::texts(ips@) =~= before.push(pc::dotted(ip@)));
            }
        }
        i += 1;
    }
    assert(list@.take(list@.len() as int) == list@);
    let ghost all = strings::texts(ips@);
    match main {
        Some(m) => if pc::holds(&ips, m.as_str()) {
            ips
        } else {
            let ghost t = m@;
            let mut out: Vec<String> = Vec::new();
            out.push(m);
            out.append(&mut ips);
            assert(strings::texts(out@) =~= seq![t] + all);
            out
        },
        None => ips,
    }
}

/// What follows the last colon, or everything where there is none.
pub open spec fn after_colon(s: Seq<char>) -> Seq<char>
    decreases s.len(),
{
    let i = strings::find(s, ':');
    if 0 <= i < s.len() {
        after_colon(s.skip(i + 1))
    } else {
        s
    }
}

/// The port of an address to listen on.
pub fn port_of(bind: &str) -> (r: String)
    ensures
        r@ == after_colon(bind@),
{
    let s = strings::chars_of(bind);
    let mut from: usize = 0;
    assert(s@.skip(0) == s@);
    loop
        invariant
            from <= s@.len(),
            after_colon(s@.skip(from as int)) == after_colon(s@),
        ensures
            from <= s@.len(),
            s@.skip(from as int) == after_colon(s@),
        decreases s.len() - from,
    {
        let i: usize = strings::find_from(s.as_slice(), ':', from);
        if i == s.len() {
            break;
        }
        assert(s@.skip(from as int).skip(i + 1 - from) == s@.skip(i + 1));
        from = i + 1;
    }
    let p = strings::part(s.as_slice(), from, s.len());
    assert(p@ == s@.skip(from as int));
    strings::string_of(p.as_slice())
}

/// Web address of a machine.
pub open spec fn web_address(host: Seq<char>, port: Seq<char>) -> Seq<char> {
    "https://"@ + host + ":"@ + port + "/"@
}

/// The machine that is shown first.
pub open spec fn first_host(ips: Seq<Seq<char>>) -> Seq<char> {
    if ips.len() > 0 {
        ips[0]
    } else {
        "localhost"@
    }
}

/// Web address that the phone opens.
pub fn phone_url(bind: &str, ips: &Vec<String>) -> (r: String)
    ensures
        r@ == web_address(first_host(strings::texts(ips@)), after_colon(bind@)),
{
    let host = if ips.len() > 0 {
        assert(strings::texts(ips@)[0] == ips@[0]@);
        ips[0].clone()
    } else {
        strings::text("localhost")
    };
    let port = port_of(bind);
    url(host.as_str(), port.as_str())
}

fn url(host: &str, port: &str) -> (r: String)
    ensures
        r@ == web_address(host@, port@),
{
    let mut out = strings::text("https://");
    out.append(host);
    out.append(":");
    out.append(port);
    out.append("/");
    out
}

/// QR code of a text, as the crate `qrcode` draws it with half blocks inside a quiet zone, one
/// line of text for two of the code; none where the text is too long for one.
pub uninterp spec fn qr_code(text: Seq<char>) -> Option<Seq<char>>;

/// `qrcode::QrCode::new` and its rendering as `Dense1x2` with a quiet zone: the drawing, or that
/// there is none, depends on the text alone; it holds no carriage return. How a QR code is laid
/// out is not spelled out.
#[verifier::external_body]
fn draw_qr(text: &str) -> (r: Option<String>)
    ensures
        (match r {
            Some(s) => qr_code(text@) == Some(s@),
            None => qr_code(text@) is None,
        }),
        r matches Some(s) ==> !s@.contains('\r'),
{
    match qrcode::QrCode::new(text.as_bytes()) {
        Ok(c) => Some(c.render::<qrcode::render::unicode::Dense1x2>().quiet_zone(true).build()),
        Err(_) => None,
    }
}

/// The lines of a text: what its line feeds end, and what follows the last of them.
pub open spec fn lines(s: Seq<char>) -> Seq<Seq<char>> {
    let all = strings::split(s, '\n');
    if all.last().len() == 0 {
        all.drop_last()
    } else {
        all
    }
}

/// Every line moved to the right by two.
pub open spec fn indented(all: Seq<Seq<char>>) -> Seq<Seq<char>> {
    all.map_values(|l: Seq<char>| "  "@ + l)
}

/// The lines of the further machines.
pub open spec fn further(ips: Seq<Seq<char>>, port: Seq<char>) -> Seq<Seq<char>> {
    ips.skip(1).map_values(|ip: Seq<char>| "               "@ + web_address(ip, port))
}

/// What the program prints when it has started, line by line.
pub open spec fn banner(
    port: Seq<char>,
    ips: Seq<Seq<char>>,
    qr: Option<Seq<char>>,
) -> Seq<Seq<char>> {
    let host = first_host(ips);
    let text = seq![Seq::<char>::empty(), "  Téléphone  : "@ + web_address(host, port)] + (
    if ips.len() > 0 {
        further(ips, port)
    } else {
        seq![]
    }) + seq![
        "  Contrôle   : "@ + web_address(host, port) + "control"@,
        "  (certificat auto-signé : accepter l'avertissement du navigateur)"@,
    ];
    let code = match qr {
        Some(s) => seq![Seq::<char>::empty()] + indented(lines(s)),
        None => seq![],
    };
    text + code + seq![Seq::<char>::empty()]
}

fn joined(a: &str, b: &str, c: &str) -> (r: String)
    ensures
        r@ == a@ + b@ + c@,
{
    let mut out = strings::text(a);
    out.append(b);
    out.append(c);
    out
}

/// Lines printed so far and one more.
fn add_line(out: &mut Vec<String>, s: String)
    ensures
        strings::texts(final(out)@) == strings::texts(old(out)@).push(s@),
{
    out.push(s);
    assert(strings::texts(out@) =~= strings::texts(old(out)@).push(s@));
}

/// What the program prints when it has started, with the drawing of the QR code of the phone's
/// address where there is one.
pub fn banner_lines(bind: &str, ips: &Vec<String>, qr: &Option<String>) -> (r: Vec<String>)
    requires
        qr matches Some(s) ==> !s@.contains('\r'),
    ensures
        strings::texts(r@) == banner(
            after_colon(bind@),
            strings::texts(ips@),
            match qr {
                Some(s) => Some(s@),
                None => None,
            },
        ),
{
    let ghost all = strings::texts(ips@);
    let port = port_of(bind);
    let first = phone_url(bind, ips);
    let mut out: Vec<String> = Vec::new();
    assert(strings::texts(out@) =~= Seq::<Seq<char>>::empty());
    add_line(&mut out, String::new());
    add_line(&mut out, joined("  Téléphone  : ", first.as_str(), ""));
    let ghost head = seq![
        Seq::<char>::empty(),
        "  Téléphone  : "@ + web_address(first_host(all), port@),
    ];
    proof {
        reveal_strlit("");
        assert(("  Téléphone  : "@ + first@ + ""@) =~= "  Téléphone  : "@ + first@);
        assert(strings::texts(out@) =~= head);
    }
    if ips.len() > 0 {
        let mut i: usize = 1;
        assert(further(all, port@).take(0) =~= Seq::<Seq<char>>::empty());
        assert(strings::texts(out@) =~= head + further(all, port@).take(0));
        while i < ips.len()
            invariant
                1 <= i <= ips@.len(),
                all == strings::texts(ips@),
                strings::texts(out@) == head + further(all, port@).take(i - 1),
            decreases ips.len() - i,
        {
            let u = url(ips[i].as_str(), port.as_str());
            let ghost before = strings::texts(out@);
            proof {
                let f = further(all, port@);
                assert(all.skip(1)[i - 1] == ips@[i as int]@);
                assert(f[i - 1] == "               "@ + u@);
                assert(f.take(i as int) =~= f.take(i - 1).push(f[i - 1]));
                reveal_strlit("");
                assert(("               "@ + u@ + ""@) =~= "               "@ + u@);
            }
            add_line(&mut out, joined("               ", u.as_str(), ""));
            assert(strings::texts(out@) =~= head + further(all, port@).take(i as int));
            i += 1;
        }
        assert(further(all, port@).take(ips@.len() - 1) =~= further(all, port@));
    }
    let ghost upper = head + (if all.len() > 0 {
        further(all, port@)
    } else {
        seq![]
    });
    assert(strings::texts(out@) =~= upper);
    add_line(&mut out, joined("  Contrôle   : ", first.as_str(), "control"));
    add_line(
        &mut out,
        strings::text("  (certificat auto-signé : accepter l'avertissement du navigateur)"),
    );
    let ghost text = upper + seq![
        "  Contrôle   : "@ + web_address(first_host(all), port@) + "control"@,
        "  (certificat auto-signé : accepter l'avertissement du navigateur)"@,
    ];
    assert(strings::texts(out@) =~= text);
    match qr {
        Some(s) => {
            add_line(&mut out, String::new());
            let c = strings::chars_of(s.as_str());
            let parts = strings::split_of(c.as_slice(), '\n');
            let ghost whole = strings::split(s@, '\n');
            proof {
                assert(strings::pieces(parts@) == whole);
                lemma_split_len(s@, '\n');
                assert(whole.last() == parts@.last()@);
            }
            let n: usize = if parts[parts.len() - 1].len() == 0 {
                parts.len() - 1
            } else {
                parts.len()
            };
            let ghost wanted = lines(s@);
            assert(wanted =~= whole.take(n as int));
            let mut i: usize = 0;
            assert(indented(wanted).take(0) =~= Seq::<Seq<char>>::empty());
            assert(strings::texts(out@) =~= text + seq![Seq::<char>::empty()] + indented(
                wanted,
            ).take(0));
            while i < n
                invariant
                    i <= n <= parts@.len(),
                    whole == strings::pieces(parts@),
                    wanted == whole.take(n as int),
                    strings::texts(out@) == text + seq![Seq::<char>::empty()] + indented(
                        wanted,
                    ).take(i as int),
                decreases n - i,
            {
                let l = strings::string_of(parts[i].as_slice());
                proof {
                    let f = indented(wanted);
                    assert(wanted[i as int] == parts@[i as int]@);
                    assert(f[i as int] == "  "@ + l@);
                    assert(f.take(i + 1) =~= f.take(i as int).push(f[i as int]));
                    reveal_strlit("");
                    assert(("  "@ + l@ + ""@) =~= "  "@ + l@);
                }
                add_line(&mut out, joined("  ", l.as_str(), ""));
                assert(strings::texts(out@) =~= text + seq![Seq::<char>::empty()] + indented(
                    wanted,
                ).take(i + 1));
                i += 1;
            }
            assert(indented(wanted).take(n as int) =~= indented(wanted));
            assert(strings::texts(out@) =~= text + (seq![Seq::<char>::empty()] + indented(wanted)));
        },
        None => {
            assert(strings::texts(out@) =~= text + Seq::<Seq<char>>::empty());
        },
    }
    add_line(&mut out, String::new());
    out
}

proof fn lemma_split_len(s: Seq<char>, c: char)
    ensures
        strings::split(s, c).len() > 0,
{
}

/// What the program prints when it has started, with the QR code of the phone's address; without
/// it where the code cannot be drawn.
pub fn startup_banner(bind: &str, ips: &Vec<String>) -> (r: Vec<String>)
    ensures
        strings::texts(r@) == banner(
            after_colon(bind@),
            strings::texts(ips@),
            qr_code(web_address(first_host(strings::texts(ips@)), after_colon(bind@))),
        ),
{
    let first = phone_url(bind, ips);
    let qr = draw_qr(first.as_str());
    banner_lines(bind, ips, &qr)
}

/// Line of a sound device.
pub open spec fn device_text(d: AudioDevice) -> Seq<char> {
    "  ["@ + d.class@ + "] "@ + d.name@ + (match d.max_channels {
        Some(c) => " ("@ + strings::signed_decimal(c as int) + " canaux max)"@,
        None => seq![],
    })
}

/// Line of a sound device.
pub fn device_line(d: &AudioDevice) -> (r: String)
    ensures
        r@ == device_text(*d),
{
    let mut out = strings::text("  [");
    out.append(d.class.as_str());
    out.append("] ");
    out.append(d.name.as_str());
    match d.max_channels {
        Some(c) => {
            out.append(" (");
            strings::push_signed(&mut out, c as i64);
            out.append(" canaux max)");
            assert(out@ =~= device_text(*d));
        },
        None => {
            assert(out@ =~= device_text(*d));
        },
    }
    out
}

/// Line of a screen.
pub open spec fn monitor_text(i: nat, m: MonitorInfo) -> Seq<char> {
    "  ["@ + strings::decimal(i) + "] "@ + m.name@ + " — "@ + strings::decimal(m.width as nat)
        + "x"@ + strings::decimal(m.height as nat) + " @ ("@ + strings::signed_decimal(m.x as int)
        + ", "@ + strings::signed_decimal(m.y as int) + ")"@
}

/// Line of a screen.
pub fn monitor_line(i: usize, m: &MonitorInfo) -> (r: String)
    ensures
        r@ == monitor_text(i as nat, *m),
{
    let mut out = strings::text("  [");
    strings::push_decimal(&mut out, i as u64);
    out.append("] ");
    out.append(m.name.as_str());
    out.append(" — ");
    strings::push_decimal(&mut out, m.width as u64);
    out.append("x");
    strings::push_decimal(&mut out, m.height as u64);
    out.append(" @ (");
    strings::push_signed(&mut out, m.x as i64);
    out.append(", ");
    strings::push_signed(&mut out, m.y as i64);
    out.append(")");
    out
}

/// Text of a new configuration file: a line of comment, a blank one, the options.
pub fn config_file_text(options: &str) -> (r: String)
    ensures
        r@
            == "# Configuration Streame — voir README.md pour le détail des options.\n"@
            + "\n"@ + options@,
{
    joined(
        "# Configuration Streame — voir README.md pour le détail des options.\n",
        "\n",
        options,
    )
}

/// Band of the demo picture: a bar at the bottom and a thin line above it.
#[derive(Debug, Clone, Copy, PartialEq, Eq, Structural)]
pub struct Band {
    pub left: u32,
    pub right: u32,
    pub line_top: u32,
    pub top: u32,
    pub bottom: u32,
}

/// Place of the band in a picture.
pub fn lower_third(w: u32, h: u32) -> (r: Band)
    requires
        w * 9 <= u32::MAX,
        h * 92 <= u32::MAX,
        h * 82 / 100 >= 8,
    ensures
        r.left == w / 16,
        r.right == w * 9 / 16,
        r.top == h * 82 / 100,
        r.bottom == h * 92 / 100,
        r.line_top == r.top - 8,
        r.left <= r.right <= w,
        r.line_top < r.top <= r.bottom <= h,
{
    let top: u32 = h * 82 / 100;
    Band { left: w / 16, right: w * 9 / 16, line_top: top - 8, top, bottom: h * 92 / 100 }
}

/// Every address shown, the first excepted, is one that a phone can reach.
pub proof fn shown_addresses_are_reachable(list: Seq<Option<[u8; 4]>>, i: int)
    requires
        0 <= i < reachable(list).len(),
    ensures
        exists|j: int|
            0 <= j < list.len() && (#[trigger] list[j] matches Some(ip) && is_reachable(ip@)
                && reachable(list)[i] == pc::dotted(ip@)),
    decreases list.len(),
{
    let before = list.drop_last();
    if i < reachable(before).len() {
        shown_addresses_are_reachable(before, i);
        let j = choose|j: int|
            0 <= j < before.len() && (#[trigger] before[j] matches Some(ip) && is_reachable(ip@)
                && reachable(before)[i] == pc::dotted(ip@));
        assert(list[j] == before[j]);
    } else {
        assert(list[list.len() - 1] == list.last());
    }
}

/// An address can be reached by a phone unless it begins with 127 or with 169.254.
pub proof fn addresses_a_phone_can_reach(ip: Seq<u8>)
    ensures
        ip[0] == 127 ==> !is_reachable(ip),
        ip[0] == 169 && ip[1] == 254 ==> !is_reachable(ip),
        ip[0] != 127 && (ip[0] != 169 || ip[1] != 254) ==> is_reachable(ip),
{
}

/// Every address that a phone can reach is shown, in order, and no other one: a further address
/// adds itself where it is such a one, and nothing where it is not. The main address is shown
/// before them unless it is among them.
pub proof fn reachable_addresses_are_shown(
    list: Seq<Option<[u8; 4]>>,
    ip: [u8; 4],
    main: Seq<char>,
)
    ensures
        is_reachable(ip@) ==> reachable(list.push(Some(ip))) == reachable(list).push(
            pc::dotted(ip@),
        ),
        !is_reachable(ip@) ==> reachable(list.push(Some(ip))) == reachable(list),
        reachable(list.push(None)) == reachable(list),
        reachable(Seq::empty()).len() == 0,
        shown_addresses(list, None) == reachable(list),
        reachable(list).contains(main) ==> shown_addresses(list, Some(main)) == reachable(list),
        !reachable(list).contains(main) ==> shown_addresses(list, Some(main)) == seq![main]
            + reachable(list),
{
    assert(list.push(Some(ip)).drop_last() =~= list);
    assert(list.push(None).drop_last() =~= list);
}

/// The port is what follows the last colon of the address, or the whole of it where there is none.
pub proof fn port_follows_the_last_colon(host: Seq<char>, port: Seq<char>)
    requires
        !port.contains(':'),
    ensures
        after_colon(host + seq![':'] + port) == port,
        after_colon(port) == port,
    decreases host.len(),
{
    let s = host + seq![':'] + port;
    strings::lemma_find(s, ':');
    let i = strings::find(s, ':');
    assert(s[host.len() as int] == ':');
    assert(i <= host.len());
    if i < host.len() {
        let rest = host.skip(i + 1);
        assert(s.skip(i + 1) =~= rest + seq![':'] + port);
        port_follows_the_last_colon(rest, port);
    } else {
        assert(s.skip(i + 1) =~= port);
        lemma_no_colon(port);
    }
    lemma_no_colon(port);
}

proof fn lemma_no_colon(port: Seq<char>)
    requires
        !port.contains(':'),
    ensures
        after_colon(port) == port,
{
    assert forall|j: int| 0 <= j < port.len() implies port[j] != ':' by {
        assert(port.contains(port[j]));
    }
    strings::lemma_find_is(port, ':', port.len() as int);
}

/// A phone opens the secure page of the first address, or of this machine where there is none.
pub proof fn phones_open_a_secure_page(host: Seq<char>, port: Seq<char>, ips: Seq<Seq<char>>)
    ensures
        web_address(host, port) == "https://"@ + host + ":"@ + port + "/"@,
        ips.len() > 0 ==> first_host(ips) == ips[0],
        ips.len() == 0 ==> first_host(ips) == "localhost"@,
{
}

/// The banner shows the phone's page, those of the further addresses in order, the control page and
/// a word on the certificate, between blank lines; then, where there is one, the code of the
/// phone's page, line by line and moved to the right.
pub proof fn banner_shows_the_pages(
    port: Seq<char>,
    ips: Seq<Seq<char>>,
    qr: Option<Seq<char>>,
    i: int,
)
    ensures
        ({
            let b = banner(port, ips, qr);
            let more: int = if ips.len() > 0 {
                ips.len() - 1
            } else {
                0
            };
            let first = "https://"@ + first_host(ips) + ":"@ + port + "/"@;
            let codes: int = if qr is Some {
                1 + lines(qr->0).len() as int
            } else {
                0
            };
            &&& b.len() == 5 + more + codes
            &&& b[0].len() == 0
            &&& b[1] == "  Téléphone  : "@ + first
            &&& 0 <= i < more ==> b[2 + i] == "               "@ + ("https://"@ + ips[i + 1] + ":"@
                + port + "/"@)
            &&& b[2 + more] == "  Contrôle   : "@ + first + "control"@
            &&& b[3 + more]
                == "  (certificat auto-signé : accepter l'avertissement du navigateur)"@
            &&& b.last().len() == 0
            &&& qr is Some ==> b[4 + more].len() == 0
            &&& qr is Some && 0 <= i < lines(qr->0).len() ==> b[5 + more + i] == "  "@ + lines(
                qr->0,
            )[i]
        }),
{
}

/// The lines of a text are what its line feeds end, and what follows the last of them where that is
/// something.
pub proof fn texts_have_lines(line: Seq<char>, rest: Seq<char>)
    requires
        !line.contains('\n'),
    ensures
        lines(line + seq!['\n'] + rest) == seq![line] + lines(rest),
        line.len() > 0 ==> lines(line) == seq![line],
        lines(Seq::empty()).len() == 0,
{
    let s = line + seq!['\n'] + rest;
    let n = line.len() as int;
    assert(s[n] == '\n');
    assert forall|j: int| 0 <= j < n implies s[j] != '\n' by {
        assert(line.contains(line[j]));
    }
    strings::lemma_find_is(s, '\n', n);
    assert(s.take(n) =~= line);
    assert(s.skip(n + 1) =~= rest);
    let tail = strings::split(rest, '\n');
    strings::splitting_loses_nothing(rest, '\n');
    let all = seq![line] + tail;
    assert(strings::split(s, '\n') == all);
    assert(all.last() == tail.last());
    if tail.last().len() == 0 {
        assert(all.drop_last() =~= seq![line] + tail.drop_last());
    }
    assert forall|j: int| 0 <= j < n implies line[j] != '\n' by {
        assert(line.contains(line[j]));
    }
    strings::lemma_find_is(line, '\n', n);
    assert(strings::split(line, '\n') == seq![line]);
    assert(seq![line].last() == line);
    let empty = Seq::<char>::empty();
    strings::lemma_find_is(empty, '\n', 0);
    assert(strings::split(empty, '\n') == seq![empty]);
    assert(seq![empty].last() == empty);
}

/// A sound device is listed with its direction, its name and the most channels it has, where that
/// is known; a screen with its number, its name, its size and its place.
pub proof fn devices_and_screens_are_listed(d: AudioDevice, i: nat, m: MonitorInfo)
    ensures
        d.max_channels is Some ==> device_text(d) == "  ["@ + d.class@ + "] "@ + d.name@ + (" ("@
            + strings::signed_decimal(d.max_channels->0 as int) + " canaux max)"@),
        d.max_channels is None ==> device_text(d) == "  ["@ + d.class@ + "] "@ + d.name@,
        monitor_text(i, m) == "  ["@ + strings::decimal(i) + "] "@ + m.name@ + " — "@
            + strings::decimal(m.width as nat) + "x"@ + strings::decimal(m.height as nat) + " @ ("@
            + strings::signed_decimal(m.x as int) + ", "@ + strings::signed_decimal(m.y as int)
            + ")"@,
{
    if d.max_channels is None {
        assert(device_text(d) =~= "  ["@ + d.class@ + "] "@ + d.name@);
    }
}

/// The band of a name lies in the lower part of the picture, from a sixteenth to nine of its width
/// and from 82 to 92 percent of its height, under a line of eight rows.
pub proof fn names_stand_in_the_lower_third(w: u32, h: u32, r: Band)
    requires
        w * 9 <= u32::MAX,
        h * 92 <= u32::MAX,
        h * 82 / 100 >= 8,
        call_ensures(lower_third, (w, h), r),
    ensures
        r.left == w / 16 && r.right == w * 9 / 16,
        r.top == h * 82 / 100 && r.bottom == h * 92 / 100,
        r.line_top + 8 == r.top,
{
}

/// A configuration file begins with a word on where its options are described.
pub proof fn files_say_where_to_read(options: &str, r: String)
    requires
        call_ensures(config_file_text, (options,), r),
    ensures
        r@ == "# Configuration Streame — voir README.md pour le détail des options.\n"@ + "\n"@
            + options@,
{
}

} // verus!
