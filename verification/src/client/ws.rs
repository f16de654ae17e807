//! Reaching the switcher from the phone: certificate pinned on first use, addresses, and the
//! reading of `GET /api/config`.

use crate::strings;
use vstd::prelude::*;

verus! {

/// Longest wait for the switcher to answer (TCP, TLS and WebSocket), in seconds.
pub const CONNECT_TIMEOUT: u64 = 6;

/// SHA-256 digest of the switcher's certificate (DER).
pub type Fingerprint = [u8; 32];

/// SHA-256 digest of a sequence of bytes.
pub uninterp spec fn sha256(data: Seq<u8>) -> Seq<u8>;

/// `ring::digest::digest` with the algorithm `SHA256`: the 32 bytes of the SHA-256 digest, under
/// the name `sha256`.
#[verifier::external_body]
fn digest_sha256(data: &[u8]) -> (r: [u8; 32])
    ensures
        r@ == sha256(data@),
{
    let digest = ring::digest::digest(&ring::digest::SHA256, data);
    let mut out = [0u8; 32];
    out.copy_from_slice(digest.as_ref());
    out
}

/// The certificate is not the one that was remembered.
#[derive(Debug, Clone, Copy, PartialEq, Eq, Structural)]
pub struct CertificateChanged;

/// Expected digest (remembered by the application, or from the first handshake) and the one seen
/// at the last handshake.
pub struct CertPolicy {
    pub expected: Option<Fingerprint>,
    pub observed: Option<Fingerprint>,
}

/// Whether two digests, where both are known, differ.
pub open spec fn differ(expected: Option<Fingerprint>, observed: Option<Fingerprint>) -> bool {
    match (expected, observed) {
        (Some(e), Some(o)) => e@ != o@,
        _ => false,
    }
}

/// The digest behind an optional fingerprint.
pub open spec fn digest_of(fp: Option<Fingerprint>) -> Option<Seq<u8>> {
    match fp {
        Some(f) => Some(f@),
        None => None,
    }
}

/// What is expected once a certificate was presented: the first one, where nothing was before.
pub open spec fn pinned(expected: Option<Seq<u8>>, seen: Seq<u8>) -> Option<Seq<u8>> {
    match expected {
        Some(e) => Some(e),
        None => Some(seen),
    }
}

fn same_bytes(a: &Fingerprint, b: &Fingerprint) -> (r: bool)
    ensures
        r == (a@ == b@),
{
    let mut i: usize = 0;
    while i < 32
        invariant
            i <= 32,
            forall|j: int| 0 <= j < i ==> a@[j] == b@[j],
        decreases 32 - i,
    {
        if a[i] != b[i] {
            return false;
        }
        i += 1;
    }
    assert(a@ == b@);
    true
}

impl CertPolicy {
    /// A policy that expects this digest, or accepts whichever comes first.
    pub fn new(expected: Option<Fingerprint>) -> (r: Self)
        ensures
            r.expected == expected,
            r.observed is None,
    {
        CertPolicy { expected, observed: None }
    }

    /// Digest of the certificate that the switcher presented, even a refused one.
    pub fn observed(&self) -> (r: Option<Fingerprint>)
        ensures
            r == self.observed,
    {
        self.observed
    }

    /// The switcher presented another certificate than the remembered one.
    pub fn mismatch(&self) -> (r: bool)
        ensures
            r == differ(self.expected, self.observed),
    {
        match (&self.expected, &self.observed) {
            (Some(e), Some(o)) => !same_bytes(e, o),
            _ => false,
        }
    }

    /// Checks a presented certificate: the first one is accepted and remembered, and from then on
    /// only the same.
    pub fn verify_server_cert(&mut self, der: &[u8]) -> (r: Result<(), CertificateChanged>)
        ensures
            digest_of(final(self).observed) == Some(sha256(der@)),
            digest_of(final(self).expected) == pinned(digest_of(old(self).expected), sha256(der@)),
            r is Err <==> digest_of(final(self).expected) != Some(sha256(der@)),
            r is Err <==> differ(final(self).expected, final(self).observed),
    {
        let fp = digest_sha256(der);
        self.check(fp)
    }

    /// Checks the digest of a presented certificate.
    pub fn check(&mut self, fp: Fingerprint) -> (r: Result<(), CertificateChanged>)
        ensures
            final(self).observed == Some(fp),
            digest_of(final(self).expected) == pinned(digest_of(old(self).expected), fp@),
            r is Err <==> old(self).expected is Some && old(self).expected->0@ != fp@,
    {
        self.observed = Some(fp);
        match &self.expected {
            Some(e) => if same_bytes(e, &fp) {
                Ok(())
            } else {
                Err(CertificateChanged)
            },
            None => {
                self.expected = Some(fp);
                Ok(())
            },
        }
    }
}

/// Value of a hexadecimal digit, in either case.
pub open spec fn hex_value(c: char) -> Option<int> {
    if '0' <= c <= '9' {
        Some(c as int - '0' as int)
    } else if 'a' <= c <= 'f' {
        Some(c as int - 'a' as int + 10)
    } else if 'A' <= c <= 'F' {
        Some(c as int - 'A' as int + 10)
    } else {
        None
    }
}

/// The values of the hexadecimal digits of a text, the other characters left out.
pub open spec fn hex_digits(s: Seq<char>) -> Seq<int> {
    s.filter_map(|c: char| hex_value(c))
}

/// The digest that a text writes: its hexadecimal digits, exactly 64 of them, by pairs.
pub open spec fn fingerprint_in(s: Seq<char>) -> Option<Seq<u8>> {
    let d = hex_digits(s);
    if d.len() == 64 {
        Some(Seq::new(32, |i: int| (d[2 * i] * 16 + d[2 * i + 1]) as u8))
    } else {
        None
    }
}

/// Lower-case hexadecimal digit.
pub open spec fn hex_char(v: int) -> char {
    if v < 10 {
        ('0' as int + v) as char
    } else {
        ('a' as int + v - 10) as char
    }
}

/// Lower-case hexadecimal writing of bytes, two digits each.
pub open spec fn hex(bytes: Seq<u8>) -> Seq<char> {
    Seq::new(
        2 * bytes.len(),
        |i: int|
            if i % 2 == 0 {
                hex_char(bytes[i / 2] as int / 16)
            } else {
                hex_char(bytes[i / 2] as int % 16)
            },
    )
}

fn digit_value(c: char) -> (r: Option<u8>)
    ensures
        (match r {
            Some(v) => v < 16 && hex_value(c) == Some(v as int),
            None => hex_value(c) is None,
        }),
{
    if '0' <= c && c <= '9' {
        Some((c as u8) - 48)
    } else if 'a' <= c && c <= 'f' {
        Some((c as u8) - 97 + 10)
    } else if 'A' <= c && c <= 'F' {
        Some((c as u8) - 65 + 10)
    } else {
        None
    }
}

/// Reads `aa:bb:…` or `aabb…`, in either case of the letters.
pub fn parse_fingerprint(text: &str) -> (r: Option<Fingerprint>)
    ensures
        (match r {
            Some(fp) => fingerprint_in(text@) == Some(fp@),
            None => fingerprint_in(text@) is None,
        }),
{
    let s = strings::chars_of(text);
    let mut d: Vec<u8> = Vec::new();
    let mut i: usize = 0;
    let ghost f = |c: char| hex_value(c);
    let ghost as_int = |x: u8| x as int;
    assert(s@.take(0).filter_map(f) == Seq::<int>::empty());
    while i < s.len()
        invariant
            i <= s.len(),
            f == (|c: char| hex_value(c)),
            as_int == (|x: u8| x as int),
            d@.map_values(as_int) == s@.take(i as int).filter_map(f),
            forall|j: int| 0 <= j < d@.len() ==> #[trigger] d@[j] < 16,
        decreases s.len() - i,
    {
        proof {
            s@.lemma_filter_map_take_succ(f, i as int);
        }
        let ghost before = d@;
        if let Some(v) = digit_value(s[i]) {
            d.push(v);
            assert(d@.map_values(as_int) == before.map_values(as_int).push(v as int));
        }
        i += 1;
    }
    assert(s@.take(s@.len() as int) == s@);
    let ghost all = hex_digits(text@);
    assert(all == d@.map_values(as_int));
    if d.len() != 64 {
        return None;
    }
    let mut out: [u8; 32] = [0u8;32];
    let mut k: usize = 0;
    while k < 32
        invariant
            k <= 32,
            d@.len() == 64,
            as_int == (|x: u8| x as int),
            all == d@.map_values(as_int),
            forall|j: int| 0 <= j < d@.len() ==> #[trigger] d@[j] < 16,
            forall|j: int| 0 <= j < k ==> out@[j] == (all[2 * j] * 16 + all[2 * j + 1]) as u8,
        decreases 32 - k,
    {
        assert(d@[2 * k] < 16 && d@[2 * k + 1] < 16);
        let b: u8 = d[2 * k] * 16 + d[2 * k + 1];
        out[k] = b;
        k += 1;
    }
    assert(out@ == fingerprint_in(text@)->0);
    Some(out)
}

fn hex_digit(v: u8) -> (r: char)
    requires
        v < 16,
    ensures
        r == hex_char(v as int),
{
    if v < 10 {
        (48 + v) as char
    } else {
        (97 + v - 10) as char
    }
}

/// Hexadecimal writing of a digest, in lower case.
pub fn fingerprint_hex(fp: &Fingerprint) -> (r: String)
    ensures
        r@ == hex(fp@),
{
    let mut out = String::new();
    let mut i: usize = 0;
    while i < 32
        invariant
            i <= 32,
            out@ == hex(fp@).take(2 * i),
        decreases 32 - i,
    {
        let b: u8 = fp[i];
        out.push(hex_digit(b / 16));
        out.push(hex_digit(b % 16));
        assert(out@ == hex(fp@).take(2 * (i + 1)));
        i += 1;
    }
    assert(hex(fp@).take(64) == hex(fp@));
    out
}

/// `s` writes bytes: two hexadecimal digits each, in any case of the letters, with `separator`
/// between the bytes.
pub open spec fn writes_bytes(s: Seq<char>, bytes: Seq<u8>, separator: Seq<char>) -> bool
    decreases bytes.len(),
{
    if bytes.len() == 0 {
        s.len() == 0
    } else {
        let n = s.len() - 2;
        let cut = n - separator.len();
        &&& n >= 0
        &&& hex_value(s[n]) == Some(bytes.last() as int / 16)
        &&& hex_value(s[n + 1]) == Some(bytes.last() as int % 16)
        &&& if bytes.len() == 1 {
            n == 0
        } else {
            cut >= 0 && s.subrange(cut, n) == separator && writes_bytes(
                s.take(cut),
                bytes.drop_last(),
                separator,
            )
        }
    }
}

/// The values of the digits that write bytes.
pub open spec fn digits_of(bytes: Seq<u8>) -> Seq<int> {
    Seq::new(
        2 * bytes.len(),
        |i: int|
            if i % 2 == 0 {
                bytes[i / 2] as int / 16
            } else {
                bytes[i / 2] as int % 16
            },
    )
}

/// A digest is read back from any writing of it: `aa:bb:…` or `aabb…`, in either case of the
/// letters, whatever stands between the bytes as long as it holds no digit.
pub proof fn any_writing_is_read_back(s: Seq<char>, bytes: Seq<u8>, separator: Seq<char>)
    requires
        bytes.len() == 32,
        writes_bytes(s, bytes, separator),
        forall|i: int| 0 <= i < separator.len() ==> hex_value(#[trigger] separator[i]) is None,
    ensures
        fingerprint_in(s) == Some(bytes),
{
    lemma_digits_read(s, bytes, separator);
    let d = hex_digits(s);
    let r = Seq::new(32, |i: int| (d[2 * i] * 16 + d[2 * i + 1]) as u8);
    assert forall|i: int| 0 <= i < 32 implies r[i] == bytes[i] by {
        assert((2 * i) / 2 == i && (2 * i + 1) / 2 == i && (2 * i) % 2 == 0 && (2 * i + 1) % 2 == 1);
    }
    assert(r =~= bytes);
}

/// A digest written by [`fingerprint_hex`] is read back.
pub proof fn fingerprint_is_read_back(bytes: Seq<u8>)
    requires
        bytes.len() == 32,
    ensures
        fingerprint_in(hex(bytes)) == Some(bytes),
{
    lemma_hex_writes(bytes);
    any_writing_is_read_back(hex(bytes), bytes, Seq::empty());
}

/// The digits of a writing of bytes.
proof fn lemma_digits_read(s: Seq<char>, bytes: Seq<u8>, separator: Seq<char>)
    requires
        writes_bytes(s, bytes, separator),
        forall|i: int| 0 <= i < separator.len() ==> hex_value(#[trigger] separator[i]) is None,
    ensures
        hex_digits(s) == digits_of(bytes),
    decreases bytes.len(),
{
    if bytes.len() == 0 {
        assert(hex_digits(s) =~= digits_of(bytes));
    } else {
        let n = s.len() - 2;
        let less = bytes.drop_last();
        let head = s.take(n);
        assert(s.drop_last().drop_last() =~= head);
        assert(s.drop_last().last() == s[n]);
        assert(s.last() == s[n + 1]);
        if bytes.len() == 1 {
            assert(hex_digits(head) =~= digits_of(less));
        } else {
            let cut = n - separator.len();
            lemma_digits_read(s.take(cut), less, separator);
            lemma_no_digit_added(s.take(cut), separator);
            assert(head =~= s.take(cut) + separator);
        }
        let hi = bytes.last() as int / 16;
        let lo = bytes.last() as int % 16;
        assert(hex_digits(s.drop_last()) == hex_digits(head) + seq![hi]);
        assert(hex_digits(s) == hex_digits(s.drop_last()) + seq![lo]);
        assert(digits_of(bytes) =~= digits_of(less) + seq![hi] + seq![lo]);
    }
}

/// Text without a digit adds none.
proof fn lemma_no_digit_added(s: Seq<char>, t: Seq<char>)
    requires
        forall|i: int| 0 <= i < t.len() ==> hex_value(#[trigger] t[i]) is None,
    ensures
        hex_digits(s + t) == hex_digits(s),
    decreases t.len(),
{
    if t.len() == 0 {
        assert(s + t =~= s);
    } else {
        let l = t.drop_last();
        assert forall|i: int| 0 <= i < l.len() implies hex_value(#[trigger] l[i]) is None by {
            assert(l[i] == t[i]);
        }
        lemma_no_digit_added(s, l);
        assert((s + t).drop_last() =~= s + l);
        assert((s + t).last() == t[t.len() - 1]);
    }
}

/// The lower-case writing is a writing without a separator.
proof fn lemma_hex_writes(bytes: Seq<u8>)
    ensures
        writes_bytes(hex(bytes), bytes, Seq::empty()),
    decreases bytes.len(),
{
    if bytes.len() > 0 {
        let less = bytes.drop_last();
        let h = hex(bytes);
        let n = h.len() - 2;
        lemma_hex_writes(less);
        assert(n / 2 == bytes.len() - 1 && (n + 1) / 2 == bytes.len() - 1 && n % 2 == 0 && (n + 1)
            % 2 == 1);
        assert(h.take(n) =~= hex(less));
        assert(h.subrange(n, n) =~= Seq::<char>::empty());
    }
}

/// What is expected after several certificates were presented.
pub open spec fn pinned_by_all(expected: Option<Seq<u8>>, seen: Seq<Seq<u8>>) -> Option<Seq<u8>>
    decreases seen.len(),
{
    if seen.len() == 0 {
        expected
    } else {
        pinned(pinned_by_all(expected, seen.drop_last()), seen.last())
    }
}

/// The first certificate is trusted, and from then on no other one is, however many were refused
/// in between.
pub proof fn first_certificate_is_pinned(first: Seq<u8>, seen: Seq<Seq<u8>>)
    ensures
        pinned_by_all(None, seq![first] + seen) == Some(first),
    decreases seen.len(),
{
    let all = seq![first] + seen;
    if seen.len() == 0 {
        assert(all.drop_last() =~= Seq::<Seq<u8>>::empty());
        assert(pinned_by_all(None, all.drop_last()) is None);
        assert(all.last() == first);
    } else {
        first_certificate_is_pinned(first, seen.drop_last());
        assert(all.drop_last() =~= seq![first] + seen.drop_last());
    }
}

/// A digest that the application remembered stays the expected one.
pub proof fn remembered_certificate_stays(expected: Seq<u8>, seen: Seq<Seq<u8>>)
    ensures
        pinned_by_all(Some(expected), seen) == Some(expected),
    decreases seen.len(),
{
    if seen.len() > 0 {
        remembered_certificate_stays(expected, seen.drop_last());
    }
}

/// IPv6 literals stand between brackets in a URL or a Host header.
pub open spec fn bracketed(host: Seq<char>) -> Seq<char> {
    if host.contains(':') && !(host.len() > 0 && host[0] == '[') {
        "["@ + host + "]"@
    } else {
        host
    }
}

/// The host as it stands in a URL.
pub fn bracket(host: &str) -> (r: String)
    ensures
        r@ == bracketed(host@),
{
    let s = strings::chars_of(host);
    assert(s@.skip(0) == s@);
    let i: usize = strings::find_from(s.as_slice(), ':', 0);
    proof {
        strings::lemma_find(s@, ':');
        if i < s@.len() {
            assert(s@[i as int] == ':');
        }
    }
    if i < s.len() && !(s.len() > 0 && s[0] == '[') {
        let mut out = strings::text("[");
        out.append(host);
        out.append("]");
        out
    } else {
        strings::text(host)
    }
}

/// Address of the signalling WebSocket.
pub fn socket_url(host: &str, port: u16) -> (r: String)
    ensures
        r@ == "wss://"@ + bracketed(host@) + ":"@ + strings::decimal(port as nat) + "/ws"@,
{
    let mut out = strings::text("wss://");
    let h = bracket(host);
    out.append(h.as_str());
    out.append(":");
    strings::push_decimal(&mut out, port as u64);
    out.append("/ws");
    out
}

/// The HTTP request for the published settings.
pub open spec fn config_request_text(host: Seq<char>, port: u16) -> Seq<char> {
    "GET /api/config HTTP/1.1\r\nHost: "@ + bracketed(host) + ":"@ + strings::decimal(port as nat)
        + "\r\nConnection: close\r\nAccept: application/json\r\n\r\n"@
}

/// The HTTP request for the published settings; the server closes after its reply.
pub fn config_request(host: &str, port: u16) -> (r: String)
    ensures
        r@ == config_request_text(host@, port),
{
    let mut out = strings::text("GET /api/config HTTP/1.1\r\nHost: ");
    let h = bracket(host);
    out.append(h.as_str());
    out.append(":");
    strings::push_decimal(&mut out, port as u64);
    out.append("\r\nConnection: close\r\nAccept: application/json\r\n\r\n");
    out
}

/// Why a reply to the request for the settings is of no use.
pub enum ConfigReplyError {
    /// No empty line between head and body.
    Incomplete,
    /// The status line, other than a success.
    Status(String),
}

/// What a reply to the request for the settings holds.
pub enum ConfigReply {
    Incomplete,
    Status(Seq<char>),
    Body(Seq<char>),
}

/// Position of the first empty line, if any.
pub open spec fn head_end(text: Seq<char>, i: int) -> Option<int>
    decreases text.len() - i,
{
    if i + 4 > text.len() {
        None
    } else if strings::occurs_at(text, "\r\n\r\n"@, i) {
        Some(i)
    } else {
        head_end(text, i + 1)
    }
}

/// First line of a text, without its line ending.
pub open spec fn first_line(text: Seq<char>) -> Seq<char> {
    let i = strings::find(text, '\n');
    if i < text.len() && i > 0 && text[i - 1] == '\r' {
        text.take(i - 1)
    } else {
        text.take(i)
    }
}

/// What a reply says: the status line must hold ` 200 `, and the body follows the first empty
/// line.
pub open spec fn config_reply(text: Seq<char>) -> ConfigReply {
    match head_end(text, 0) {
        None => ConfigReply::Incomplete,
        Some(i) => {
            let status = first_line(text.take(i));
            if strings::has_text(status, " 200 "@) {
                ConfigReply::Body(strings::trim(text.skip(i + 4)))
            } else {
                ConfigReply::Status(status)
            }
        },
    }
}

/// The JSON body of a reply to the request for the settings.
pub fn config_body(text: &str) -> (r: Result<String, ConfigReplyError>)
    ensures
        (match r {
            Ok(b) => config_reply(text@) == ConfigReply::Body(b@),
            Err(ConfigReplyError::Incomplete) => config_reply(text@) == ConfigReply::Incomplete,
            Err(ConfigReplyError::Status(s)) => config_reply(text@) == ConfigReply::Status(s@),
        }),
{
    let t = strings::chars_of(text);
    let s = t.as_slice();
    let blank = strings::chars_of("\r\n\r\n");
    let mut i: usize = 0;
    proof {
        reveal_strlit("\r\n\r\n");
    }
    while i < s.len() && s.len() - i >= 4 && !strings::at(s, blank.as_slice(), i)
        invariant
            i <= s.len(),
            blank@ == "\r\n\r\n"@,
            head_end(s@, 0) == head_end(s@, i as int),
        decreases s.len() - i,
    {
        i += 1;
    }
    if s.len() - i < 4 {
        return Err(ConfigReplyError::Incomplete);
    }
    assert(head_end(s@, 0) == Some(i as int));
    let head = strings::part(s, 0, i);
    let h = head.as_slice();
    assert(h@.skip(0) == h@);
    let mut e: usize = strings::find_from(h, '\n', 0);
    if e < h.len() && e > 0 && h[e - 1] == '\r' {
        e -= 1;
    }
    let status = strings::part(h, 0, e);
    assert(h@ == s@.take(i as int));
    assert(status@ == first_line(h@));
    let ok = strings::chars_of(" 200 ");
    if !strings::contains(status.as_slice(), ok.as_slice()) {
        return Err(ConfigReplyError::Status(strings::string_of(status.as_slice())));
    }
    let rest = strings::part(s, i + 4, s.len());
    assert(rest@ == s@.skip(i + 4));
    let body = strings::trim_of(rest.as_slice());
    Ok(strings::string_of(body.as_slice()))
}

/// A hexadecimal digit is worth its place: `0` to `9`, then `a` to `f` in either case; no other
/// character is one.
pub proof fn hexadecimal_digits_are_worth_their_place(c: char)
    ensures
        '0' <= c <= '9' ==> hex_value(c) == Some(c as int - 48),
        'a' <= c <= 'f' ==> hex_value(c) == Some(c as int - 87),
        'A' <= c <= 'F' ==> hex_value(c) == Some(c as int - 55),
        hex_value(c) is Some <==> '0' <= c <= '9' || 'a' <= c <= 'f' || 'A' <= c <= 'F',
{
}

/// A text that does not hold exactly 64 digits is no digest.
pub proof fn digests_have_64_digits(s: Seq<char>)
    ensures
        hex_digits(s).len() != 64 ==> fingerprint_in(s) is None,
        hex_digits(s).len() == 64 ==> fingerprint_in(s) is Some && fingerprint_in(s)->0.len() == 32,
{
}

/// A digest is written in lower case, two digits for each byte.
pub proof fn digests_are_written_in_lower_case(bytes: Seq<u8>, i: int)
    requires
        0 <= i < bytes.len(),
    ensures
        hex(bytes).len() == 2 * bytes.len(),
        hex_value(hex(bytes)[2 * i]) == Some(bytes[i] as int / 16),
        hex_value(hex(bytes)[2 * i + 1]) == Some(bytes[i] as int % 16),
        !('A' <= hex(bytes)[2 * i] <= 'F'),
        !('A' <= hex(bytes)[2 * i + 1] <= 'F'),
{
    assert((2 * i) / 2 == i && (2 * i) % 2 == 0 && (2 * i + 1) / 2 == i && (2 * i + 1) % 2 == 1);
}

/// Trust on first use: without a remembered digest the one that is presented is accepted and
/// remembered; with one, only the same is, and the remembered one stays. A mismatch is reported
/// where both are known and differ.
pub proof fn first_use_is_trusted(
    expected: Option<Fingerprint>,
    seen: Fingerprint,
    known: Seq<u8>,
    presented: Seq<u8>,
)
    ensures
        pinned(None, presented) == Some(presented),
        pinned(Some(known), presented) == Some(known),
        differ(expected, Some(seen)) <==> expected is Some && expected->0@ != seen@,
        !differ(expected, None),
        digest_of(Some(seen)) == Some(seen@),
        digest_of(None) is None,
{
}

/// A host with colons, an IPv6 literal, stands between brackets unless it does already; any other
/// host stands as it is.
pub proof fn literals_are_bracketed(host: Seq<char>, i: int)
    ensures
        0 <= i < host.len() && host[i] == ':' && host[0] != '[' ==> bracketed(host) == seq!['[']
            + host + seq![']'],
        host.len() > 0 && host[0] == '[' ==> bracketed(host) == host,
        (forall|j: int| 0 <= j < host.len() ==> #[trigger] host[j] != ':') ==> bracketed(host)
            == host,
{
    reveal_strlit("[");
    reveal_strlit("]");
    assert("["@ =~= seq!['[']);
    assert("]"@ =~= seq![']']);
    if 0 <= i < host.len() && host[i] == ':' {
        assert(host.contains(':'));
    }
}

/// A reply with a success and an empty line between its head and its body gives the body, white
/// space around it apart; another status is given as it stands; without an empty line the reply
/// is incomplete.
pub proof fn replies_are_read(status: Seq<char>, headers: Seq<char>, body: Seq<char>)
    requires
        forall|i: int| 0 <= i < status.len() ==> status[i] != '\r' && status[i] != '\n',
        forall|i: int|
            0 <= i <= (status + headers).len() ==> !strings::occurs_at(
                status + headers + "\r\n\r\n"@ + body,
                "\r\n\r\n"@,
                i,
            ) || i == (status + headers).len(),
        headers.len() == 0 || headers.len() >= 2 && headers[0] == '\r' && headers[1] == '\n',
    ensures
        ({
            let text = status + headers + "\r\n\r\n"@ + body;
            &&& strings::has_text(status, " 200 "@) ==> config_reply(text) == ConfigReply::Body(
                strings::trim(body),
            )
            &&& !strings::has_text(status, " 200 "@) ==> config_reply(text) == ConfigReply::Status(
                status,
            )
        }),
{
    let text = status + headers + "\r\n\r\n"@ + body;
    let n = (status + headers).len() as int;
    reveal_strlit("\r\n\r\n");
    assert("\r\n\r\n"@.len() == 4);
    assert(text.subrange(n, n + 4) =~= "\r\n\r\n"@);
    assert(strings::occurs_at(text, "\r\n\r\n"@, n));
    lemma_head_end(text, 0, n);
    let head = text.take(n);
    assert(head =~= status + headers);
    assert(text.skip(n + 4) =~= body);
    if headers.len() == 0 {
        assert forall|j: int| 0 <= j < head.len() implies head[j] != '\n' by {
            assert(head[j] == status[j]);
        }
        strings::lemma_find_is(head, '\n', head.len() as int);
        assert(first_line(head) =~= status);
    } else {
        let k = status.len() as int + 1;
        assert(head[k] == '\n' && head[k - 1] == '\r');
        assert forall|j: int| 0 <= j < k implies head[j] != '\n' by {
            if j < status.len() {
                assert(head[j] == status[j]);
            }
        }
        strings::lemma_find_is(head, '\n', k);
        assert(first_line(head) =~= status);
    }
}

proof fn lemma_head_end(text: Seq<char>, i: int, n: int)
    requires
        0 <= i <= n,
        n + 4 <= text.len(),
        "\r\n\r\n"@.len() == 4,
        strings::occurs_at(text, "\r\n\r\n"@, n),
        forall|j: int| i <= j < n ==> !strings::occurs_at(text, "\r\n\r\n"@, j),
    ensures
        head_end(text, i) == Some(n),
    decreases n - i,
{
    if i < n {
        assert(!strings::occurs_at(text, "\r\n\r\n"@, i));
        lemma_head_end(text, i + 1, n);
    }
}

/// A reply without an empty line is incomplete.
pub proof fn headless_replies_are_incomplete(text: Seq<char>)
    requires
        !strings::has_text(text, "\r\n\r\n"@),
    ensures
        config_reply(text) == ConfigReply::Incomplete,
{
    lemma_no_head_end(text, 0);
}

proof fn lemma_no_head_end(text: Seq<char>, i: int)
    requires
        !strings::has_text(text, "\r\n\r\n"@),
    ensures
        head_end(text, i) is None,
    decreases text.len() - i,
{
    if i + 4 <= text.len() {
        assert(!strings::occurs_at(text, "\r\n\r\n"@, i));
        lemma_no_head_end(text, i + 1);
    }
}

/// The request for the settings asks for them at the switcher's address, and for the connection to
/// be closed after the reply.
pub proof fn settings_are_asked_for(host: Seq<char>, port: u16)
    ensures
        config_request_text(host, port) == "GET /api/config HTTP/1.1\r\nHost: "@ + bracketed(host)
            + ":"@ + strings::decimal(port as nat)
            + "\r\nConnection: close\r\nAccept: application/json\r\n\r\n"@,
{
}

/// The first certificate that is seen is trusted and remembered; from then on only that one is.
pub proof fn first_certificates_are_remembered(
    p: &mut CertPolicy,
    a: Fingerprint,
    r: Result<(), CertificateChanged>,
    q: &mut CertPolicy,
    b: Fingerprint,
    s: Result<(), CertificateChanged>,
)
    requires
        old(p).expected is None,
        call_ensures(CertPolicy::check, (p, a), r),
        *old(q) == *final(p),
        call_ensures(CertPolicy::check, (q, b), s),
    ensures
        r is Ok,
        final(p).observed == Some(a) && final(q).observed == Some(b),
        s is Ok <==> b@ == a@,
        final(q).expected is Some && final(q).expected->0@ == a@,
{
}

/// A certificate is accepted exactly where its digest is the remembered one, and what was seen is
/// kept either way.
pub proof fn certificates_are_told_by_their_digest(
    p: &mut CertPolicy,
    der: &[u8],
    r: Result<(), CertificateChanged>,
)
    requires
        old(p).expected is Some,
        call_ensures(CertPolicy::verify_server_cert, (p, der), r),
    ensures
        r is Ok <==> old(p).expected->0@ == sha256(der@),
        final(p).observed is Some && final(p).observed->0@ == sha256(der@),
        final(p).expected is Some && final(p).expected->0@ == old(p).expected->0@,
{
}

} // verus!
