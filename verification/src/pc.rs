//! Settings of a peer connection: ICE servers and the addresses to bind.

use crate::strings;
use vstd::prelude::*;

verus! {

/// An ICE server, without credentials.
pub struct IceServer {
    pub urls: Vec<String>,
}

/// Position of the first `://` at or after `i`.
pub open spec fn scheme_end(s: Seq<char>, i: int) -> Option<int>
    decreases s.len() - i,
{
    if i + 3 > s.len() {
        None
    } else if strings::occurs_at(s, "://"@, i) {
        Some(i)
    } else {
        scheme_end(s, i + 1)
    }
}

/// `stun://host:port` in the form `stun:host:port`; only the first `://` changes.
pub open spec fn normalized(url: Seq<char>) -> Seq<char> {
    match scheme_end(url, 0) {
        Some(i) => url.take(i) + ":"@ + url.skip(i + 3),
        None => url,
    }
}

/// The ICE servers of a setting: none where it is blank, else the one it names.
pub fn ice_servers(stun_server: &str) -> (r: Vec<IceServer>)
    ensures
        ({
            let stun = strings::trim(stun_server@);
            &&& stun.len() == 0 ==> r@.len() == 0
            &&& stun.len() > 0 ==> r@.len() == 1 && strings::texts(r@[0].urls@) == seq![
                normalized(stun),
            ]
        }),
{
    let given = strings::chars_of(stun_server);
    let stun = strings::trim_of(given.as_slice());
    let mut out: Vec<IceServer> = Vec::new();
    if stun.len() == 0 {
        return out;
    }
    let s = stun.as_slice();
    let sep = strings::chars_of("://");
    proof {
        reveal_strlit("://");
    }
    let mut i: usize = 0;
    while i < s.len() && s.len() - i >= 3 && !strings::at(s, sep.as_slice(), i)
        invariant
            i <= s.len(),
            sep@ == "://"@,
            scheme_end(s@, 0) == scheme_end(s@, i as int),
        decreases s.len() - i,
    {
        i += 1;
    }
    let mut url = String::new();
    if s.len() - i >= 3 {
        assert(scheme_end(s@, 0) == Some(i as int));
        let head = strings::part(s, 0, i);
        let tail = strings::part(s, i + 3, s.len());
        let h = strings::string_of(head.as_slice());
        let t = strings::string_of(tail.as_slice());
        url.append(h.as_str());
        url.append(":");
        url.append(t.as_str());
        assert(url@ == normalized(s@));
    } else {
        let t = strings::string_of(s);
        url.append(t.as_str());
        assert(url@ == normalized(s@));
    }
    let ghost u = url@;
    let mut urls: Vec<String> = Vec::new();
    urls.push(url);
    assert(strings::texts(urls@) == seq![u]);
    out.push(IceServer { urls });
    out
}

/// A network interface and its IPv4 address, if it has one.
pub struct Interface {
    pub name: String,
    pub v4: Option<[u8; 4]>,
}

/// Loopback (127/8), link-local (169.254/16) or unspecified (0.0.0.0).
pub open spec fn is_special(ip: Seq<u8>) -> bool {
    ||| ip[0] == 127
    ||| ip[0] == 169 && ip[1] == 254
    ||| ip[0] == 0 && ip[1] == 0 && ip[2] == 0 && ip[3] == 0
}

/// Dotted writing of an IPv4 address.
pub open spec fn dotted(ip: Seq<u8>) -> Seq<char> {
    strings::decimal(ip[0] as nat) + "."@ + strings::decimal(ip[1] as nat) + "."@
        + strings::decimal(ip[2] as nat) + "."@ + strings::decimal(ip[3] as nat)
}

/// The address to bind for an interface: a plain IPv4 one of an interface whose name begins with
/// `prefix`.
pub open spec fn bind_addr(i: Interface, prefix: Seq<char>) -> Option<Seq<char>> {
    match i.v4 {
        Some(ip) => if strings::occurs_at(i.name@, prefix, 0) && !is_special(ip@) {
            Some(dotted(ip@) + ":0"@)
        } else {
            None
        },
        None => None,
    }
}

/// The addresses to bind for a list of interfaces, each once, in order of first appearance.
pub open spec fn bind_addrs(list: Seq<Interface>, prefix: Seq<char>) -> Seq<Seq<char>>
    decreases list.len(),
{
    if list.len() == 0 {
        seq![]
    } else {
        let before = bind_addrs(list.drop_last(), prefix);
        match bind_addr(list.last(), prefix) {
            Some(a) => if before.contains(a) {
                before
            } else {
                before.push(a)
            },
            None => before,
        }
    }
}

/// Writes an IPv4 address.
pub fn dotted_of(ip: &[u8; 4]) -> (r: String)
    ensures
        r@ == dotted(ip@),
{
    let mut out = String::new();
    strings::push_decimal(&mut out, ip[0] as u64);
    out.append(".");
    strings::push_decimal(&mut out, ip[1] as u64);
    out.append(".");
    strings::push_decimal(&mut out, ip[2] as u64);
    out.append(".");
    strings::push_decimal(&mut out, ip[3] as u64);
    out
}

/// Whether a list holds a text.
pub(crate) fn holds(list: &Vec<String>, t: &str) -> (r: bool)
    ensures
        r == strings::texts(list@).contains(t@),
{
    let mut i: usize = 0;
    while i < list.len()
        invariant
            i <= list.len(),
            forall|j: int| 0 <= j < i ==> #[trigger] strings::texts(list@)[j] != t@,
        decreases list.len() - i,
    {
        if strings::same_text(list[i].as_str(), t) {
            assert(strings::texts(list@)[i as int] == t@);
            return true;
        }
        i += 1;
    }
    false
}

/// Addresses to bind on the interfaces whose name begins with `prefix` (`en` for Wi-Fi and
/// Ethernet): IPv4, neither loopback, link-local nor unspecified, each once.
pub fn bind_addrs_for_interfaces(list: &Vec<Interface>, prefix: &str) -> (r: Vec<String>)
    ensures
        strings::texts(r@) == bind_addrs(list@, prefix@),
{
    let mut out: Vec<String> = Vec::new();
    let mut i: usize = 0;
    assert(list@.take(0) == Seq::<Interface>::empty());
    assert(strings::texts(out@) == bind_addrs(list@.take(0), prefix@));
    while i < list.len()
        invariant
            i <= list.len(),
            strings::texts(out@) == bind_addrs(list@.take(i as int), prefix@),
        decreases list.len() - i,
    {
        assert(list@.take(i + 1).drop_last() == list@.take(i as int));
        assert(list@.take(i + 1).last() == list@[i as int]);
        if let Some(ip) = &list[i].v4 {
            let name = strings::chars_of(list[i].name.as_str());
            let special = ip[0] == 127 || (ip[0] == 169 && ip[1] == 254) || (ip[0] == 0 && ip[1]
                == 0 && ip[2] == 0 && ip[3] == 0);
            if strings::starts(name.as_slice(), prefix) && !special {
                let mut a = dotted_of(ip);
                a.append(":0");
                if !holds(&out, a.as_str()) {
                    let ghost before = strings::texts(out@);
                    let ghost t = a@;
                    out.push(a);
                    assert(strings::texts(out@) == before.push(t));
                }
            }
        }
        i += 1;
    }
    assert(list@.take(list@.len() as int) == list@);
    out
}

/// The addresses to bind, or any address where there is none.
pub fn or_any(addrs: Vec<String>) -> (r: Vec<String>)
    ensures
        addrs@.len() > 0 ==> r@ == addrs@,
        addrs@.len() == 0 ==> strings::texts(r@) == seq!["0.0.0.0:0"@],
{
    if addrs.len() > 0 {
        return addrs;
    }
    let mut out: Vec<String> = Vec::new();
    out.push(strings::text("0.0.0.0:0"));
    assert(strings::texts(out@) == seq!["0.0.0.0:0"@]);
    out
}

/// The first `://` of an address becomes `:`, and nothing else changes; one without it stays.
pub proof fn schemes_are_shortened(head: Seq<char>, tail: Seq<char>)
    requires
        forall|i: int| !strings::occurs_at(head + "://"@ + tail, "://"@, i) || i >= head.len(),
    ensures
        normalized(head + "://"@ + tail) == head + seq![':'] + tail,
        !strings::has_text(tail, "://"@) ==> normalized(tail) == tail,
{
    reveal_strlit("://");
    reveal_strlit(":");
    assert(":"@ =~= seq![':']);
    let s = head + "://"@ + tail;
    let n = head.len() as int;
    assert("://"@.len() == 3);
    assert(s.subrange(n, n + 3) =~= "://"@);
    lemma_scheme_end(s, 0, n);
    assert(s.take(n) =~= head);
    assert(s.skip(n + 3) =~= tail);
    if !strings::has_text(tail, "://"@) {
        lemma_no_scheme(tail, 0);
    }
}

proof fn lemma_scheme_end(s: Seq<char>, i: int, n: int)
    requires
        0 <= i <= n,
        n + 3 <= s.len(),
        strings::occurs_at(s, "://"@, n),
        forall|j: int| i <= j < n ==> !strings::occurs_at(s, "://"@, j),
    ensures
        scheme_end(s, i) == Some(n),
    decreases n - i,
{
    if i < n {
        assert(!strings::occurs_at(s, "://"@, i));
        lemma_scheme_end(s, i + 1, n);
    }
}

proof fn lemma_no_scheme(s: Seq<char>, i: int)
    requires
        !strings::has_text(s, "://"@),
    ensures
        scheme_end(s, i) is None,
    decreases s.len() - i,
{
    if i + 3 <= s.len() {
        assert(!strings::occurs_at(s, "://"@, i));
        lemma_no_scheme(s, i + 1);
    }
}

/// An address of the machine itself (127), one that it gave itself (169.254) and the one that
/// stands for all of them are special; no other one is. An address is written with its four
/// numbers and dots between them.
pub proof fn special_addresses(ip: Seq<u8>)
    requires
        ip.len() == 4,
    ensures
        is_special(ip) <==> ip[0] == 127 || ip[0] == 169 && ip[1] == 254 || ip == seq![
            0u8,
            0u8,
            0u8,
            0u8,
        ],
        dotted(ip) == strings::decimal(ip[0] as nat) + "."@ + strings::decimal(ip[1] as nat) + "."@
            + strings::decimal(ip[2] as nat) + "."@ + strings::decimal(ip[3] as nat),
{
    if ip[0] == 0 && ip[1] == 0 && ip[2] == 0 && ip[3] == 0 {
        assert(ip =~= seq![0u8, 0u8, 0u8, 0u8]);
    }
}

/// An interface is bound by its plain address, at a port of the system's choice, where its name
/// begins as asked for.
pub proof fn plain_addresses_are_bound(i: Interface, prefix: Seq<char>)
    ensures
        bind_addr(i, prefix) is Some <==> i.v4 is Some && i.name@.len() >= prefix.len()
            && i.name@.take(prefix.len() as int) == prefix && !is_special(i.v4->0@),
        bind_addr(i, prefix) is Some ==> bind_addr(i, prefix)->0 == dotted(i.v4->0@) + ":0"@,
{
    if i.name@.len() >= prefix.len() {
        assert(i.name@.subrange(0, prefix.len() as int) =~= i.name@.take(prefix.len() as int));
    }
}

/// Each address is bound once, in the order of the interfaces: all of those that can be bound, and
/// no other one.
pub proof fn addresses_are_bound_once(list: Seq<Interface>, prefix: Seq<char>)
    ensures
        ({
            let a = bind_addrs(list, prefix);
            &&& forall|i: int, j: int| 0 <= i < j < a.len() ==> #[trigger] a[i] != #[trigger] a[j]
            &&& forall|i: int|
                0 <= i < list.len() && bind_addr(#[trigger] list[i], prefix) is Some ==> a.contains(
                    bind_addr(list[i], prefix)->0,
                )
            &&& forall|k: int|
                0 <= k < a.len() ==> exists|i: int|
                    0 <= i < list.len() && bind_addr(#[trigger] list[i], prefix) == Some(
                        #[trigger] a[k],
                    )
        }),
        list.len() > 0 ==> bind_addrs(list, prefix).take(
            bind_addrs(list.drop_last(), prefix).len() as int,
        ) == bind_addrs(list.drop_last(), prefix),
    decreases list.len(),
{
    if list.len() > 0 {
        let u = list.drop_last();
        let n = list.len() - 1;
        let b = bind_addrs(u, prefix);
        let a = bind_addrs(list, prefix);
        addresses_are_bound_once(u, prefix);
        assert(list.last() == list[n]);
        assert(a.take(b.len() as int) =~= b);
        assert forall|i: int|
            0 <= i < list.len() && bind_addr(#[trigger] list[i], prefix) is Some implies a.contains(
            bind_addr(list[i], prefix)->0,
        ) by {
            let x = bind_addr(list[i], prefix)->0;
            if i < n {
                assert(u[i] == list[i]);
                assert(b.contains(x));
                let k = choose|k: int| 0 <= k < b.len() && b[k] == x;
                assert(a[k] == x);
            } else if b.contains(x) {
                let k = choose|k: int| 0 <= k < b.len() && b[k] == x;
                assert(a[k] == x);
            } else {
                assert(a[b.len() as int] == x);
            }
        }
        assert forall|k: int| 0 <= k < a.len() implies exists|i: int|
            0 <= i < list.len() && bind_addr(#[trigger] list[i], prefix) == Some(
                #[trigger] a[k],
            ) by {
            if k < b.len() {
                assert(a[k] == b[k]);
                let i = choose|i: int|
                    0 <= i < u.len() && bind_addr(#[trigger] u[i], prefix) == Some(b[k]);
                assert(list[i] == u[i]);
            } else {
                assert(bind_addr(list[n], prefix) == Some(a[k]));
            }
        }
    }
}

/// A server for finding addresses is asked exactly where one is configured; where no address can be
/// bound, any is.
pub proof fn servers_are_asked_if_configured(
    stun: &str,
    r: Vec<IceServer>,
    addrs: Vec<String>,
    q: Vec<String>,
)
    requires
        call_ensures(ice_servers, (stun,), r),
        call_ensures(or_any, (addrs,), q),
    ensures
        r@.len() == 0 <==> strings::trim(stun@).len() == 0,
        r@.len() <= 1,
        r@.len() == 1 ==> strings::texts(r@[0].urls@) == seq![normalized(strings::trim(stun@))],
        addrs@.len() > 0 ==> q@ == addrs@,
        addrs@.len() == 0 ==> strings::texts(q@) == seq!["0.0.0.0:0"@],
{
}

} // verus!
