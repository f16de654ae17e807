//! Announcement of the switcher on the local network (Bonjour), so that the phone finds it
//! without an address.

use crate::strings;
use vstd::prelude::*;

verus! {

/// Type of the announced service.
pub fn service_type() -> (r: &'static str)
    ensures
        r@ == "_streame._tcp.local."@,
{
    "_streame._tcp.local."
}

/// What is announced.
pub struct Announcement {
    /// Name of the switcher, as the phone shows it.
    pub name: String,
    /// Name of the machine on the local network.
    pub host: String,
    pub port: u16,
}

/// First label of a machine's name; a name with dots would not be resolved on the local network.
pub open spec fn host_label(hostname: Option<Seq<char>>) -> Seq<char> {
    match hostname {
        Some(h) => {
            let label = h.take(strings::find(h, '.'));
            if label.len() == 0 {
                "streame"@
            } else {
                label
            }
        },
        None => "streame"@,
    }
}

/// Name of the switcher: the configured one, else the machine's.
pub open spec fn instance_name(configured: Seq<char>, label: Seq<char>) -> Seq<char> {
    let t = strings::trim(configured);
    if t.len() == 0 {
        label
    } else {
        t
    }
}

/// What is announced for a machine, a configured name and a port.
pub fn announcement(hostname: &Option<String>, configured: &str, port: u16) -> (r: Announcement)
    ensures
        ({
            let label = host_label(
                match hostname {
                    Some(h) => Some(h@),
                    None => None,
                },
            );
            &&& r.name@ == instance_name(configured@, label)
            &&& r.host@ == label + ".local."@
            &&& r.port == port
        }),
{
    let label: String = match hostname {
        Some(h) => {
            let c = strings::chars_of(h.as_str());
            assert(c@.skip(0) == c@);
            let n: usize = strings::find_from(c.as_slice(), '.', 0);
            if n == 0 {
                assert(c@.take(0).len() == 0);
                strings::text("streame")
            } else {
                let p = strings::part(c.as_slice(), 0, n);
                assert(p@ == c@.take(n as int));
                strings::string_of(p.as_slice())
            }
        },
        None => strings::text("streame"),
    };
    let n = strings::chars_of(configured);
    let t = strings::trim_of(n.as_slice());
    let name = if t.len() == 0 {
        label.clone()
    } else {
        strings::string_of(t.as_slice())
    };
    let mut host = label;
    host.append(".local.");
    Announcement { name, host, port }
}

/// The announced host is a single label of the local domain.
pub proof fn host_is_one_label(hostname: Option<Seq<char>>)
    ensures
        host_label(hostname).len() > 0,
        !host_label(hostname).contains('.'),
{
    reveal_strlit("streame");
    if let Some(h) = hostname {
        strings::lemma_find(h, '.');
    }
}

/// A machine is announced under the first label of its name, and as `streame` where it has none.
/// The switcher is called as configured, white space around it apart, and else as the machine.
pub proof fn machines_are_announced_by_their_label(
    label: Seq<char>,
    domain: Seq<char>,
    configured: Seq<char>,
)
    requires
        !label.contains('.'),
    ensures
        label.len() > 0 ==> host_label(Some(label + seq!['.'] + domain)) == label,
        label.len() > 0 ==> host_label(Some(label)) == label,
        host_label(Some(seq!['.'] + domain)) == "streame"@,
        host_label(None) == "streame"@,
        strings::trim(configured).len() > 0 ==> instance_name(configured, label) == strings::trim(
            configured,
        ),
        strings::trim(configured).len() == 0 ==> instance_name(configured, label) == label,
{
    let h = label + seq!['.'] + domain;
    let n = label.len() as int;
    assert(h[n] == '.');
    assert forall|j: int| 0 <= j < n implies h[j] != '.' by {
        assert(label.contains(label[j]));
    }
    strings::lemma_find_is(h, '.', n);
    assert(h.take(n) =~= label);
    assert forall|j: int| 0 <= j < n implies label[j] != '.' by {
        assert(label.contains(label[j]));
    }
    strings::lemma_find_is(label, '.', n);
    assert(label.take(n) =~= label);
    let d = seq!['.'] + domain;
    assert(d[0] == '.');
    strings::lemma_find_is(d, '.', 0);
}

/// A switcher is announced under its machine's local name and at its port.
pub proof fn switchers_are_announced(
    hostname: &Option<String>,
    configured: &str,
    port: u16,
    r: Announcement,
    kind: &'static str,
)
    requires
        call_ensures(announcement, (hostname, configured, port), r),
        call_ensures(service_type, (), kind),
    ensures
        r.port == port,
        hostname is None ==> r.host@ == "streame"@ + ".local."@,
        hostname is Some ==> r.host@ == host_label(Some(hostname->0@)) + ".local."@,
        strings::trim(configured@).len() > 0 ==> r.name@ == strings::trim(configured@),
        kind@ == "_streame._tcp.local."@,
{
}

} // verus!
