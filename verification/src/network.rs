//! Reading the address and wired-network state shown in the header, from the
//! text that `ip`, `ifconfig`, `networksetup` and `/sys/class/net` give.

use vstd::prelude::*;
use crate::app::SystemStatus;
use crate::manifest::opt_str;
use crate::text::{
    chars_of, has_infix, has_prefix, is_ws, lemma_split_char_nonempty, lines_of,
    owned, push_char, push_str, split_char, split_on, starts_with, str_eq, string_of_range,
    strip_prefix_of, text_lines, trim, trimmed, words, words_of,
};

verus! {

/// The first `Some` that `f` gives over `lines`, in order (`find_map`).
pub open spec fn find_map(
    lines: Seq<Seq<char>>,
    f: spec_fn(Seq<char>) -> Option<Seq<char>>,
) -> Option<Seq<char>>
    decreases lines.len(),
{
    if lines.len() == 0 {
        None
    } else {
        match f(lines[0]) {
            Some(x) => Some(x),
            None => find_map(lines.drop_first(), f),
        }
    }
}

proof fn lemma_find_map_skip(
    lines: Seq<Seq<char>>,
    f: spec_fn(Seq<char>) -> Option<Seq<char>>,
    i: int,
)
    requires
        0 <= i <= lines.len(),
        forall|k: int| 0 <= k < i ==> f(#[trigger] lines[k]) is None,
    ensures
        find_map(lines, f) == find_map(lines.subrange(i, lines.len() as int), f),
    decreases i,
{
    if i == 0 {
        assert(lines.subrange(0, lines.len() as int) =~= lines);
    } else {
        let d = lines.drop_first();
        assert forall|k: int| 0 <= k < i - 1 implies f(#[trigger] d[k]) is None by {
            assert(d[k] == lines[k + 1]);
        }
        lemma_find_map_skip(d, f, i - 1);
        assert(d.subrange(i - 1, d.len() as int) =~= lines.subrange(i, lines.len() as int));
    }
}

/// `s` without every trailing `c` (`str::trim_end_matches` for a character).
pub open spec fn trim_end_char(s: Seq<char>, c: char) -> Seq<char>
    decreases s.len(),
{
    if s.len() > 0 && s.last() == c {
        trim_end_char(s.drop_last(), c)
    } else {
        s
    }
}

/// The text before the first `c` (`split(c).next()`).
pub open spec fn before_char(s: Seq<char>, c: char) -> Seq<char> {
    split_char(s, c)[0]
}

/// The interface and address that one line of `ip -4 -o addr show` names:
/// the second field without its trailing colons, a space, and the fourth
/// field up to its `/`.
pub open spec fn ip_line_entry(line: Seq<char>) -> Option<Seq<char>> {
    let f = words(line);
    if f.len() >= 4 {
        Some(trim_end_char(f[1], ':') + seq![' '] + before_char(f[3], '/'))
    } else {
        None
    }
}

/// The address alone that one line of `ip -4 -o addr show` names.
pub open spec fn ip_line_addr(line: Seq<char>) -> Option<Seq<char>> {
    let f = words(line);
    if f.len() >= 4 {
        Some(before_char(f[3], '/'))
    } else {
        None
    }
}

/// `ip_line_entry` as a function value.
pub open spec fn ip_entry_fn() -> spec_fn(Seq<char>) -> Option<Seq<char>> {
    |l: Seq<char>| ip_line_entry(l)
}

/// `ip_line_addr` as a function value.
pub open spec fn ip_addr_fn() -> spec_fn(Seq<char>) -> Option<Seq<char>> {
    |l: Seq<char>| ip_line_addr(l)
}

/// `s` without every trailing `c`.
fn trim_end_matches_char(s: &str, c: char) -> (r: String)
    ensures
        r@ == trim_end_char(s@, c),
{
    let v = chars_of(s);
    let mut n = v.len();
    assert(s@.subrange(0, n as int) =~= s@);
    while n > 0 && v[n - 1] == c
        invariant
            v@ == s@,
            n <= v@.len(),
            trim_end_char(s@, c) == trim_end_char(s@.subrange(0, n as int), c),
        decreases n,
    {
        assert(s@.subrange(0, n as int).drop_last() =~= s@.subrange(0, n - 1));
        n = n - 1;
    }
    string_of_range(&v, 0, n)
}

/// The text before the first `c`.
fn before_char_of(s: &str, c: char) -> (r: String)
    ensures
        r@ == before_char(s@, c),
{
    let pieces = split_on(s, c);
    proof {
        lemma_split_char_nonempty(s@, c);
        assert(pieces@.map_values(|x: String| x@)[0] == pieces@[0]@);
    }
    pieces[0].clone()
}

/// The entry of one `ip -4 -o addr` line.
fn ip_line_entry_of(line: &str) -> (r: Option<String>)
    ensures
        opt_str(r) == ip_line_entry(line@),
{
    let f = words_of(line);
    proof {
        assert(f@.len() == words(line@).len());
    }
    if f.len() < 4 {
        return None;
    }
    assert(f@[1]@ == words(line@)[1]);
    assert(f@[3]@ == words(line@)[3]);
    let mut r = trim_end_matches_char(f[1].as_str(), ':');
    push_char(&mut r, ' ');
    let addr = before_char_of(f[3].as_str(), '/');
    push_str(&mut r, addr.as_str());
    Some(r)
}

/// The address of one `ip -4 -o addr` line.
fn ip_line_addr_of(line: &str) -> (r: Option<String>)
    ensures
        opt_str(r) == ip_line_addr(line@),
{
    let f = words_of(line);
    proof {
        assert(f@.len() == words(line@).len());
    }
    if f.len() < 4 {
        return None;
    }
    assert(f@[3]@ == words(line@)[3]);
    Some(before_char_of(f[3].as_str(), '/'))
}

/// The first global IPv4 address in the output of
/// `ip -4 -o addr show scope global`, as "interface address".
pub fn primary_ipv4_from_ip(output: &str) -> (r: Option<String>)
    ensures
        opt_str(r) == find_map(text_lines(output@), ip_entry_fn()),
{
    let lines = lines_of(output);
    let ghost ls = text_lines(output@);
    let ghost f = ip_entry_fn();
    let mut i: usize = 0;
    while i < lines.len()
        invariant
            f == ip_entry_fn(),
            ls == text_lines(output@),
            i <= lines@.len(),
            lines@.map_values(|x: String| x@) == ls,
            forall|k: int| 0 <= k < i ==> f(#[trigger] ls[k]) is None,
        decreases lines@.len() - i,
    {
        assert(ls[i as int] == lines@[i as int]@);
        assert(f(ls[i as int]) == ip_line_entry(ls[i as int]));
        let e = ip_line_entry_of(lines[i].as_str());
        if e.is_some() {
            proof {
                lemma_find_map_skip(ls, f, i as int);
                let rest = ls.subrange(i as int, ls.len() as int);
                assert(rest[0] == ls[i as int]);
            }
            return e;
        }
        i = i + 1;
    }
    proof {
        lemma_find_map_skip(ls, f, i as int);
        assert(ls.subrange(i as int, ls.len() as int).len() == 0);
    }
    None
}

/// The first global IPv4 address of one interface, from the output of
/// `ip -4 -o addr show dev IFACE scope global`.
pub fn ipv4_for_iface_from_ip(output: &str) -> (r: Option<String>)
    ensures
        opt_str(r) == find_map(text_lines(output@), ip_addr_fn()),
{
    let lines = lines_of(output);
    let ghost ls = text_lines(output@);
    let ghost f = ip_addr_fn();
    let mut i: usize = 0;
    while i < lines.len()
        invariant
            f == ip_addr_fn(),
            ls == text_lines(output@),
            i <= lines@.len(),
            lines@.map_values(|x: String| x@) == ls,
            forall|k: int| 0 <= k < i ==> f(#[trigger] ls[k]) is None,
        decreases lines@.len() - i,
    {
        assert(ls[i as int] == lines@[i as int]@);
        assert(f(ls[i as int]) == ip_line_addr(ls[i as int]));
        let e = ip_line_addr_of(lines[i].as_str());
        if e.is_some() {
            proof {
                lemma_find_map_skip(ls, f, i as int);
                let rest = ls.subrange(i as int, ls.len() as int);
                assert(rest[0] == ls[i as int]);
            }
            return e;
        }
        i = i + 1;
    }
    proof {
        lemma_find_map_skip(ls, f, i as int);
        assert(ls.subrange(i as int, ls.len() as int).len() == 0);
    }
    None
}

/// A line of `ifconfig` output that opens an interface's block: it does
/// not start with white space and holds a colon.
pub open spec fn is_iface_header(line: Seq<char>) -> bool {
    !(line.len() > 0 && is_ws(line[0])) && line.contains(':')
}

/// The first non-loopback IPv4 address in `ifconfig` output, as "interface
/// address", scanning `lines` with `iface` the interface whose block is open.
/// Blocks of `lo` and `lo0` are skipped, and so are addresses in 127/8.
pub open spec fn ifconfig_scan(lines: Seq<Seq<char>>, iface: Option<Seq<char>>) -> Option<Seq<char>>
    decreases lines.len(),
{
    if lines.len() == 0 {
        None
    } else {
        let line = lines[0];
        let rest = lines.drop_first();
        if is_iface_header(line) {
            ifconfig_scan(rest, Some(before_char(line, ':')))
        } else {
            match iface {
                None => ifconfig_scan(rest, iface),
                Some(name) => {
                    let f = words(line);
                    if name == "lo"@ || name == "lo0"@ {
                        ifconfig_scan(rest, iface)
                    } else if f.len() >= 2 && f[0] == "inet"@ && !has_prefix(f[1], "127."@) {
                        Some(name + seq![' '] + f[1])
                    } else {
                        ifconfig_scan(rest, iface)
                    }
                },
            }
        }
    }
}

/// Whether `line` opens an interface block.
fn is_iface_header_of(line: &str) -> (r: bool)
    ensures
        r == is_iface_header(line@),
{
    let v = chars_of(line);
    if v.len() > 0 && crate::text::is_whitespace(v[0]) {
        return false;
    }
    let mut i: usize = 0;
    while i < v.len()
        invariant
            v@ == line@,
            i <= v@.len(),
            !(line@.len() > 0 && is_ws(line@[0])),
            forall|k: int| 0 <= k < i ==> v@[k] != ':',
        decreases v@.len() - i,
    {
        if v[i] == ':' {
            assert(line@[i as int] == ':');
            return true;
        }
        i = i + 1;
    }
    false
}

/// The first non-loopback IPv4 address in the output of `ifconfig`, as
/// "interface address".
pub fn primary_ipv4_from_ifconfig(output: &str) -> (r: Option<String>)
    ensures
        opt_str(r) == ifconfig_scan(text_lines(output@), None),
{
    let lines = lines_of(output);
    let ghost ls = text_lines(output@);
    let mut iface: Option<String> = None;
    let mut i: usize = 0;
    assert(ls.subrange(0, ls.len() as int) =~= ls);
    while i < lines.len()
        invariant
            i <= lines@.len(),
            lines@.map_values(|x: String| x@) == ls,
            ls == text_lines(output@),
            ifconfig_scan(ls, None) == ifconfig_scan(
                ls.subrange(i as int, ls.len() as int),
                opt_str(iface),
            ),
        decreases lines@.len() - i,
    {
        let line = lines[i].as_str();
        let ghost rest = ls.subrange(i as int, ls.len() as int);
        assert(rest[0] == line@);
        assert(rest.drop_first() =~= ls.subrange(i + 1, ls.len() as int));
        if is_iface_header_of(line) {
            iface = Some(before_char_of(line, ':'));
        } else {
            match &iface {
                None => {},
                Some(name) => {
                    if str_eq(name.as_str(), "lo") || str_eq(name.as_str(), "lo0") {
                    } else {
                        let f = words_of(line);
                        proof {
                            assert(f@.len() == words(line@).len());
                        }
                        if f.len() >= 2 {
                            assert(f@[0]@ == words(line@)[0]);
                            assert(f@[1]@ == words(line@)[1]);
                            if str_eq(f[0].as_str(), "inet") && !starts_with(
                                f[1].as_str(),
                                "127.",
                            ) {
                                let mut r = name.clone();
                                push_char(&mut r, ' ');
                                push_str(&mut r, f[1].as_str());
                                return Some(r);
                            }
                        }
                    }
                },
            }
        }
        i = i + 1;
    }
    None
}

/// Whether an interface name looks like a wired port: not the loopback and
/// not a wireless, container, bridge or tunnel device.
pub open spec fn likely_ethernet(iface: Seq<char>) -> bool {
    &&& iface != "lo"@
    &&& !has_prefix(iface, "wl"@)
    &&& !has_prefix(iface, "docker"@)
    &&& !has_prefix(iface, "veth"@)
    &&& !has_prefix(iface, "br-"@)
    &&& !has_prefix(iface, "tun"@)
    &&& !has_prefix(iface, "tap"@)
}

/// Whether an interface name looks like a wired port.
pub fn is_likely_ethernet_iface(iface: &str) -> (r: bool)
    ensures
        r == likely_ethernet(iface@),
{
    !str_eq(iface, "lo") && !starts_with(iface, "wl") && !starts_with(iface, "docker")
        && !starts_with(iface, "veth") && !starts_with(iface, "br-") && !starts_with(iface, "tun")
        && !starts_with(iface, "tap")
}

/// What `/sys/class/net/<name>` holds of one interface: the contents of its
/// `type`, `carrier` and `operstate` files, where they could be read.
pub struct InterfaceState {
    pub name: String,
    pub kind: Option<String>,
    pub carrier: Option<String>,
    pub operstate: Option<String>,
}

/// Whether an optional file's trimmed contents are `t`.
pub open spec fn trimmed_is(o: Option<String>, t: Seq<char>) -> bool {
    match o {
        Some(x) => trimmed(x@) == t,
        None => false,
    }
}

/// An interface that counts as a wired port: its name looks like one and
/// its `type` is 1 (Ethernet).
pub open spec fn is_wired(i: InterfaceState) -> bool {
    likely_ethernet(i.name@) && trimmed_is(i.kind, "1"@)
}

/// A port whose link is up: carrier 1 or operstate `up`.
pub open spec fn is_link_up(i: InterfaceState) -> bool {
    trimmed_is(i.carrier, "1"@) || trimmed_is(i.operstate, "up"@)
}

/// The state of the wired network.
pub enum EthernetLink {
    /// No wired port was seen.
    NoEthernet,
    /// Wired ports exist and none has a link.
    Down,
    /// The first wired port with a link.
    Up(String),
}

/// The wired-network state, with the port name taken as characters.
pub ghost enum LinkView {
    NoEthernet,
    Down,
    Up(Seq<char>),
}

impl View for EthernetLink {
    type V = LinkView;

    open spec fn view(&self) -> LinkView {
        match self {
            EthernetLink::NoEthernet => LinkView::NoEthernet,
            EthernetLink::Down => LinkView::Down,
            EthernetLink::Up(n) => LinkView::Up(n@),
        }
    }
}

/// The wired-network state of the interfaces `s`, in the order given: the
/// first wired port with a link is up; otherwise the network is down when a
/// wired port exists.
pub open spec fn linux_link(s: Seq<InterfaceState>) -> LinkView
    decreases s.len(),
{
    if s.len() == 0 {
        LinkView::NoEthernet
    } else if is_wired(s[0]) && is_link_up(s[0]) {
        LinkView::Up(s[0].name@)
    } else {
        let r = linux_link(s.drop_first());
        if is_wired(s[0]) && r is NoEthernet {
            LinkView::Down
        } else {
            r
        }
    }
}

/// Whether an optional file's trimmed contents are `t`.
fn trimmed_equals(o: &Option<String>, t: &str) -> (r: bool)
    ensures
        r == trimmed_is(*o, t@),
{
    match o {
        Some(x) => str_eq(crate::text::trim_str(x.as_str()), t),
        None => false,
    }
}

/// The wired-network state of the interfaces in `/sys/class/net`, in the
/// order they were listed.
pub fn linux_ethernet_link(ifaces: &Vec<InterfaceState>) -> (r: EthernetLink)
    ensures
        r@ == linux_link(ifaces@),
{
    let n = ifaces.len();
    let mut seen = false;
    let mut i: usize = 0;
    assert(ifaces@.subrange(0, n as int) =~= ifaces@);
    while i < n
        invariant
            n == ifaces@.len(),
            i <= n,
            linux_link(ifaces@) == (if seen && linux_link(ifaces@.subrange(i as int, n as int))
                is NoEthernet {
                LinkView::Down
            } else {
                linux_link(ifaces@.subrange(i as int, n as int))
            }),
        decreases n - i,
    {
        let it = &ifaces[i];
        let ghost t = ifaces@.subrange(i as int, n as int);
        assert(t[0] == ifaces@[i as int]);
        assert(t.drop_first() =~= ifaces@.subrange(i + 1, n as int));
        let wired = is_likely_ethernet_iface(it.name.as_str()) && trimmed_equals(&it.kind, "1");
        let up = trimmed_equals(&it.carrier, "1") || trimmed_equals(&it.operstate, "up");
        if wired && up {
            return EthernetLink::Up(it.name.clone());
        }
        if wired {
            seen = true;
        }
        i = i + 1;
    }
    if seen {
        EthernetLink::Down
    } else {
        EthernetLink::NoEthernet
    }
}

/// The header text for a wired port with a link, and its address if it has
/// one.
pub open spec fn connected_text(iface: Seq<char>, addr: Option<Seq<char>>) -> Seq<char> {
    match addr {
        Some(a) => "connected ("@ + iface + " "@ + a + ")"@,
        None => "connected ("@ + iface + ", waiting for DHCP)"@,
    }
}

/// The header text for a wired port with a link.
pub fn connected_status(iface: &str, addr: &Option<String>) -> (r: String)
    ensures
        r@ == connected_text(iface@, opt_str(*addr)),
{
    let mut r = String::new();
    push_str(&mut r, "connected (");
    push_str(&mut r, iface);
    match addr {
        Some(a) => {
            push_str(&mut r, " ");
            push_str(&mut r, a.as_str());
            push_str(&mut r, ")");
        },
        None => {
            push_str(&mut r, ", waiting for DHCP)");
        },
    }
    assert(r@ =~= connected_text(iface@, opt_str(*addr)));
    r
}

/// The Linux wired-network text: none when no wired port exists, "not
/// connected" when none has a link, else the port with a link and `addr`,
/// the address read for it.
pub open spec fn linux_status_text(link: LinkView, addr: Option<Seq<char>>) -> Option<Seq<char>> {
    match link {
        LinkView::NoEthernet => None,
        LinkView::Down => Some("not connected"@),
        LinkView::Up(name) => Some(connected_text(name, addr)),
    }
}

/// The Linux wired-network text for `link`; `addr` is the address read for
/// the port that is up.
pub fn linux_ethernet_status(link: &EthernetLink, addr: &Option<String>) -> (r: Option<String>)
    ensures
        opt_str(r) == linux_status_text(link@, opt_str(*addr)),
{
    match link {
        EthernetLink::NoEthernet => None,
        EthernetLink::Down => Some(owned("not connected")),
        EthernetLink::Up(name) => Some(connected_status(name.as_str(), addr)),
    }
}

/// The header's wired-network text: the Linux answer, else the macOS one,
/// else "not connected" without an address and "network online (ADDR)"
/// with one.
pub open spec fn ethernet_text(
    linux: Option<Seq<char>>,
    macos: Option<Seq<char>>,
    primary_ip: Seq<char>,
) -> Seq<char> {
    match linux {
        Some(t) => t,
        None => match macos {
            Some(t) => t,
            None => if primary_ip == "no IPv4"@ {
                "not connected"@
            } else {
                "network online ("@ + primary_ip + ")"@
            },
        },
    }
}

/// The header's wired-network text.
pub fn ethernet_status(linux: Option<String>, macos: Option<String>, primary_ip: &str) -> (r: String)
    ensures
        r@ == ethernet_text(opt_str(linux), opt_str(macos), primary_ip@),
{
    match linux {
        Some(t) => t,
        None => match macos {
            Some(t) => t,
            None => {
                if str_eq(primary_ip, "no IPv4") {
                    owned("not connected")
                } else {
                    let mut r = owned("network online (");
                    push_str(&mut r, primary_ip);
                    push_str(&mut r, ")");
                    r
                }
            },
        },
    }
}

/// The text a command printed, trimmed; none when nothing is left.
pub fn command_text(stdout: &str) -> (r: Option<String>)
    ensures
        opt_str(r) == (if trimmed(stdout@).len() == 0 {
            None
        } else {
            Some(trimmed(stdout@))
        }),
{
    let t = trim(stdout);
    if t.unicode_len() == 0 {
        None
    } else {
        Some(t)
    }
}

/// The header's status from what was read: the clock text, the primary
/// address and the wired-network answers of Linux and macOS.
pub open spec fn system_status_text(
    time: Option<Seq<char>>,
    ip: Option<Seq<char>>,
    linux: Option<Seq<char>>,
    macos: Option<Seq<char>>,
) -> crate::app::StatusView {
    let ip_text = match ip {
        Some(a) => a,
        None => "no IPv4"@,
    };
    crate::app::StatusView {
        time: match time {
            Some(t) => t,
            None => "time unavailable"@,
        },
        ip: ip_text,
        ethernet: ethernet_text(linux, macos, ip_text),
    }
}

/// The header's status from what was read.
pub fn system_status_of(
    time: Option<String>,
    ip: Option<String>,
    linux: Option<String>,
    macos: Option<String>,
) -> (r: SystemStatus)
    ensures
        r@ == system_status_text(opt_str(time), opt_str(ip), opt_str(linux), opt_str(macos)),
{
    let ip_text = match ip {
        Some(a) => a,
        None => owned("no IPv4"),
    };
    let ethernet = ethernet_status(linux, macos, ip_text.as_str());
    let time_text = match time {
        Some(t) => t,
        None => owned("time unavailable"),
    };
    SystemStatus { time: time_text, ip: ip_text, ethernet }
}

/// The pieces of `s` between blank-line separators (`split("\n\n")`):
/// each separator is the leftmost pair of newlines not yet used.
pub open spec fn paragraphs(s: Seq<char>) -> Seq<Seq<char>>
    decreases s.len(),
{
    if s.len() == 0 {
        seq![Seq::empty()]
    } else if s.len() >= 2 && s[0] == '\n' && s[1] == '\n' {
        seq![Seq::<char>::empty()] + paragraphs(s.subrange(2, s.len() as int))
    } else {
        let r = paragraphs(s.drop_first());
        r.update(0, seq![s[0]] + r[0])
    }
}

proof fn lemma_paragraphs_nonempty(s: Seq<char>)
    ensures
        paragraphs(s).len() >= 1,
    decreases s.len(),
{
    if s.len() >= 2 && s[0] == '\n' && s[1] == '\n' {
        lemma_paragraphs_nonempty(s.subrange(2, s.len() as int));
    } else if s.len() > 0 {
        lemma_paragraphs_nonempty(s.drop_first());
    }
}

/// The pieces already cut, `out`, followed by the pieces of the rest, `r`,
/// whose first piece continues the last one cut.
pub open spec fn join_pieces(out: Seq<Seq<char>>, r: Seq<Seq<char>>) -> Seq<Seq<char>> {
    out.drop_last() + seq![out.last() + r[0]] + r.drop_first()
}

/// The pieces of `s` between blank-line separators.
pub fn paragraphs_of(s: &str) -> (r: Vec<String>)
    ensures
        r@.map_values(|x: String| x@) == paragraphs(s@),
{
    let v = chars_of(s);
    let n = v.len();
    let mut out: Vec<String> = Vec::new();
    out.push(String::new());
    let mut i: usize = 0;
    proof {
        lemma_paragraphs_nonempty(s@);
        let o = out@.map_values(|x: String| x@);
        assert(s@.subrange(0, n as int) =~= s@);
        assert(join_pieces(o, paragraphs(s@)) =~~= paragraphs(s@));
    }
    while i < n
        invariant
            n == v@.len(),
            v@ == s@,
            i <= n,
            out@.len() >= 1,
            paragraphs(s@) == join_pieces(
                out@.map_values(|x: String| x@),
                paragraphs(s@.subrange(i as int, n as int)),
            ),
        decreases n - i,
    {
        let ghost o = out@.map_values(|x: String| x@);
        let ghost t = s@.subrange(i as int, n as int);
        if i + 1 < n && v[i] == '\n' && v[i + 1] == '\n' {
            let ghost t2 = s@.subrange(i + 2, n as int);
            proof {
                assert(t.subrange(2, t.len() as int) =~= t2);
                lemma_paragraphs_nonempty(t2);
            }
            out.push(String::new());
            proof {
                let o2 = out@.map_values(|x: String| x@);
                assert(o2 =~= o.push(Seq::empty()));
                let r2 = paragraphs(t2);
                assert(paragraphs(t) =~= seq![Seq::<char>::empty()] + r2);
                assert(join_pieces(o, paragraphs(t)) =~~= join_pieces(o2, r2));
            }
            i = i + 2;
        } else {
            let c = v[i];
            let ghost t1 = s@.subrange(i + 1, n as int);
            proof {
                assert(t.drop_first() =~= t1);
                assert(t[0] == c);
                lemma_paragraphs_nonempty(t1);
            }
            let mut last = out.pop().unwrap();
            push_char(&mut last, c);
            out.push(last);
            proof {
                let o2 = out@.map_values(|x: String| x@);
                assert(o2 =~= o.update(o.len() - 1, o.last().push(c)));
                let r1 = paragraphs(t1);
                assert(paragraphs(t) == r1.update(0, seq![c] + r1[0]));
                assert(o.last() + (seq![c] + r1[0]) =~= o.last().push(c) + r1[0]);
                assert(join_pieces(o, paragraphs(t)) =~~= join_pieces(o2, r1));
            }
            i = i + 1;
        }
    }
    proof {
        let o = out@.map_values(|x: String| x@);
        assert(s@.subrange(n as int, n as int) =~= Seq::<char>::empty());
        assert(o.last() + Seq::<char>::empty() =~= o.last());
        assert(join_pieces(o, seq![Seq::<char>::empty()]) =~~= o);
    }
    out
}

/// `s` after the prefix `p`, when it starts with it.
pub open spec fn after_prefix(s: Seq<char>, p: Seq<char>) -> Option<Seq<char>> {
    if has_prefix(s, p) {
        Some(s.subrange(p.len() as int, s.len() as int))
    } else {
        None
    }
}

/// `after_prefix` for a fixed prefix, as a function value.
pub open spec fn after_prefix_fn(p: Seq<char>) -> spec_fn(Seq<char>) -> Option<Seq<char>> {
    |l: Seq<char>| after_prefix(l, p)
}

/// The rest of the first line of `lines` that starts with `p`.
fn first_after_prefix(lines: &Vec<String>, p: &str) -> (r: Option<String>)
    ensures
        opt_str(r) == find_map(lines@.map_values(|x: String| x@), after_prefix_fn(p@)),
{
    let ghost ls = lines@.map_values(|x: String| x@);
    let ghost f = after_prefix_fn(p@);
    let mut i: usize = 0;
    while i < lines.len()
        invariant
            i <= lines@.len(),
            ls == lines@.map_values(|x: String| x@),
            f == after_prefix_fn(p@),
            forall|k: int| 0 <= k < i ==> f(#[trigger] ls[k]) is None,
        decreases lines@.len() - i,
    {
        assert(ls[i as int] == lines@[i as int]@);
        assert(f(ls[i as int]) == after_prefix(ls[i as int], p@));
        let e = strip_prefix_of(lines[i].as_str(), p);
        if e.is_some() {
            proof {
                lemma_find_map_skip(ls, f, i as int);
                let rest = ls.subrange(i as int, ls.len() as int);
                assert(rest[0] == ls[i as int]);
            }
            return e;
        }
        i = i + 1;
    }
    proof {
        lemma_find_map_skip(ls, f, i as int);
        assert(ls.subrange(i as int, ls.len() as int).len() == 0);
    }
    None
}

/// Whether a block of `networksetup -listallhardwareports` describes an
/// Ethernet port: its first "Hardware Port: " line names one.
pub open spec fn block_is_ethernet(b: Seq<char>) -> bool {
    match find_map(text_lines(b), after_prefix_fn("Hardware Port: "@)) {
        Some(port) => has_infix(port, "Ethernet"@),
        None => false,
    }
}

/// The device a block names on its first "Device: " line, trimmed.
pub open spec fn block_device(b: Seq<char>) -> Option<Seq<char>> {
    match find_map(text_lines(b), after_prefix_fn("Device: "@)) {
        Some(d) => Some(trimmed(d)),
        None => None,
    }
}

/// The devices of the Ethernet ports among `blocks`, in order.
pub open spec fn ethernet_devices(blocks: Seq<Seq<char>>) -> Seq<Seq<char>>
    decreases blocks.len(),
{
    if blocks.len() == 0 {
        Seq::empty()
    } else {
        let rest = ethernet_devices(blocks.drop_last());
        let b = blocks.last();
        if block_is_ethernet(b) && block_device(b) is Some {
            rest.push(block_device(b)->0)
        } else {
            rest
        }
    }
}

/// The devices of the Ethernet ports in the output of
/// `networksetup -listallhardwareports`, in order.
pub fn macos_ethernet_devices(ports: &str) -> (r: Vec<String>)
    ensures
        r@.map_values(|x: String| x@) == ethernet_devices(paragraphs(ports@)),
{
    let blocks = paragraphs_of(ports);
    let ghost bs = paragraphs(ports@);
    let mut out: Vec<String> = Vec::new();
    let mut i: usize = 0;
    assert(bs.take(0) =~= Seq::<Seq<char>>::empty());
    while i < blocks.len()
        invariant
            i <= blocks@.len(),
            bs == blocks@.map_values(|x: String| x@),
            out@.map_values(|x: String| x@) == ethernet_devices(bs.take(i as int)),
        decreases blocks@.len() - i,
    {
        let b = blocks[i].as_str();
        assert(bs[i as int] == b@);
        assert(bs.take(i + 1).drop_last() =~= bs.take(i as int));
        assert(bs.take(i + 1).last() == b@);
        let lines = lines_of(b);
        let port = first_after_prefix(&lines, "Hardware Port: ");
        let is_ethernet = match &port {
            Some(p) => crate::text::contains(p.as_str(), "Ethernet"),
            None => false,
        };
        if is_ethernet {
            let device = first_after_prefix(&lines, "Device: ");
            match device {
                Some(d) => {
                    let ghost before = out@.map_values(|x: String| x@);
                    out.push(trim(d.as_str()));
                    assert(out@.map_values(|x: String| x@) =~= before.push(trimmed(d@)));
                },
                None => {},
            }
        }
        i = i + 1;
    }
    assert(bs.take(blocks@.len() as int) =~= bs);
    out
}

/// The address an `inet` line of `ifconfig` names.
pub open spec fn inet_entry(l: Seq<char>) -> Option<Seq<char>> {
    let f = words(l);
    if f.len() >= 2 && f[0] == "inet"@ {
        Some(f[1])
    } else {
        None
    }
}

/// `inet_entry` as a function value.
pub open spec fn inet_fn() -> spec_fn(Seq<char>) -> Option<Seq<char>> {
    |l: Seq<char>| inet_entry(l)
}

/// The status of one macOS port from `ifconfig IFACE` output: none unless a
/// line reads "status: active" after its indentation; then connected, with
/// the first `inet` address if there is one.
pub open spec fn macos_iface_text(iface: Seq<char>, text: Seq<char>) -> Option<Seq<char>> {
    let lines = text_lines(text);
    if exists|k: int| 0 <= k < lines.len() && crate::text::trim_front(#[trigger] lines[k])
        == "status: active"@ {
        Some(connected_text(iface, find_map(lines, inet_fn())))
    } else {
        None
    }
}

/// The address of one `inet` line.
fn inet_entry_of(l: &str) -> (r: Option<String>)
    ensures
        opt_str(r) == inet_entry(l@),
{
    let f = words_of(l);
    proof {
        assert(f@.len() == words(l@).len());
    }
    if f.len() < 2 {
        return None;
    }
    assert(f@[0]@ == words(l@)[0]);
    assert(f@[1]@ == words(l@)[1]);
    if str_eq(f[0].as_str(), "inet") {
        Some(f[1].clone())
    } else {
        None
    }
}

/// The address of the first `inet` line of `lines`.
fn first_inet(lines: &Vec<String>) -> (r: Option<String>)
    ensures
        opt_str(r) == find_map(lines@.map_values(|x: String| x@), inet_fn()),
{
    let ghost ls = lines@.map_values(|x: String| x@);
    let ghost f = inet_fn();
    let mut j: usize = 0;
    while j < lines.len()
        invariant
            j <= lines@.len(),
            ls == lines@.map_values(|x: String| x@),
            f == inet_fn(),
            forall|k: int| 0 <= k < j ==> f(#[trigger] ls[k]) is None,
        decreases lines@.len() - j,
    {
        assert(ls[j as int] == lines@[j as int]@);
        assert(f(ls[j as int]) == inet_entry(ls[j as int]));
        let e = inet_entry_of(lines[j].as_str());
        if e.is_some() {
            proof {
                lemma_find_map_skip(ls, f, j as int);
                let rest = ls.subrange(j as int, ls.len() as int);
                assert(rest[0] == ls[j as int]);
            }
            return e;
        }
        j = j + 1;
    }
    proof {
        lemma_find_map_skip(ls, f, j as int);
        assert(ls.subrange(j as int, ls.len() as int).len() == 0);
    }
    None
}

/// The status of one macOS port from the output of `ifconfig IFACE`.
pub fn macos_iface_status(iface: &str, text: &str) -> (r: Option<String>)
    ensures
        opt_str(r) == macos_iface_text(iface@, text@),
{
    let lines = lines_of(text);
    let ghost ls = text_lines(text@);
    let mut active = false;
    let mut i: usize = 0;
    while i < lines.len()
        invariant
            i <= lines@.len(),
            ls == lines@.map_values(|x: String| x@),
            ls == text_lines(text@),
            active == exists|k: int| 0 <= k < i && crate::text::trim_front(#[trigger] ls[k])
                == "status: active"@,
        decreases lines@.len() - i,
    {
        assert(ls[i as int] == lines@[i as int]@);
        let t = crate::text::trim_start_of(lines[i].as_str());
        if str_eq(t.as_str(), "status: active") {
            active = true;
        }
        i = i + 1;
    }
    if !active {
        return None;
    }
    let addr = first_inet(&lines);
    Some(connected_status(iface, &addr))
}

/// The status of the first port in `devs` whose `ifconfig` output (`texts`,
/// none where the command gave nothing) shows it active.
pub open spec fn macos_first_active(devs: Seq<Seq<char>>, texts: Seq<Option<Seq<char>>>) -> Option<
    Seq<char>,
>
    decreases devs.len(),
{
    if devs.len() == 0 || texts.len() == 0 {
        None
    } else {
        let rest = macos_first_active(devs.drop_first(), texts.drop_first());
        match texts[0] {
            Some(t) => match macos_iface_text(devs[0], t) {
                Some(x) => Some(x),
                None => rest,
            },
            None => rest,
        }
    }
}

/// The macOS wired-network text: the first active Ethernet port, else "not
/// connected" when there is an Ethernet port, else none.
pub open spec fn macos_status_text(devs: Seq<Seq<char>>, texts: Seq<Option<Seq<char>>>) -> Option<
    Seq<char>,
> {
    match macos_first_active(devs, texts) {
        Some(x) => Some(x),
        None => if devs.len() > 0 {
            Some("not connected"@)
        } else {
            None
        },
    }
}

/// The macOS wired-network text for the Ethernet devices `devices`, given
/// what `ifconfig` printed for each (`texts[i]` for `devices[i]`).
pub fn macos_ethernet_status(devices: &Vec<String>, texts: &Vec<Option<String>>) -> (r: Option<
    String,
>)
    requires
        devices@.len() == texts@.len(),
    ensures
        opt_str(r) == macos_status_text(
            devices@.map_values(|x: String| x@),
            texts@.map_values(|o: Option<String>| opt_str(o)),
        ),
{
    let ghost ds = devices@.map_values(|x: String| x@);
    let ghost ts = texts@.map_values(|o: Option<String>| opt_str(o));
    let n = devices.len();
    let mut i: usize = 0;
    assert(ds.subrange(0, n as int) =~= ds);
    assert(ts.subrange(0, n as int) =~= ts);
    while i < n
        invariant
            n == devices@.len() == texts@.len(),
            i <= n,
            ds == devices@.map_values(|x: String| x@),
            ts == texts@.map_values(|o: Option<String>| opt_str(o)),
            macos_first_active(ds, ts) == macos_first_active(
                ds.subrange(i as int, n as int),
                ts.subrange(i as int, n as int),
            ),
        decreases n - i,
    {
        let ghost d = ds.subrange(i as int, n as int);
        let ghost t = ts.subrange(i as int, n as int);
        assert(d[0] == devices@[i as int]@);
        assert(t[0] == opt_str(texts@[i as int]));
        assert(d.drop_first() =~= ds.subrange(i + 1, n as int));
        assert(t.drop_first() =~= ts.subrange(i + 1, n as int));
        match &texts[i] {
            Some(text) => {
                let st = macos_iface_status(devices[i].as_str(), text.as_str());
                if st.is_some() {
                    return st;
                }
            },
            None => {},
        }
        i = i + 1;
    }
    if n > 0 {
        Some(owned("not connected"))
    } else {
        None
    }
}

} // verus!
