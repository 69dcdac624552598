//! The versioned measurement messages and their deterministic JSON encoding.
//!
//! Arrays are sorted before encoding and every field is emitted in a fixed
//! order, so equal data encodes to byte-identical JSON whatever order the
//! aggregator's entries arrived in.

use vstd::prelude::*;

use crate::connection::{Connection, LocalSocket, Protocol};
use crate::ip::{ip_rank, network_str_of, socket_addr_str_of, IpAddress, IpNetwork};
use crate::json::{
    json_array_of, json_string_of, append_json_string, comma_join, lemma_comma_join_push, quoted,
};
use crate::machine_id::MachineId;
use crate::os_release::OsRelease;
use crate::text::{chars_le, dec_str_of, dec_u128, push_char, str_le};
use crate::timestamp::Timestamp;
use crate::utilization::{ConnectionInfo, Utilization};
use crate::uuid_value::hyphenated_str_of;

verus! {

/// The latest second the timestamp formatter accepts: the end of year 9999.
pub const MAX_RFC3339_SECS: u64 = 253402300799;

/// The RFC 3339 text of an instant; a deterministic function of the instant.
pub uninterp spec fn rfc3339_of(secs: u64, nanos: u32) -> Seq<char>;

/// Relies on `time::OffsetDateTime::from_unix_timestamp_nanos` and
/// `format(&Rfc3339)`: for an instant between the epoch and year 9999 the
/// conversion and the formatting succeed, and the text is a function of the
/// instant alone.
#[verifier::external_body]
fn format_rfc3339(secs: u64, nanos: u32) -> (r: String)
    requires
        secs <= MAX_RFC3339_SECS,
        nanos < 1_000_000_000,
    ensures
        r@ == rfc3339_of(secs, nanos),
{
    let total: i128 = (secs as i128) * 1_000_000_000 + (nanos as i128);
    let dt = time::OffsetDateTime::from_unix_timestamp_nanos(total).unwrap();
    dt.format(&time::format_description::well_known::Rfc3339).unwrap()
}

/// An instant destined for the wire, rendered as RFC 3339 text.
#[derive(Clone, Copy, PartialEq, Eq, Structural, Debug)]
pub struct TimestampV1(pub Timestamp);

/// A time span destined for the wire, as the decimal seconds text of the
/// span. The text is rendered by the caller: the reference rendering goes
/// through a binary floating-point value, which this crate does not touch.
#[derive(Clone, PartialEq, Eq, Debug)]
pub struct DurationV1(pub String);

/// The reporting window of a utilization message.
#[derive(Clone, PartialEq, Eq, Debug)]
pub struct TimeframeV1 {
    pub start: TimestampV1,
    pub duration: DurationV1,
}

/// A protocol destined for the wire, rendered as `"tcp"` or `"udp"`.
#[derive(Clone, Copy, PartialEq, Eq, Structural, Debug)]
pub struct ProtocolV1(pub Protocol);

/// A byte counter destined for the wire. It is rendered as a decimal string,
/// not a JSON number, so that readers whose numbers are double-precision
/// floats cannot lose precision.
#[derive(Clone, Copy, PartialEq, Eq, Structural, Debug)]
pub struct BytesCount(pub u128);

/// A socket address destined for the wire.
#[derive(Clone, Copy, PartialEq, Eq, Structural, Debug)]
pub struct SocketAddrV1 {
    pub ip: IpAddress,
    pub port: u16,
}

/// One network interface in a configuration message.
#[derive(Clone, PartialEq, Eq, Debug)]
pub struct InterfaceV1 {
    pub name: String,
    pub is_up: bool,
    pub networks: Vec<IpNetwork>,
}

/// One connection's totals in a utilization message.
#[derive(Clone, PartialEq, Eq, Debug)]
pub struct ConnectionV1 {
    pub interface_name: String,
    pub local_socket_address: SocketAddrV1,
    pub remote_socket_address: SocketAddrV1,
    pub protocol: ProtocolV1,
    pub received: BytesCount,
    pub sent: BytesCount,
}

/// One listening socket in a configuration message.
#[derive(Clone, PartialEq, Eq, Debug)]
pub struct OpenSocketV1 {
    pub socket_address: SocketAddrV1,
    pub protocol: ProtocolV1,
    pub process: String,
}

/// The open sockets observed on the host: local sockets and the names of the
/// processes holding them.
#[derive(Clone, PartialEq, Eq, Debug)]
pub struct OpenSockets {
    pub sockets_to_procs: Vec<(LocalSocket, String)>,
}

// ---------------------------------------------------------------------------
// Sort orders
// ---------------------------------------------------------------------------

/// The sort rank of a socket address: family, then address, then port.
pub open spec fn sock_rank(s: SocketAddrV1) -> (int, int, int) {
    (ip_rank(s.ip).0, ip_rank(s.ip).1, s.port as int)
}

/// The sort rank of an address range: family, address, prefix.
pub open spec fn net_rank(n: IpNetwork) -> (int, int, int) {
    (ip_rank(n.address).0, ip_rank(n.address).1, n.prefix as int)
}

/// Lexicographic strict order on rank triples.
pub open spec fn triple_lt(a: (int, int, int), b: (int, int, int)) -> bool {
    a.0 < b.0 || (a.0 == b.0 && (a.1 < b.1 || (a.1 == b.1 && a.2 < b.2)))
}

/// Decides `triple_lt` over socket ranks.
fn sock_lt(a: &SocketAddrV1, b: &SocketAddrV1) -> (r: bool)
    ensures
        r == triple_lt(sock_rank(*a), sock_rank(*b)),
{
    match (&a.ip, &b.ip) {
        (IpAddress::V4(_), IpAddress::V6(_)) => true,
        (IpAddress::V6(_), IpAddress::V4(_)) => false,
        (IpAddress::V4(x), IpAddress::V4(y)) => *x < *y || (*x == *y && a.port < b.port),
        (IpAddress::V6(x), IpAddress::V6(y)) => *x < *y || (*x == *y && a.port < b.port),
    }
}

/// Lexicographic order on address-range lists.
pub open spec fn nets_le(a: Seq<IpNetwork>, b: Seq<IpNetwork>) -> bool
    decreases a.len(),
{
    if a.len() == 0 {
        true
    } else if b.len() == 0 {
        false
    } else if a[0] != b[0] {
        triple_lt(net_rank(a[0]), net_rank(b[0]))
    } else {
        nets_le(a.skip(1), b.skip(1))
    }
}

/// Decides `nets_le`.
fn nets_le_exec(a: &Vec<IpNetwork>, b: &Vec<IpNetwork>) -> (r: bool)
    ensures
        r == nets_le(a@, b@),
{
    let an = a.len();
    let bn = b.len();
    let mut i: usize = 0;
    proof {
        assert(a@.skip(0) =~= a@);
        assert(b@.skip(0) =~= b@);
    }
    loop
        invariant
            i <= an,
            i <= bn,
            an == a@.len(),
            bn == b@.len(),
            nets_le(a@, b@) == nets_le(a@.skip(i as int), b@.skip(i as int)),
        decreases an - i,
    {
        if i == an {
            return true;
        }
        if i == bn {
            return false;
        }
        proof {
            assert(a@.skip(i as int)[0] == a@[i as int]);
            assert(b@.skip(i as int)[0] == b@[i as int]);
            assert(a@.skip(i as int).skip(1) =~= a@.skip(i as int + 1));
            assert(b@.skip(i as int).skip(1) =~= b@.skip(i as int + 1));
        }
        if a[i] != b[i] {
            let na = a[i];
            let nb = b[i];
            return match (&na.address, &nb.address) {
                (IpAddress::V4(_), IpAddress::V6(_)) => true,
                (IpAddress::V6(_), IpAddress::V4(_)) => false,
                (IpAddress::V4(x), IpAddress::V4(y)) => *x < *y || (*x == *y && na.prefix
                    < nb.prefix),
                (IpAddress::V6(x), IpAddress::V6(y)) => *x < *y || (*x == *y && na.prefix
                    < nb.prefix),
            };
        }
        i = i + 1;
    }
}

/// The sort order of configuration-message interfaces: by name, then
/// up-state (down first), then address ranges.
pub open spec fn iface_le(a: InterfaceV1, b: InterfaceV1) -> bool {
    if a.name@ != b.name@ {
        chars_le(a.name@, b.name@)
    } else if a.is_up != b.is_up {
        !a.is_up
    } else {
        nets_le(a.networks@, b.networks@)
    }
}

fn iface_le_exec(a: &InterfaceV1, b: &InterfaceV1) -> (r: bool)
    ensures
        r == iface_le(*a, *b),
{
    if !(a.name == b.name) {
        str_le(a.name.as_str(), b.name.as_str())
    } else if a.is_up != b.is_up {
        !a.is_up
    } else {
        nets_le_exec(&a.networks, &b.networks)
    }
}

/// The sort order of utilization-message connections: by interface name,
/// local address, remote address, protocol, then counters.
pub open spec fn conn_le(a: ConnectionV1, b: ConnectionV1) -> bool {
    if a.interface_name@ != b.interface_name@ {
        chars_le(a.interface_name@, b.interface_name@)
    } else if a.local_socket_address != b.local_socket_address {
        triple_lt(sock_rank(a.local_socket_address), sock_rank(b.local_socket_address))
    } else if a.remote_socket_address != b.remote_socket_address {
        triple_lt(sock_rank(a.remote_socket_address), sock_rank(b.remote_socket_address))
    } else if a.protocol.0 != b.protocol.0 {
        a.protocol.0.spec_rank() < b.protocol.0.spec_rank()
    } else if a.received.0 != b.received.0 {
        a.received.0 < b.received.0
    } else {
        a.sent.0 <= b.sent.0
    }
}

fn conn_le_exec(a: &ConnectionV1, b: &ConnectionV1) -> (r: bool)
    ensures
        r == conn_le(*a, *b),
{
    if !(a.interface_name == b.interface_name) {
        str_le(a.interface_name.as_str(), b.interface_name.as_str())
    } else if a.local_socket_address != b.local_socket_address {
        sock_lt(&a.local_socket_address, &b.local_socket_address)
    } else if a.remote_socket_address != b.remote_socket_address {
        sock_lt(&a.remote_socket_address, &b.remote_socket_address)
    } else if a.protocol.0 != b.protocol.0 {
        a.protocol.0.rank() < b.protocol.0.rank()
    } else if a.received.0 != b.received.0 {
        a.received.0 < b.received.0
    } else {
        a.sent.0 <= b.sent.0
    }
}

/// The sort order of configuration-message open sockets: by socket address,
/// then protocol, then process name.
pub open spec fn open_socket_le(a: OpenSocketV1, b: OpenSocketV1) -> bool {
    if a.socket_address != b.socket_address {
        triple_lt(sock_rank(a.socket_address), sock_rank(b.socket_address))
    } else if a.protocol.0 != b.protocol.0 {
        a.protocol.0.spec_rank() < b.protocol.0.spec_rank()
    } else {
        chars_le(a.process@, b.process@)
    }
}

fn open_socket_le_exec(a: &OpenSocketV1, b: &OpenSocketV1) -> (r: bool)
    ensures
        r == open_socket_le(*a, *b),
{
    if a.socket_address != b.socket_address {
        sock_lt(&a.socket_address, &b.socket_address)
    } else if a.protocol.0 != b.protocol.0 {
        a.protocol.0.rank() < b.protocol.0.rank()
    } else {
        str_le(a.process.as_str(), b.process.as_str())
    }
}

// ---------------------------------------------------------------------------
// Stable insertion sort, one per element type
// ---------------------------------------------------------------------------

/// Inserts `x` after every element that orders no later than it.
pub open spec fn insert_sorted_conn(s: Seq<ConnectionV1>, x: ConnectionV1) -> Seq<ConnectionV1>
    decreases s.len(),
{
    if s.len() == 0 {
        seq![x]
    } else if !conn_le(s[0], x) {
        seq![x] + s
    } else {
        seq![s[0]] + insert_sorted_conn(s.skip(1), x)
    }
}

/// The stable sort of a connection list: each element inserted in turn.
pub open spec fn sort_conns(s: Seq<ConnectionV1>) -> Seq<ConnectionV1>
    decreases s.len(),
{
    if s.len() == 0 {
        Seq::empty()
    } else {
        insert_sorted_conn(sort_conns(s.drop_last()), s.last())
    }
}

proof fn lemma_insert_sorted_conn_at(s: Seq<ConnectionV1>, x: ConnectionV1, i: int)
    requires
        0 <= i <= s.len(),
        forall|j: int| 0 <= j < i ==> conn_le(#[trigger] s[j], x),
        i < s.len() ==> !conn_le(s[i], x),
    ensures
        insert_sorted_conn(s, x) == s.take(i) + seq![x] + s.skip(i),
    decreases i,
{
    if i == 0 {
        assert(insert_sorted_conn(s, x) =~= s.take(0) + seq![x] + s.skip(0));
    } else {
        lemma_insert_sorted_conn_at(s.skip(1), x, i - 1);
        assert(insert_sorted_conn(s, x) =~= s.take(i) + seq![x] + s.skip(i));
    }
}

fn insert_conn(v: &mut Vec<ConnectionV1>, x: ConnectionV1)
    ensures
        final(v)@ == insert_sorted_conn(old(v)@, x),
{
    let n = v.len();
    let mut i: usize = 0;
    while i < n && conn_le_exec(&v[i], &x)
        invariant
            i <= n,
            n == v@.len(),
            v@ == old(v)@,
            forall|j: int| 0 <= j < i ==> conn_le(#[trigger] v@[j], x),
        decreases n - i,
    {
        i = i + 1;
    }
    proof {
        lemma_insert_sorted_conn_at(v@, x, i as int);
    }
    v.insert(i, x);
    proof {
        assert(final(v)@ =~= old(v)@.take(i as int) + seq![x] + old(v)@.skip(i as int));
    }
}

/// Sorts a connection list stably by `conn_le`.
pub fn sort_connections(v: Vec<ConnectionV1>) -> (r: Vec<ConnectionV1>)
    ensures
        r@ == sort_conns(v@),
    decreases v@.len(),
{
    let mut v = v;
    match v.pop() {
        Some(x) => {
            let mut sorted = sort_connections(v);
            insert_conn(&mut sorted, x);
            sorted
        },
        None => {
            let r = Vec::new();
            proof {
                assert(r@ =~= sort_conns(Seq::<ConnectionV1>::empty()));
            }
            r
        },
    }
}

pub open spec fn insert_sorted_iface(s: Seq<InterfaceV1>, x: InterfaceV1) -> Seq<InterfaceV1>
    decreases s.len(),
{
    if s.len() == 0 {
        seq![x]
    } else if !iface_le(s[0], x) {
        seq![x] + s
    } else {
        seq![s[0]] + insert_sorted_iface(s.skip(1), x)
    }
}

pub open spec fn sort_ifaces(s: Seq<InterfaceV1>) -> Seq<InterfaceV1>
    decreases s.len(),
{
    if s.len() == 0 {
        Seq::empty()
    } else {
        insert_sorted_iface(sort_ifaces(s.drop_last()), s.last())
    }
}

proof fn lemma_insert_sorted_iface_at(s: Seq<InterfaceV1>, x: InterfaceV1, i: int)
    requires
        0 <= i <= s.len(),
        forall|j: int| 0 <= j < i ==> iface_le(#[trigger] s[j], x),
        i < s.len() ==> !iface_le(s[i], x),
    ensures
        insert_sorted_iface(s, x) == s.take(i) + seq![x] + s.skip(i),
    decreases i,
{
    if i == 0 {
        assert(insert_sorted_iface(s, x) =~= s.take(0) + seq![x] + s.skip(0));
    } else {
        lemma_insert_sorted_iface_at(s.skip(1), x, i - 1);
        assert(insert_sorted_iface(s, x) =~= s.take(i) + seq![x] + s.skip(i));
    }
}

fn insert_iface(v: &mut Vec<InterfaceV1>, x: InterfaceV1)
    ensures
        final(v)@ == insert_sorted_iface(old(v)@, x),
{
    let n = v.len();
    let mut i: usize = 0;
    while i < n && iface_le_exec(&v[i], &x)
        invariant
            i <= n,
            n == v@.len(),
            v@ == old(v)@,
            forall|j: int| 0 <= j < i ==> iface_le(#[trigger] v@[j], x),
        decreases n - i,
    {
        i = i + 1;
    }
    proof {
        lemma_insert_sorted_iface_at(v@, x, i as int);
    }
    v.insert(i, x);
    proof {
        assert(final(v)@ =~= old(v)@.take(i as int) + seq![x] + old(v)@.skip(i as int));
    }
}

/// Sorts an interface list stably by `iface_le`.
pub fn sort_interfaces(v: Vec<InterfaceV1>) -> (r: Vec<InterfaceV1>)
    ensures
        r@ == sort_ifaces(v@),
    decreases v@.len(),
{
    let mut v = v;
    match v.pop() {
        Some(x) => {
            let mut sorted = sort_interfaces(v);
            insert_iface(&mut sorted, x);
            sorted
        },
        None => {
            let r = Vec::new();
            proof {
                assert(r@ =~= sort_ifaces(Seq::<InterfaceV1>::empty()));
            }
            r
        },
    }
}

pub open spec fn insert_sorted_open_socket(s: Seq<OpenSocketV1>, x: OpenSocketV1) -> Seq<
    OpenSocketV1,
>
    decreases s.len(),
{
    if s.len() == 0 {
        seq![x]
    } else if !open_socket_le(s[0], x) {
        seq![x] + s
    } else {
        seq![s[0]] + insert_sorted_open_socket(s.skip(1), x)
    }
}

pub open spec fn sort_open_sockets_spec(s: Seq<OpenSocketV1>) -> Seq<OpenSocketV1>
    decreases s.len(),
{
    if s.len() == 0 {
        Seq::empty()
    } else {
        insert_sorted_open_socket(sort_open_sockets_spec(s.drop_last()), s.last())
    }
}

proof fn lemma_insert_sorted_open_socket_at(s: Seq<OpenSocketV1>, x: OpenSocketV1, i: int)
    requires
        0 <= i <= s.len(),
        forall|j: int| 0 <= j < i ==> open_socket_le(#[trigger] s[j], x),
        i < s.len() ==> !open_socket_le(s[i], x),
    ensures
        insert_sorted_open_socket(s, x) == s.take(i) + seq![x] + s.skip(i),
    decreases i,
{
    if i == 0 {
        assert(insert_sorted_open_socket(s, x) =~= s.take(0) + seq![x] + s.skip(0));
    } else {
        lemma_insert_sorted_open_socket_at(s.skip(1), x, i - 1);
        assert(insert_sorted_open_socket(s, x) =~= s.take(i) + seq![x] + s.skip(i));
    }
}

fn insert_open_socket(v: &mut Vec<OpenSocketV1>, x: OpenSocketV1)
    ensures
        final(v)@ == insert_sorted_open_socket(old(v)@, x),
{
    let n = v.len();
    let mut i: usize = 0;
    while i < n && open_socket_le_exec(&v[i], &x)
        invariant
            i <= n,
            n == v@.len(),
            v@ == old(v)@,
            forall|j: int| 0 <= j < i ==> open_socket_le(#[trigger] v@[j], x),
        decreases n - i,
    {
        i = i + 1;
    }
    proof {
        lemma_insert_sorted_open_socket_at(v@, x, i as int);
    }
    v.insert(i, x);
    proof {
        assert(final(v)@ =~= old(v)@.take(i as int) + seq![x] + old(v)@.skip(i as int));
    }
}

/// The open-socket entry for one `(local socket, process)` pair.
pub open spec fn open_socket_v1_of(p: (LocalSocket, String)) -> OpenSocketV1 {
    OpenSocketV1 {
        socket_address: SocketAddrV1 { ip: p.0.ip, port: p.0.port },
        protocol: ProtocolV1(p.0.protocol),
        process: p.1,
    }
}

/// The open-socket entries of a socket table, in table order.
pub open spec fn open_sockets_v1_of(s: Seq<(LocalSocket, String)>) -> Seq<OpenSocketV1> {
    s.map_values(|p: (LocalSocket, String)| open_socket_v1_of(p))
}

/// Converts and sorts a socket table.
pub fn sort_open_sockets(v: Vec<(LocalSocket, String)>) -> (r: Vec<OpenSocketV1>)
    ensures
        r@ == sort_open_sockets_spec(open_sockets_v1_of(v@)),
    decreases v@.len(),
{
    let mut v = v;
    let ghost orig = v@;
    match v.pop() {
        Some(p) => {
            let ghost rest = v@;
            let mut sorted = sort_open_sockets(v);
            let x = OpenSocketV1 {
                socket_address: SocketAddrV1 { ip: p.0.ip, port: p.0.port },
                protocol: ProtocolV1(p.0.protocol),
                process: p.1,
            };
            proof {
                assert(open_sockets_v1_of(rest.push((p.0, p.1))).drop_last() =~= open_sockets_v1_of(
                    rest,
                ));
                assert(open_sockets_v1_of(rest.push((p.0, p.1))).last() == x);
            }
            insert_open_socket(&mut sorted, x);
            proof {
                assert(rest.push((p.0, p.1)) =~= orig);
            }
            sorted
        },
        None => {
            let r = Vec::new();
            proof {
                assert(open_sockets_v1_of(v@) =~= Seq::<OpenSocketV1>::empty());
                assert(r@ =~= sort_open_sockets_spec(open_sockets_v1_of(v@)));
            }
            r
        },
    }
}

/// The utilization-message entry for one aggregator entry.
pub open spec fn connection_v1_of(p: (Connection, ConnectionInfo)) -> ConnectionV1 {
    ConnectionV1 {
        interface_name: p.1.interface_name,
        local_socket_address: SocketAddrV1 { ip: p.0.local_socket.ip, port: p.0.local_socket.port },
        remote_socket_address: SocketAddrV1 {
            ip: p.0.remote_socket.ip,
            port: p.0.remote_socket.port,
        },
        protocol: ProtocolV1(p.0.local_socket.protocol),
        received: BytesCount(p.1.total_bytes_downloaded),
        sent: BytesCount(p.1.total_bytes_uploaded),
    }
}

/// The utilization-message entries of an aggregator's list, in list order.
pub open spec fn connections_v1_of(s: Seq<(Connection, ConnectionInfo)>) -> Seq<ConnectionV1> {
    s.map_values(|p: (Connection, ConnectionInfo)| connection_v1_of(p))
}

/// Converts and sorts an aggregator's entries.
pub fn sort_aggregated_connections(v: Vec<(Connection, ConnectionInfo)>) -> (r: Vec<ConnectionV1>)
    ensures
        r@ == sort_conns(connections_v1_of(v@)),
    decreases v@.len(),
{
    let mut v = v;
    let ghost orig = v@;
    match v.pop() {
        Some(p) => {
            let ghost rest = v@;
            let mut sorted = sort_aggregated_connections(v);
            let x = ConnectionV1 {
                interface_name: p.1.interface_name,
                local_socket_address: SocketAddrV1 {
                    ip: p.0.local_socket.ip,
                    port: p.0.local_socket.port,
                },
                remote_socket_address: SocketAddrV1 {
                    ip: p.0.remote_socket.ip,
                    port: p.0.remote_socket.port,
                },
                protocol: ProtocolV1(p.0.local_socket.protocol),
                received: BytesCount(p.1.total_bytes_downloaded),
                sent: BytesCount(p.1.total_bytes_uploaded),
            };
            proof {
                assert(connections_v1_of(rest.push((p.0, p.1))).drop_last() =~= connections_v1_of(
                    rest,
                ));
                assert(connections_v1_of(rest.push((p.0, p.1))).last() == x);
            }
            insert_conn(&mut sorted, x);
            proof {
                assert(rest.push((p.0, p.1)) =~= orig);
            }
            sorted
        },
        None => {
            let r = Vec::new();
            proof {
                assert(connections_v1_of(v@) =~= Seq::<ConnectionV1>::empty());
                assert(r@ =~= sort_conns(connections_v1_of(v@)));
            }
            r
        },
    }
}

// ---------------------------------------------------------------------------
// JSON fragments
// ---------------------------------------------------------------------------

/// The JSON object for one interface.
pub open spec fn iface_json_of(i: InterfaceV1) -> Seq<char> {
    "{\"name\":"@ + json_string_of(i.name@) + ",\"is_up\":"@ + (if i.is_up {
        "true"@
    } else {
        "false"@
    }) + ",\"networks\":"@ + json_array_of(networks_json_items(i.networks@)) + "}"@
}

/// The quoted text of each address range.
pub open spec fn networks_json_items(s: Seq<IpNetwork>) -> Seq<Seq<char>> {
    s.map_values(|n: IpNetwork| quoted(network_str_of(n)))
}

/// The JSON object for each interface.
pub open spec fn ifaces_json_items(s: Seq<InterfaceV1>) -> Seq<Seq<char>> {
    s.map_values(|i: InterfaceV1| iface_json_of(i))
}

/// The JSON object for one open socket.
pub open spec fn open_socket_json_of(s: OpenSocketV1) -> Seq<char> {
    "{\"socket_address\":"@ + quoted(socket_addr_str_of(s.socket_address.ip, s.socket_address.port))
        + ",\"protocol\":"@ + quoted(s.protocol.0.spec_name()) + ",\"process\":"@ + json_string_of(
        s.process@,
    ) + "}"@
}

/// The JSON object for each open socket.
pub open spec fn open_sockets_json_items(s: Seq<OpenSocketV1>) -> Seq<Seq<char>> {
    s.map_values(|x: OpenSocketV1| open_socket_json_of(x))
}

/// The JSON object for one connection's totals.
pub open spec fn conn_json_of(c: ConnectionV1) -> Seq<char> {
    "{\"interface_name\":"@ + json_string_of(c.interface_name@) + ",\"local_socket_address\":"@
        + quoted(socket_addr_str_of(c.local_socket_address.ip, c.local_socket_address.port))
        + ",\"remote_socket_address\":"@ + quoted(
        socket_addr_str_of(c.remote_socket_address.ip, c.remote_socket_address.port),
    ) + ",\"protocol\":"@ + quoted(c.protocol.0.spec_name()) + ",\"received\":"@ + quoted(
        dec_str_of(c.received.0 as nat),
    ) + ",\"sent\":"@ + quoted(dec_str_of(c.sent.0 as nat)) + "}"@
}

/// The JSON object for each connection.
pub open spec fn conns_json_items(s: Seq<ConnectionV1>) -> Seq<Seq<char>> {
    s.map_values(|c: ConnectionV1| conn_json_of(c))
}

/// Appends `s` between quotes, unescaped.
fn append_quoted_str(out: &mut String, s: &str)
    ensures
        final(out)@ == old(out)@ + quoted(s@),
{
    push_char(out, '"');
    out.append(s);
    push_char(out, '"');
    proof {
        assert(final(out)@ =~= old(out)@ + quoted(s@));
    }
}

/// Appends the quoted text of a socket address.
fn append_socket_addr(out: &mut String, s: &SocketAddrV1)
    ensures
        final(out)@ == old(out)@ + quoted(socket_addr_str_of(s.ip, s.port)),
{
    let text = crate::ip::socket_addr_string(&s.ip, s.port);
    append_quoted_str(out, text.as_str());
}

/// Appends the array of quoted address ranges.
fn append_networks(out: &mut String, v: &Vec<IpNetwork>)
    ensures
        final(out)@ == old(out)@ + json_array_of(networks_json_items(v@)),
{
    let ghost items = networks_json_items(v@);
    push_char(out, '[');
    let n = v.len();
    let mut i: usize = 0;
    proof {
        assert(items.take(0) =~= Seq::<Seq<char>>::empty());
    }
    while i < n
        invariant
            i <= n,
            n == v@.len(),
            items == networks_json_items(v@),
            out@ == old(out)@ + seq!['['] + comma_join(items.take(i as int)),
        decreases n - i,
    {
        if i > 0 {
            push_char(out, ',');
        }
        let text = crate::ip::network_string(&v[i]);
        append_quoted_str(out, text.as_str());
        proof {
            assert(items.take(i as int + 1) =~= items.take(i as int).push(items[i as int]));
            lemma_comma_join_push(items.take(i as int), items[i as int]);
            assert(out@ =~= old(out)@ + seq!['['] + comma_join(items.take(i as int + 1)));
        }
        i = i + 1;
    }
    push_char(out, ']');
    proof {
        assert(items.take(n as int) =~= items);
        assert(final(out)@ =~= old(out)@ + json_array_of(items));
    }
}

/// Appends the JSON object of one interface.
fn append_iface(out: &mut String, i: &InterfaceV1)
    ensures
        final(out)@ == old(out)@ + iface_json_of(*i),
{
    out.append("{\"name\":");
    append_json_string(out, i.name.as_str());
    out.append(",\"is_up\":");
    if i.is_up {
        out.append("true");
    } else {
        out.append("false");
    }
    out.append(",\"networks\":");
    append_networks(out, &i.networks);
    out.append("}");
    proof {
        assert(final(out)@ =~= old(out)@ + iface_json_of(*i));
    }
}

/// Appends the array of interface objects.
fn append_ifaces(out: &mut String, v: &Vec<InterfaceV1>)
    ensures
        final(out)@ == old(out)@ + json_array_of(ifaces_json_items(v@)),
{
    let ghost items = ifaces_json_items(v@);
    push_char(out, '[');
    let n = v.len();
    let mut i: usize = 0;
    proof {
        assert(items.take(0) =~= Seq::<Seq<char>>::empty());
    }
    while i < n
        invariant
            i <= n,
            n == v@.len(),
            items == ifaces_json_items(v@),
            out@ == old(out)@ + seq!['['] + comma_join(items.take(i as int)),
        decreases n - i,
    {
        if i > 0 {
            push_char(out, ',');
        }
        append_iface(out, &v[i]);
        proof {
            assert(items.take(i as int + 1) =~= items.take(i as int).push(items[i as int]));
            lemma_comma_join_push(items.take(i as int), items[i as int]);
            assert(out@ =~= old(out)@ + seq!['['] + comma_join(items.take(i as int + 1)));
        }
        i = i + 1;
    }
    push_char(out, ']');
    proof {
        assert(items.take(n as int) =~= items);
        assert(final(out)@ =~= old(out)@ + json_array_of(items));
    }
}

/// Appends the JSON object of one open socket.
fn append_open_socket(out: &mut String, s: &OpenSocketV1)
    ensures
        final(out)@ == old(out)@ + open_socket_json_of(*s),
{
    out.append("{\"socket_address\":");
    append_socket_addr(out, &s.socket_address);
    out.append(",\"protocol\":");
    append_quoted_str(out, s.protocol.0.name());
    out.append(",\"process\":");
    append_json_string(out, s.process.as_str());
    out.append("}");
    proof {
        assert(final(out)@ =~= old(out)@ + open_socket_json_of(*s));
    }
}

/// Appends the array of open-socket objects.
fn append_open_sockets(out: &mut String, v: &Vec<OpenSocketV1>)
    ensures
        final(out)@ == old(out)@ + json_array_of(open_sockets_json_items(v@)),
{
    let ghost items = open_sockets_json_items(v@);
    push_char(out, '[');
    let n = v.len();
    let mut i: usize = 0;
    proof {
        assert(items.take(0) =~= Seq::<Seq<char>>::empty());
    }
    while i < n
        invariant
            i <= n,
            n == v@.len(),
            items == open_sockets_json_items(v@),
            out@ == old(out)@ + seq!['['] + comma_join(items.take(i as int)),
        decreases n - i,
    {
        if i > 0 {
            push_char(out, ',');
        }
        append_open_socket(out, &v[i]);
        proof {
            assert(items.take(i as int + 1) =~= items.take(i as int).push(items[i as int]));
            lemma_comma_join_push(items.take(i as int), items[i as int]);
            assert(out@ =~= old(out)@ + seq!['['] + comma_join(items.take(i as int + 1)));
        }
        i = i + 1;
    }
    push_char(out, ']');
    proof {
        assert(items.take(n as int) =~= items);
        assert(final(out)@ =~= old(out)@ + json_array_of(items));
    }
}

/// Appends the JSON object of one connection.
fn append_conn(out: &mut String, c: &ConnectionV1)
    ensures
        final(out)@ == old(out)@ + conn_json_of(*c),
{
    out.append("{\"interface_name\":");
    append_json_string(out, c.interface_name.as_str());
    out.append(",\"local_socket_address\":");
    append_socket_addr(out, &c.local_socket_address);
    out.append(",\"remote_socket_address\":");
    append_socket_addr(out, &c.remote_socket_address);
    out.append(",\"protocol\":");
    append_quoted_str(out, c.protocol.0.name());
    out.append(",\"received\":");
    let received = dec_u128(c.received.0);
    append_quoted_str(out, received.as_str());
    out.append(",\"sent\":");
    let sent = dec_u128(c.sent.0);
    append_quoted_str(out, sent.as_str());
    out.append("}");
    proof {
        assert(final(out)@ =~= old(out)@ + conn_json_of(*c));
    }
}

/// Appends the array of connection objects.
fn append_conns(out: &mut String, v: &Vec<ConnectionV1>)
    ensures
        final(out)@ == old(out)@ + json_array_of(conns_json_items(v@)),
{
    let ghost items = conns_json_items(v@);
    push_char(out, '[');
    let n = v.len();
    let mut i: usize = 0;
    proof {
        assert(items.take(0) =~= Seq::<Seq<char>>::empty());
    }
    while i < n
        invariant
            i <= n,
            n == v@.len(),
            items == conns_json_items(v@),
            out@ == old(out)@ + seq!['['] + comma_join(items.take(i as int)),
        decreases n - i,
    {
        if i > 0 {
            push_char(out, ',');
        }
        append_conn(out, &v[i]);
        proof {
            assert(items.take(i as int + 1) =~= items.take(i as int).push(items[i as int]));
            lemma_comma_join_push(items.take(i as int), items[i as int]);
            assert(out@ =~= old(out)@ + seq!['['] + comma_join(items.take(i as int + 1)));
        }
        i = i + 1;
    }
    push_char(out, ']');
    proof {
        assert(items.take(n as int) =~= items);
        assert(final(out)@ =~= old(out)@ + json_array_of(items));
    }
}

// ---------------------------------------------------------------------------
// Messages
// ---------------------------------------------------------------------------

/// The network-configuration measurement: the host's identity and its
/// interfaces and open sockets at one instant.
#[derive(Clone, PartialEq, Eq, Debug)]
pub struct NetworkConfigurationV1MeasurementMessage {
    pub machine_id: MachineId,
    pub timestamp: TimestampV1,
    pub maybe_os_release: Option<OsRelease>,
    pub hostname: String,
    pub interfaces: Vec<InterfaceV1>,
    pub open_sockets: Vec<OpenSocketV1>,
}

impl NetworkConfigurationV1MeasurementMessage {
    /// Builds the message, sorting the interface and open-socket lists.
    pub fn from(
        machine_id: MachineId,
        timestamp: Timestamp,
        maybe_os_release: Option<OsRelease>,
        hostname: String,
        network_interfaces: Vec<InterfaceV1>,
        open_sockets: OpenSockets,
    ) -> (r: NetworkConfigurationV1MeasurementMessage)
        ensures
            r.machine_id == machine_id,
            r.timestamp == TimestampV1(timestamp),
            r.maybe_os_release == maybe_os_release,
            r.hostname == hostname,
            r.interfaces@ == sort_ifaces(network_interfaces@),
            r.open_sockets@ == sort_open_sockets_spec(
                open_sockets_v1_of(open_sockets.sockets_to_procs@),
            ),
    {
        let interfaces = sort_interfaces(network_interfaces);
        let open_sockets = sort_open_sockets(open_sockets.sockets_to_procs);
        NetworkConfigurationV1MeasurementMessage {
            machine_id,
            timestamp: TimestampV1(timestamp),
            maybe_os_release,
            hostname,
            interfaces,
            open_sockets,
        }
    }

    /// The timestamp lies in the formatter's range.
    pub open spec fn encodable(self) -> bool {
        self.timestamp.0.secs <= MAX_RFC3339_SECS && self.timestamp.0.nanos < 1_000_000_000
    }
}

/// The whole configuration message as JSON text.
pub open spec fn config_message_json_of(m: NetworkConfigurationV1MeasurementMessage) -> Seq<char> {
    "{\"type\":\"bandwhichd/measurement/agent-network-configuration/v1\",\"content\":{\"machine_id\":\""@
        + hyphenated_str_of(m.machine_id.secure_uuid.value) + "\",\"timestamp\":\""@ + rfc3339_of(
        m.timestamp.0.secs,
        m.timestamp.0.nanos,
    ) + "\",\"maybe_os_release\":"@ + (match m.maybe_os_release {
        Option::None => "null"@,
        Option::Some(o) => json_string_of(o.spec_contents()),
    }) + ",\"hostname\":"@ + json_string_of(m.hostname@) + ",\"interfaces\":"@ + json_array_of(
        ifaces_json_items(m.interfaces@),
    ) + ",\"open_sockets\":"@ + json_array_of(open_sockets_json_items(m.open_sockets@)) + "}}"@
}

/// The network-utilization measurement: per-connection byte totals over one
/// reporting window.
#[derive(Clone, PartialEq, Eq, Debug)]
pub struct NetworkUtilizationV1MeasurementMessage {
    pub machine_id: MachineId,
    pub timeframe: TimeframeV1,
    pub connections: Vec<ConnectionV1>,
}

impl NetworkUtilizationV1MeasurementMessage {
    /// Builds the message from a finished window, sorting the connection
    /// list. The window's span in seconds is passed as text (see
    /// `DurationV1`).
    pub fn from(
        machine_id: MachineId,
        utilization: Utilization,
        duration_seconds_text: String,
    ) -> (r: NetworkUtilizationV1MeasurementMessage)
        ensures
            r.machine_id == machine_id,
            r.timeframe == (TimeframeV1 {
                start: TimestampV1(utilization.start),
                duration: DurationV1(duration_seconds_text),
            }),
            r.connections@ == sort_conns(connections_v1_of(utilization.entries@)),
    {
        let connections = sort_aggregated_connections(utilization.entries);
        NetworkUtilizationV1MeasurementMessage {
            machine_id,
            timeframe: TimeframeV1 {
                start: TimestampV1(utilization.start),
                duration: DurationV1(duration_seconds_text),
            },
            connections,
        }
    }

    /// The window start lies in the formatter's range.
    pub open spec fn encodable(self) -> bool {
        self.timeframe.start.0.secs <= MAX_RFC3339_SECS && self.timeframe.start.0.nanos
            < 1_000_000_000
    }
}

/// The whole utilization message as JSON text.
pub open spec fn util_message_json_of(m: NetworkUtilizationV1MeasurementMessage) -> Seq<char> {
    "{\"type\":\"bandwhichd/measurement/agent-network-utilization/v1\",\"content\":{\"machine_id\":\""@
        + hyphenated_str_of(m.machine_id.secure_uuid.value) + "\",\"timeframe\":\""@ + rfc3339_of(
        m.timeframe.start.0.secs,
        m.timeframe.start.0.nanos,
    ) + "/PT"@ + m.timeframe.duration.0@ + "S\",\"connections\":"@ + json_array_of(
        conns_json_items(m.connections@),
    ) + "}}"@
}

/// One outbound message: the schema-tagged union of the two measurements.
#[derive(Clone, PartialEq, Eq, Debug)]
pub enum Message {
    NetworkConfigurationV1Measurement(NetworkConfigurationV1MeasurementMessage),
    NetworkUtilizationV1Measurement(NetworkUtilizationV1MeasurementMessage),
}

/// The JSON text of a message.
pub open spec fn message_json_of(m: Message) -> Seq<char> {
    match m {
        Message::NetworkConfigurationV1Measurement(c) => config_message_json_of(c),
        Message::NetworkUtilizationV1Measurement(u) => util_message_json_of(u),
    }
}

impl Message {
    pub open spec fn encodable(self) -> bool {
        match self {
            Message::NetworkConfigurationV1Measurement(c) => c.encodable(),
            Message::NetworkUtilizationV1Measurement(u) => u.encodable(),
        }
    }

    /// Encodes the message: a deterministic function of the message value.
    pub fn to_json(&self) -> (r: String)
        requires
            self.encodable(),
        ensures
            r@ == message_json_of(*self),
    {
        match self {
            Message::NetworkConfigurationV1Measurement(c) => {
                let mut out = String::from_str(
                    "{\"type\":\"bandwhichd/measurement/agent-network-configuration/v1\",\"content\":{\"machine_id\":\"",
                );
                let uuid_text = c.machine_id.secure_uuid.hyphenated();
                out.append(uuid_text.as_str());
                out.append("\",\"timestamp\":\"");
                let ts = format_rfc3339(c.timestamp.0.secs, c.timestamp.0.nanos);
                out.append(ts.as_str());
                out.append("\",\"maybe_os_release\":");
                match &c.maybe_os_release {
                    Option::None => {
                        out.append("null");
                    },
                    Option::Some(o) => {
                        append_json_string(&mut out, o.contents_str());
                    },
                }
                out.append(",\"hostname\":");
                append_json_string(&mut out, c.hostname.as_str());
                out.append(",\"interfaces\":");
                append_ifaces(&mut out, &c.interfaces);
                out.append(",\"open_sockets\":");
                append_open_sockets(&mut out, &c.open_sockets);
                out.append("}}");
                proof {
                    assert(out@ =~= message_json_of(*self));
                }
                out
            },
            Message::NetworkUtilizationV1Measurement(u) => {
                let mut out = String::from_str(
                    "{\"type\":\"bandwhichd/measurement/agent-network-utilization/v1\",\"content\":{\"machine_id\":\"",
                );
                let uuid_text = u.machine_id.secure_uuid.hyphenated();
                out.append(uuid_text.as_str());
                out.append("\",\"timeframe\":\"");
                let ts = format_rfc3339(u.timeframe.start.0.secs, u.timeframe.start.0.nanos);
                out.append(ts.as_str());
                out.append("/PT");
                out.append(u.timeframe.duration.0.as_str());
                out.append("S\",\"connections\":");
                append_conns(&mut out, &u.connections);
                out.append("}}");
                proof {
                    assert(out@ =~= message_json_of(*self));
                }
                out
            },
        }
    }
}

/// Message determinism: the encoded text is a function of the message value
/// alone, so encoding equal data twice gives character-identical JSON,
/// whatever order the underlying maps were walked in — the constructors sort
/// every list.
pub proof fn lemma_message_determinism(m1: Message, m2: Message)
    requires
        m1 == m2,
    ensures
        message_json_of(m1) == message_json_of(m2),
{
}


} // verus!
