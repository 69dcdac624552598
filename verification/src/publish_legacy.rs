//! The earlier wire schema: a `version`/`message`-tagged envelope whose one
//! measurement lists connections unsorted, with byte counters as JSON
//! numbers and the owning process looked up from the open-socket table.

use vstd::prelude::*;

use crate::connection::{Connection, LocalSocket};
use crate::ip::{ip_str_of, ip_string};
use crate::json::{
    append_json_string, comma_join, json_array_of, json_string_of, lemma_comma_join_push,
};
use crate::publish::OpenSockets;
use crate::text::{dec_str_of, dec_u128, dec_u64, push_char};
use crate::utilization::{ConnectionInfo, Utilization};

verus! {

/// One connection's totals in the earlier schema.
#[derive(Clone, PartialEq, Eq, Debug)]
pub struct ConnectionV1 {
    pub interface_name: String,
    pub protocol: String,
    pub local_host: String,
    pub local_port: u16,
    pub process: Option<String>,
    pub remote_host: String,
    pub remote_port: u16,
    pub received: u128,
    pub sent: u128,
}

/// The earlier schema's one measurement: the connection list of a window.
#[derive(Clone, PartialEq, Eq, Debug)]
pub struct PublishMessageV1 {
    pub connections: Vec<ConnectionV1>,
}

/// The earlier schema's envelope, tagged by schema version.
#[derive(Clone, PartialEq, Eq, Debug)]
pub enum VersionedPublishMessage {
    V1(PublishMessageV1),
}

/// The process owning a local socket: the first matching table entry.
pub open spec fn lookup_process(s: Seq<(LocalSocket, String)>, k: LocalSocket) -> Option<String>
    decreases s.len(),
{
    if s.len() == 0 {
        None
    } else if s[0].0 == k {
        Some(s[0].1)
    } else {
        lookup_process(s.skip(1), k)
    }
}

/// Finds the process owning a local socket.
fn lookup_process_exec(procs: &Vec<(LocalSocket, String)>, k: &LocalSocket) -> (r: Option<String>)
    ensures
        r == lookup_process(procs@, *k),
{
    let n = procs.len();
    let mut i: usize = 0;
    proof {
        assert(procs@.skip(0) =~= procs@);
    }
    loop
        invariant
            i <= n,
            n == procs@.len(),
            lookup_process(procs@, *k) == lookup_process(procs@.skip(i as int), *k),
        decreases n - i,
    {
        if i == n {
            return None;
        }
        proof {
            assert(procs@.skip(i as int)[0] == procs@[i as int]);
            assert(procs@.skip(i as int).skip(1) =~= procs@.skip(i as int + 1));
        }
        if procs[i].0 == *k {
            return Some(procs[i].1.clone());
        }
        i = i + 1;
    }
}

/// How one built entry relates to the aggregator entry it came from,
/// observable text by observable text.
pub open spec fn legacy_conn_matches(
    out: ConnectionV1,
    p: (Connection, ConnectionInfo),
    procs: Seq<(LocalSocket, String)>,
) -> bool {
    &&& out.interface_name@ == p.1.interface_name@
    &&& out.protocol@ == p.0.local_socket.protocol.spec_name()
    &&& out.local_host@ == ip_str_of(p.0.local_socket.ip)
    &&& out.local_port == p.0.local_socket.port
    &&& (match (out.process, lookup_process(procs, p.0.local_socket)) {
        (Some(a), Some(b)) => a@ == b@,
        (None, None) => true,
        _ => false,
    })
    &&& out.remote_host@ == ip_str_of(p.0.remote_socket.ip)
    &&& out.remote_port == p.0.remote_socket.port
    &&& out.received == p.1.total_bytes_downloaded
    &&& out.sent == p.1.total_bytes_uploaded
}

/// Builds the entry list, in aggregator order.
fn build_legacy_connections(
    entries: Vec<(Connection, ConnectionInfo)>,
    procs: &Vec<(LocalSocket, String)>,
) -> (r: Vec<ConnectionV1>)
    ensures
        r@.len() == entries@.len(),
        forall|i: int|
            0 <= i < r@.len() ==> legacy_conn_matches(#[trigger] r@[i], entries@[i], procs@),
    decreases entries@.len(),
{
    let mut entries = entries;
    let ghost orig = entries@;
    match entries.pop() {
        Some(p) => {
            let mut out = build_legacy_connections(entries, procs);
            let conn = ConnectionV1 {
                interface_name: p.1.interface_name,
                protocol: String::from_str(p.0.local_socket.protocol.name()),
                local_host: ip_string(&p.0.local_socket.ip),
                local_port: p.0.local_socket.port,
                process: lookup_process_exec(procs, &p.0.local_socket),
                remote_host: ip_string(&p.0.remote_socket.ip),
                remote_port: p.0.remote_socket.port,
                received: p.1.total_bytes_downloaded,
                sent: p.1.total_bytes_uploaded,
            };
            out.push(conn);
            proof {
                assert(orig.drop_last() =~= orig.take(orig.len() - 1));
                assert(orig[orig.len() - 1] == (p.0, p.1));
            }
            out
        },
        None => Vec::new(),
    }
}

impl VersionedPublishMessage {
    /// Builds the envelope from a finished window and the open-socket table:
    /// one entry per aggregated connection, in aggregator order, each with
    /// the owning process looked up by its local socket.
    pub fn from(utilization: Utilization, open_sockets: OpenSockets) -> (r:
        VersionedPublishMessage)
        ensures
            ({
                let m = r->0;
                &&& r is V1
                &&& m.connections@.len() == utilization.entries@.len()
                &&& forall|i: int|
                    0 <= i < m.connections@.len() ==> legacy_conn_matches(
                        #[trigger] m.connections@[i],
                        utilization.entries@[i],
                        open_sockets.sockets_to_procs@,
                    )
            }),
    {
        let connections = build_legacy_connections(
            utilization.entries,
            &open_sockets.sockets_to_procs,
        );
        VersionedPublishMessage::V1(PublishMessageV1 { connections })
    }
}

/// The JSON object of one entry.
pub open spec fn legacy_conn_json_of(c: ConnectionV1) -> Seq<char> {
    "{\"interface_name\":"@ + json_string_of(c.interface_name@) + ",\"protocol\":"@
        + json_string_of(c.protocol@) + ",\"local_host\":"@ + json_string_of(c.local_host@)
        + ",\"local_port\":"@ + dec_str_of(c.local_port as nat) + ",\"process\":"@ + (
    match c.process {
        Option::None => "null"@,
        Option::Some(p) => json_string_of(p@),
    }) + ",\"remote_host\":"@ + json_string_of(c.remote_host@) + ",\"remote_port\":"@ + dec_str_of(
        c.remote_port as nat,
    ) + ",\"received\":"@ + dec_str_of(c.received as nat) + ",\"sent\":"@ + dec_str_of(
        c.sent as nat,
    ) + "}"@
}

/// The JSON object of each entry.
pub open spec fn legacy_conns_json_items(s: Seq<ConnectionV1>) -> Seq<Seq<char>> {
    s.map_values(|c: ConnectionV1| legacy_conn_json_of(c))
}

/// The whole envelope as JSON text.
pub open spec fn legacy_message_json_of(m: VersionedPublishMessage) -> Seq<char> {
    "{\"version\":\"1\",\"message\":{\"connections\":"@ + json_array_of(
        legacy_conns_json_items(m->0.connections@),
    ) + "}}"@
}

/// Appends the JSON object of one entry.
fn append_legacy_conn(out: &mut String, c: &ConnectionV1)
    ensures
        final(out)@ == old(out)@ + legacy_conn_json_of(*c),
{
    out.append("{\"interface_name\":");
    append_json_string(out, c.interface_name.as_str());
    out.append(",\"protocol\":");
    append_json_string(out, c.protocol.as_str());
    out.append(",\"local_host\":");
    append_json_string(out, c.local_host.as_str());
    out.append(",\"local_port\":");
    let local_port = dec_u64(c.local_port as u64);
    out.append(local_port.as_str());
    out.append(",\"process\":");
    match &c.process {
        Option::None => {
            out.append("null");
        },
        Option::Some(p) => {
            append_json_string(out, p.as_str());
        },
    }
    out.append(",\"remote_host\":");
    append_json_string(out, c.remote_host.as_str());
    out.append(",\"remote_port\":");
    let remote_port = dec_u64(c.remote_port as u64);
    out.append(remote_port.as_str());
    out.append(",\"received\":");
    let received = dec_u128(c.received);
    out.append(received.as_str());
    out.append(",\"sent\":");
    let sent = dec_u128(c.sent);
    out.append(sent.as_str());
    out.append("}");
    proof {
        assert(final(out)@ =~= old(out)@ + legacy_conn_json_of(*c));
    }
}

impl VersionedPublishMessage {
    /// Encodes the envelope: a deterministic function of its value.
    pub fn to_json(&self) -> (r: String)
        ensures
            r@ == legacy_message_json_of(*self),
    {
        let VersionedPublishMessage::V1(m) = self;
        let ghost items = legacy_conns_json_items(m.connections@);
        let mut out = String::from_str("{\"version\":\"1\",\"message\":{\"connections\":");
        push_char(&mut out, '[');
        let n = m.connections.len();
        let mut i: usize = 0;
        proof {
            assert(items.take(0) =~= Seq::<Seq<char>>::empty());
        }
        while i < n
            invariant
                i <= n,
                n == m.connections@.len(),
                items == legacy_conns_json_items(m.connections@),
                out@ == "{\"version\":\"1\",\"message\":{\"connections\":"@ + seq!['[']
                    + comma_join(items.take(i as int)),
            decreases n - i,
        {
            if i > 0 {
                push_char(&mut out, ',');
            }
            append_legacy_conn(&mut out, &m.connections[i]);
            proof {
                assert(items.take(i as int + 1) =~= items.take(i as int).push(items[i as int]));
                lemma_comma_join_push(items.take(i as int), items[i as int]);
                assert(out@ =~= "{\"version\":\"1\",\"message\":{\"connections\":"@ + seq!['[']
                    + comma_join(items.take(i as int + 1)));
            }
            i = i + 1;
        }
        push_char(&mut out, ']');
        out.append("}}");
        proof {
            assert(items.take(n as int) =~= items);
            assert(out@ =~= legacy_message_json_of(*self));
        }
        out
    }
}

} // verus!
