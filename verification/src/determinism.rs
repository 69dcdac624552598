//! Message determinism across entry order: a utilization message's encoding
//! depends only on the window's connection map, not on the order in which
//! the aggregator's entries happened to be stored.
//!
//! Two entries can differ as values yet carry the same text (their strings
//! are different heap values with the same characters), so the argument runs
//! over each entry's *view*: everything the encoder reads of it. The sort
//! order and the JSON fragment of an entry both factor through its view; the
//! sort returns a view-sorted sequence whose view multiset is the input's;
//! and the view order is total, transitive and antisymmetric, so two
//! view-sorted sequences with one view multiset have the same views — hence
//! the same JSON.

use vstd::prelude::*;

use vstd::seq_lib::group_to_multiset_ensures;
use vstd::seq_lib::lemma_multiset_commutative;
use crate::connection::Connection;
use crate::ip::IpAddress;
use crate::connection::LocalSocket;
use crate::publish::{
    config_message_json_of, conn_json_of, conn_le, connection_v1_of, connections_v1_of,
    conns_json_items, insert_sorted_conn, insert_sorted_open_socket, open_socket_json_of,
    open_socket_le, open_socket_v1_of, open_sockets_json_items, open_sockets_v1_of, sock_rank,
    sort_conns, sort_open_sockets_spec, triple_lt, util_message_json_of, BytesCount, ConnectionV1,
    NetworkConfigurationV1MeasurementMessage, NetworkUtilizationV1MeasurementMessage, OpenSocketV1,
    ProtocolV1, SocketAddrV1,
};
use crate::text::chars_le;
use crate::utilization::{entries_map, unique_keys, ConnectionCounts, ConnectionInfo};

verus! {

/// What the encoder reads of one connection entry: its interface name's
/// characters and its plain-value fields.
pub type ConnView = (Seq<char>, SocketAddrV1, SocketAddrV1, ProtocolV1, BytesCount, BytesCount);

/// The view of one entry.
pub open spec fn conn_view(c: ConnectionV1) -> ConnView {
    (
        c.interface_name@,
        c.local_socket_address,
        c.remote_socket_address,
        c.protocol,
        c.received,
        c.sent,
    )
}

/// The views of a list of entries, in order.
pub open spec fn views_of(s: Seq<ConnectionV1>) -> Seq<ConnView> {
    s.map_values(|c: ConnectionV1| conn_view(c))
}

/// The sort order, phrased over views.
pub open spec fn conn_view_le(x: ConnView, y: ConnView) -> bool {
    if x.0 != y.0 {
        chars_le(x.0, y.0)
    } else if x.1 != y.1 {
        triple_lt(sock_rank(x.1), sock_rank(y.1))
    } else if x.2 != y.2 {
        triple_lt(sock_rank(x.2), sock_rank(y.2))
    } else if x.3 != y.3 {
        x.3.0.spec_rank() < y.3.0.spec_rank()
    } else if x.4 != y.4 {
        x.4.0 < y.4.0
    } else {
        x.5.0 <= y.5.0
    }
}

/// The entry order is the view order of the entries' views.
pub proof fn lemma_conn_le_factors(a: ConnectionV1, b: ConnectionV1)
    ensures
        conn_le(a, b) == conn_view_le(conn_view(a), conn_view(b)),
{
}

/// The JSON fragment of an entry is a function of its view.
pub proof fn lemma_conn_json_factors(a: ConnectionV1, b: ConnectionV1)
    requires
        conn_view(a) == conn_view(b),
    ensures
        conn_json_of(a) == conn_json_of(b),
{
}

proof fn lemma_chars_le_total(a: Seq<char>, b: Seq<char>)
    ensures
        chars_le(a, b) || chars_le(b, a),
    decreases a.len(),
{
    if a.len() != 0 && b.len() != 0 && (a[0] as u32) == (b[0] as u32) {
        lemma_chars_le_total(a.skip(1), b.skip(1));
    }
}

/// Characters with one scalar value are one character.
proof fn lemma_char_eq(a: char, b: char)
    requires
        (a as u32) == (b as u32),
    ensures
        a == b,
{
}

proof fn lemma_chars_le_antisymmetric(a: Seq<char>, b: Seq<char>)
    requires
        chars_le(a, b),
        chars_le(b, a),
    ensures
        a == b,
    decreases a.len(),
{
    if a.len() == 0 {
        assert(b.len() == 0);
        assert(a =~= b);
    } else {
        let a0 = a[0];
        let b0 = b[0];
        assert((a0 as u32) == (b0 as u32));
        lemma_char_eq(a0, b0);
        lemma_chars_le_antisymmetric(a.skip(1), b.skip(1));
        assert forall|i: int| 0 <= i < a.len() implies a[i] == b[i] by {
            if i > 0 {
                assert(a.skip(1)[i - 1] == a[i]);
                assert(b.skip(1)[i - 1] == b[i]);
            }
        }
        assert(a =~= b);
    }
}

proof fn lemma_chars_le_transitive(a: Seq<char>, b: Seq<char>, c: Seq<char>)
    requires
        chars_le(a, b),
        chars_le(b, c),
    ensures
        chars_le(a, c),
    decreases a.len(),
{
    if a.len() != 0 && b.len() != 0 && c.len() != 0 {
        if (a[0] as u32) == (b[0] as u32) && (b[0] as u32) == (c[0] as u32) {
            lemma_chars_le_transitive(a.skip(1), b.skip(1), c.skip(1));
        }
    }
}

/// Distinct socket addresses have distinct ranks.
proof fn lemma_sock_rank_injective(a: SocketAddrV1, b: SocketAddrV1)
    ensures
        (sock_rank(a) == sock_rank(b)) == (a == b),
{
    match (a.ip, b.ip) {
        (IpAddress::V4(_), IpAddress::V4(_)) => {
        },
        (IpAddress::V4(_), IpAddress::V6(_)) => {
        },
        (IpAddress::V6(_), IpAddress::V4(_)) => {
        },
        (IpAddress::V6(_), IpAddress::V6(_)) => {
        },
    }
}

proof fn lemma_view_le_total(x: ConnView, y: ConnView)
    ensures
        conn_view_le(x, y) || conn_view_le(y, x),
{
    if x.0 != y.0 {
        lemma_chars_le_total(x.0, y.0);
    } else {
        lemma_sock_rank_injective(x.1, y.1);
        lemma_sock_rank_injective(x.2, y.2);
    }
}

proof fn lemma_view_le_antisymmetric(x: ConnView, y: ConnView)
    requires
        conn_view_le(x, y),
        conn_view_le(y, x),
    ensures
        x == y,
{
    if x.0 != y.0 {
        lemma_chars_le_antisymmetric(x.0, y.0);
    } else {
        lemma_sock_rank_injective(x.1, y.1);
        lemma_sock_rank_injective(x.2, y.2);
        assert(x.1 == y.1 && x.2 == y.2 && x.3 == y.3 && x.4 == y.4 && x.5 == y.5);
    }
}

proof fn lemma_view_le_transitive(x: ConnView, y: ConnView, z: ConnView)
    requires
        conn_view_le(x, y),
        conn_view_le(y, z),
    ensures
        conn_view_le(x, z),
{
    if x.0 != y.0 && y.0 != z.0 {
        lemma_chars_le_transitive(x.0, y.0, z.0);
        if x.0 == z.0 {
            lemma_chars_le_antisymmetric(x.0, y.0);
        }
    } else if x.0 == y.0 && y.0 == z.0 {
        lemma_sock_rank_injective(x.1, y.1);
        lemma_sock_rank_injective(y.1, z.1);
        lemma_sock_rank_injective(x.1, z.1);
        lemma_sock_rank_injective(x.2, y.2);
        lemma_sock_rank_injective(y.2, z.2);
        lemma_sock_rank_injective(x.2, z.2);
    }
}

/// `x` inserted after every view that orders no later than it: the view
/// image of `insert_sorted_conn`.
pub open spec fn insert_view(s: Seq<ConnView>, x: ConnView) -> Seq<ConnView>
    decreases s.len(),
{
    if s.len() == 0 {
        seq![x]
    } else if !conn_view_le(s[0], x) {
        seq![x] + s
    } else {
        seq![s[0]] + insert_view(s.skip(1), x)
    }
}

/// The view image of `sort_conns`.
pub open spec fn sort_views(s: Seq<ConnView>) -> Seq<ConnView>
    decreases s.len(),
{
    if s.len() == 0 {
        Seq::empty()
    } else {
        insert_view(sort_views(s.drop_last()), s.last())
    }
}

proof fn lemma_insert_commutes(s: Seq<ConnectionV1>, x: ConnectionV1)
    ensures
        views_of(insert_sorted_conn(s, x)) == insert_view(views_of(s), conn_view(x)),
    decreases s.len(),
{
    if s.len() == 0 {
        assert(views_of(insert_sorted_conn(s, x)) =~= insert_view(views_of(s), conn_view(x)));
    } else {
        lemma_conn_le_factors(s[0], x);
        assert(views_of(s)[0] == conn_view(s[0]));
        if !conn_le(s[0], x) {
            assert(views_of(insert_sorted_conn(s, x)) =~= insert_view(views_of(s), conn_view(x)));
        } else {
            lemma_insert_commutes(s.skip(1), x);
            assert(views_of(s.skip(1)) =~= views_of(s).skip(1));
            assert(views_of(insert_sorted_conn(s, x)) =~= insert_view(views_of(s), conn_view(x)));
        }
    }
}

proof fn lemma_sort_commutes(s: Seq<ConnectionV1>)
    ensures
        views_of(sort_conns(s)) == sort_views(views_of(s)),
    decreases s.len(),
{
    if s.len() == 0 {
        assert(views_of(sort_conns(s)) =~= sort_views(views_of(s)));
    } else {
        lemma_sort_commutes(s.drop_last());
        lemma_insert_commutes(sort_conns(s.drop_last()), s.last());
        assert(views_of(s.drop_last()) =~= views_of(s).drop_last());
        assert(views_of(s).last() == conn_view(s.last()));
    }
}

/// The views stand in order.
pub open spec fn views_sorted(s: Seq<ConnView>) -> bool {
    forall|i: int, j: int| 0 <= i < j < s.len() ==> conn_view_le(#[trigger] s[i], #[trigger] s[j])
}

proof fn lemma_insert_view_elements(s: Seq<ConnView>, x: ConnView)
    ensures
        insert_view(s, x).len() == s.len() + 1,
        forall|i: int|
            0 <= i < insert_view(s, x).len() ==> (#[trigger] insert_view(s, x)[i]) == x
                || s.contains(insert_view(s, x)[i]),
    decreases s.len(),
{
    if s.len() != 0 && conn_view_le(s[0], x) {
        lemma_insert_view_elements(s.skip(1), x);
        let t = insert_view(s, x);
        assert forall|i: int| 0 <= i < t.len() implies (#[trigger] t[i]) == x || s.contains(t[i]) by {
            if i > 0 {
                assert(t[i] == insert_view(s.skip(1), x)[i - 1]);
                if t[i] != x {
                    let k = choose|k: int| 0 <= k < s.skip(1).len() && s.skip(1)[k] == t[i];
                    assert(s[k + 1] == t[i]);
                }
            }
        }
    }
}

proof fn lemma_insert_view_sorted(s: Seq<ConnView>, x: ConnView)
    requires
        views_sorted(s),
    ensures
        views_sorted(insert_view(s, x)),
    decreases s.len(),
{
    if s.len() == 0 {
    } else if !conn_view_le(s[0], x) {
        lemma_view_le_total(s[0], x);
        let t = seq![x] + s;
        assert forall|i: int, j: int| 0 <= i < j < t.len() implies conn_view_le(
            #[trigger] t[i],
            #[trigger] t[j],
        ) by {
            if i == 0 {
                if j > 1 {
                    lemma_view_le_transitive(x, s[0], s[j - 1]);
                }
            }
        }
    } else {
        assert(views_sorted(s.skip(1))) by {
            assert forall|i: int, j: int| 0 <= i < j < s.skip(1).len() implies conn_view_le(
                #[trigger] s.skip(1)[i],
                #[trigger] s.skip(1)[j],
            ) by {
                assert(s.skip(1)[i] == s[i + 1]);
                assert(s.skip(1)[j] == s[j + 1]);
            }
        }
        lemma_insert_view_sorted(s.skip(1), x);
        lemma_insert_view_elements(s.skip(1), x);
        let u = insert_view(s.skip(1), x);
        let t = seq![s[0]] + u;
        assert forall|i: int, j: int| 0 <= i < j < t.len() implies conn_view_le(
            #[trigger] t[i],
            #[trigger] t[j],
        ) by {
            if i == 0 {
                assert(t[j] == u[j - 1]);
                if u[j - 1] == x {
                } else {
                    let k = choose|k: int| 0 <= k < s.skip(1).len() && s.skip(1)[k] == u[j - 1];
                    assert(s[k + 1] == u[j - 1]);
                }
            } else {
                assert(t[i] == u[i - 1] && t[j] == u[j - 1]);
            }
        }
    }
}

proof fn lemma_sort_views_sorted(s: Seq<ConnView>)
    ensures
        views_sorted(sort_views(s)),
    decreases s.len(),
{
    if s.len() != 0 {
        lemma_sort_views_sorted(s.drop_last());
        lemma_insert_view_sorted(sort_views(s.drop_last()), s.last());
    }
}

proof fn lemma_insert_view_multiset(s: Seq<ConnView>, x: ConnView)
    ensures
        insert_view(s, x).to_multiset() == s.to_multiset().insert(x),
    decreases s.len(),
{
    broadcast use group_to_multiset_ensures;

    if s.len() == 0 {
        assert(seq![x] =~= Seq::<ConnView>::empty().push(x));
        assert(insert_view(s, x).to_multiset() =~= s.to_multiset().insert(x));
    } else if !conn_view_le(s[0], x) {
        lemma_multiset_commutative(seq![x], s);
        assert(seq![x] =~= Seq::<ConnView>::empty().push(x));
        assert(insert_view(s, x).to_multiset() =~= s.to_multiset().insert(x));
    } else {
        lemma_insert_view_multiset(s.skip(1), x);
        lemma_multiset_commutative(seq![s[0]], insert_view(s.skip(1), x));
        lemma_multiset_commutative(seq![s[0]], s.skip(1));
        assert(seq![s[0]] =~= Seq::<ConnView>::empty().push(s[0]));
        assert(s =~= seq![s[0]] + s.skip(1));
        assert(insert_view(s, x).to_multiset() =~= s.to_multiset().insert(x));
    }
}

proof fn lemma_sort_views_multiset(s: Seq<ConnView>)
    ensures
        sort_views(s).to_multiset() == s.to_multiset(),
    decreases s.len(),
{
    broadcast use group_to_multiset_ensures;

    if s.len() != 0 {
        lemma_sort_views_multiset(s.drop_last());
        lemma_insert_view_multiset(sort_views(s.drop_last()), s.last());
        assert(s =~= s.drop_last().push(s.last()));
        assert(sort_views(s).to_multiset() =~= s.to_multiset());
    }
}

/// Two view-sorted sequences with one view multiset are one sequence: the
/// order is total, transitive and antisymmetric.
proof fn lemma_sorted_views_unique(s1: Seq<ConnView>, s2: Seq<ConnView>)
    requires
        views_sorted(s1),
        views_sorted(s2),
        s1.to_multiset() == s2.to_multiset(),
    ensures
        s1 == s2,
    decreases s1.len(),
{
    broadcast use group_to_multiset_ensures;

    if s1.len() == 0 {
        assert(s2.to_multiset().len() == 0);
        assert(s1 =~= s2);
    } else {
        assert(s1.to_multiset().len() == s1.len());
        assert(s2.to_multiset().len() == s2.len());
        assert(s2.len() == s1.len());
        // each head occurs in the other sequence, and each head is minimal
        assert(s1.contains(s1[0]));
        assert(s2.to_multiset().count(s1[0]) > 0);
        assert(s2.contains(s1[0]));
        let j1 = choose|j: int| 0 <= j < s2.len() && s2[j] == s1[0];
        assert(s2.contains(s2[0]));
        assert(s1.to_multiset().count(s2[0]) > 0);
        assert(s1.contains(s2[0]));
        let j2 = choose|j: int| 0 <= j < s1.len() && s1[j] == s2[0];
        if j1 > 0 {
            assert(conn_view_le(s2[0], s2[j1]));
        } else {
            lemma_view_le_total(s2[0], s1[0]);
            if !conn_view_le(s2[0], s1[0]) {
                assert(conn_view_le(s1[0], s2[0]));
            }
        }
        if j2 > 0 {
            assert(conn_view_le(s1[0], s1[j2]));
        }
        lemma_view_le_total(s1[0], s2[0]);
        lemma_view_le_total(s2[0], s1[0]);
        if conn_view_le(s1[0], s2[0]) && conn_view_le(s2[0], s1[0]) {
            lemma_view_le_antisymmetric(s1[0], s2[0]);
        } else if conn_view_le(s1[0], s2[0]) {
            // s2's copy of s1[0] sits at j1, so s2[0] orders before s1[0] too
            assert(conn_view_le(s2[0], s1[0]));
        } else {
            assert(conn_view_le(s1[0], s2[0]));
        }
        assert(s1[0] == s2[0]);
        // the tails carry the same multiset
        assert(s1.remove(0) =~= s1.skip(1));
        assert(s2.remove(0) =~= s2.skip(1));
        assert(s1.skip(1).to_multiset() == s1.to_multiset().remove(s1[0]));
        assert(s2.skip(1).to_multiset() == s2.to_multiset().remove(s2[0]));
        assert(views_sorted(s1.skip(1))) by {
            assert forall|i: int, j: int| 0 <= i < j < s1.skip(1).len() implies conn_view_le(
                #[trigger] s1.skip(1)[i],
                #[trigger] s1.skip(1)[j],
            ) by {
                assert(s1.skip(1)[i] == s1[i + 1]);
                assert(s1.skip(1)[j] == s1[j + 1]);
            }
        }
        assert(views_sorted(s2.skip(1))) by {
            assert forall|i: int, j: int| 0 <= i < j < s2.skip(1).len() implies conn_view_le(
                #[trigger] s2.skip(1)[i],
                #[trigger] s2.skip(1)[j],
            ) by {
                assert(s2.skip(1)[i] == s2[i + 1]);
                assert(s2.skip(1)[j] == s2[j + 1]);
            }
        }
        lemma_sorted_views_unique(s1.skip(1), s2.skip(1));
        assert forall|i: int| 0 <= i < s1.len() implies s1[i] == s2[i] by {
            if i > 0 {
                assert(s1.skip(1)[i - 1] == s1[i]);
                assert(s2.skip(1)[i - 1] == s2[i]);
            }
        }
        assert(s1 =~= s2);
    }
}

/// The view of one aggregator entry's wire form.
pub open spec fn entry_view(p: (Connection, ConnectionInfo)) -> ConnView {
    conn_view(connection_v1_of(p))
}

/// The entry views of an aggregator list, in order.
pub open spec fn entry_views_of(s: Seq<(Connection, ConnectionInfo)>) -> Seq<ConnView> {
    s.map_values(|p: (Connection, ConnectionInfo)| entry_view(p))
}

proof fn lemma_entry_views_are_views(s: Seq<(Connection, ConnectionInfo)>)
    ensures
        views_of(connections_v1_of(s)) == entry_views_of(s),
{
    assert(views_of(connections_v1_of(s)) =~= entry_views_of(s));
}

/// An entry's view is a function of its key and the mathematical value of
/// its counts.
proof fn lemma_entry_view_of_kv(p: (Connection, ConnectionInfo), q: (Connection, ConnectionInfo))
    requires
        p.0 == q.0,
        p.1@ == q.1@,
    ensures
        entry_view(p) == entry_view(q),
{
    assert(p.1.total_bytes_downloaded == q.1.total_bytes_downloaded);
    assert(p.1.total_bytes_uploaded == q.1.total_bytes_uploaded);
}

proof fn lemma_unique_keys_drop_last(s: Seq<(Connection, ConnectionInfo)>)
    requires
        unique_keys(s),
        s.len() > 0,
    ensures
        unique_keys(s.drop_last()),
{
    assert forall|p: int, q: int|
        0 <= p < q < s.drop_last().len() implies (#[trigger] s.drop_last()[p]).0 != (
    #[trigger] s.drop_last()[q]).0 by {
        assert(s.drop_last()[p] == s[p]);
        assert(s.drop_last()[q] == s[q]);
    }
}

proof fn lemma_entries_map_remove(s: Seq<(Connection, ConnectionInfo)>, j: int)
    requires
        unique_keys(s),
        0 <= j < s.len(),
    ensures
        unique_keys(s.remove(j)),
        entries_map(s.remove(j)) == entries_map(s).remove(s[j].0),
    decreases s.len(),
{
    assert forall|p: int, q: int|
        0 <= p < q < s.remove(j).len() implies (#[trigger] s.remove(j)[p]).0 != (
    #[trigger] s.remove(j)[q]).0 by {
        assert(s.remove(j)[p] == if p < j {
            s[p]
        } else {
            s[p + 1]
        });
        assert(s.remove(j)[q] == if q < j {
            s[q]
        } else {
            s[q + 1]
        });
    }
    if j == s.len() - 1 {
        assert(s.remove(j) =~= s.drop_last());
        lemma_unique_keys_drop_last(s);
        crate::utilization::lemma_entries_map_dom(s.drop_last(), s[j].0);
        assert forall|i: int|
            0 <= i < s.drop_last().len() implies (#[trigger] s.drop_last()[i]).0 != s[j].0 by {
            assert(s.drop_last()[i] == s[i]);
        }
        assert(entries_map(s.drop_last()) =~= entries_map(s).remove(s[j].0));
    } else {
        lemma_unique_keys_drop_last(s);
        lemma_entries_map_remove(s.drop_last(), j);
        assert(s.remove(j).drop_last() =~= s.drop_last().remove(j));
        assert(s.drop_last()[j] == s[j]);
        assert(s.remove(j).last() == s.last());
        assert(s[j].0 != s.last().0);
        assert(entries_map(s.remove(j)) == entries_map(s.drop_last().remove(j)).insert(
            s.last().0,
            s.last().1@,
        ));
        assert(entries_map(s.remove(j)) =~= entries_map(s).remove(s[j].0));
    }
}

/// Unique-keyed entry lists with one map have one multiset of entry views.
proof fn lemma_map_determines_entry_view_multiset(
    s1: Seq<(Connection, ConnectionInfo)>,
    s2: Seq<(Connection, ConnectionInfo)>,
)
    requires
        unique_keys(s1),
        unique_keys(s2),
        entries_map(s1) == entries_map(s2),
    ensures
        entry_views_of(s1).to_multiset() == entry_views_of(s2).to_multiset(),
    decreases s1.len(),
{
    broadcast use group_to_multiset_ensures;

    if s1.len() == 0 {
        if s2.len() > 0 {
            crate::utilization::lemma_entries_map_dom(s2, s2[s2.len() - 1].0);
            assert(entries_map(s2).dom().contains(s2[s2.len() - 1].0));
            assert(false);
        }
        assert(entry_views_of(s1) =~= entry_views_of(s2));
    } else {
        let last = s1[s1.len() - 1];
        let k = last.0;
        crate::utilization::lemma_entries_map_at(s1, s1.len() - 1);
        crate::utilization::lemma_entries_map_dom(s2, k);
        let j = choose|j: int| 0 <= j < s2.len() && (#[trigger] s2[j]).0 == k;
        crate::utilization::lemma_entries_map_at(s2, j);
        assert(s2[j].1@ == last.1@);
        lemma_unique_keys_drop_last(s1);
        crate::utilization::lemma_entries_map_dom(s1.drop_last(), k);
        assert forall|i: int|
            0 <= i < s1.drop_last().len() implies (#[trigger] s1.drop_last()[i]).0 != k by {
            assert(s1.drop_last()[i] == s1[i]);
        }
        assert(entries_map(s1.drop_last()) =~= entries_map(s1).remove(k));
        lemma_entries_map_remove(s2, j);
        lemma_map_determines_entry_view_multiset(s1.drop_last(), s2.remove(j));
        // reassemble the left multiset
        assert(entry_views_of(s1) =~= entry_views_of(s1.drop_last()).push(entry_view(last)));
        assert(entry_views_of(s1).to_multiset() == entry_views_of(s1.drop_last()).to_multiset().insert(
            entry_view(last),
        ));
        // reassemble the right multiset
        assert(entry_views_of(s2).remove(j) =~= entry_views_of(s2.remove(j))) by {
            assert forall|i: int|
                0 <= i < entry_views_of(s2).remove(j).len() implies entry_views_of(s2).remove(
                j,
            )[i] == entry_views_of(s2.remove(j))[i] by {
                assert(s2.remove(j)[i] == if i < j {
                    s2[i]
                } else {
                    s2[i + 1]
                });
            }
        }
        assert(entry_views_of(s2).remove(j).to_multiset() == entry_views_of(s2).to_multiset().remove(
            entry_views_of(s2)[j],
        ));
        lemma_entry_view_of_kv(s2[j], last);
        assert(entry_views_of(s2)[j] == entry_view(last));
        assert(entry_views_of(s2).contains(entry_views_of(s2)[j]));
        assert(entry_views_of(s2).to_multiset().count(entry_view(last)) > 0);
        assert(entry_views_of(s1).to_multiset() =~= entry_views_of(s2).to_multiset());
    }
}

/// Message determinism across entry order: two windows that carry the same
/// per-connection totals — whatever order their entries stand in — yield,
/// with the same identity and timeframe, utilization messages whose JSON
/// texts are character-identical.
pub proof fn lemma_utilization_message_determinism(
    m1: NetworkUtilizationV1MeasurementMessage,
    m2: NetworkUtilizationV1MeasurementMessage,
    s1: Seq<(Connection, ConnectionInfo)>,
    s2: Seq<(Connection, ConnectionInfo)>,
)
    requires
        unique_keys(s1),
        unique_keys(s2),
        entries_map(s1) == entries_map(s2),
        m1.machine_id == m2.machine_id,
        m1.timeframe.start == m2.timeframe.start,
        m1.timeframe.duration.0@ == m2.timeframe.duration.0@,
        m1.connections@ == sort_conns(connections_v1_of(s1)),
        m2.connections@ == sort_conns(connections_v1_of(s2)),
    ensures
        util_message_json_of(m1) == util_message_json_of(m2),
{
    let c1 = connections_v1_of(s1);
    let c2 = connections_v1_of(s2);
    lemma_map_determines_entry_view_multiset(s1, s2);
    lemma_entry_views_are_views(s1);
    lemma_entry_views_are_views(s2);
    lemma_sort_commutes(c1);
    lemma_sort_commutes(c2);
    lemma_sort_views_multiset(views_of(c1));
    lemma_sort_views_multiset(views_of(c2));
    lemma_sort_views_sorted(views_of(c1));
    lemma_sort_views_sorted(views_of(c2));
    lemma_sorted_views_unique(sort_views(views_of(c1)), sort_views(views_of(c2)));
    assert(views_of(m1.connections@) == views_of(m2.connections@));
    assert(m1.connections@.len() == m2.connections@.len()) by {
        assert(views_of(m1.connections@).len() == m1.connections@.len());
        assert(views_of(m2.connections@).len() == m2.connections@.len());
    }
    assert(conns_json_items(m1.connections@) =~= conns_json_items(m2.connections@)) by {
        assert forall|i: int|
            0 <= i < m1.connections@.len() implies conns_json_items(m1.connections@)[i]
            == conns_json_items(m2.connections@)[i] by {
            assert(views_of(m1.connections@)[i] == conn_view(m1.connections@[i]));
            assert(views_of(m2.connections@)[i] == conn_view(m2.connections@[i]));
            lemma_conn_json_factors(m1.connections@[i], m2.connections@[i]);
        }
    }
}

// ---------------------------------------------------------------------------
// The same argument for the configuration message's open-socket table
// ---------------------------------------------------------------------------

/// What the encoder reads of one open-socket entry.
pub type OpenSocketView = (SocketAddrV1, ProtocolV1, Seq<char>);

/// The view of one open-socket entry.
pub open spec fn open_socket_view(s: OpenSocketV1) -> OpenSocketView {
    (s.socket_address, s.protocol, s.process@)
}

/// The views of a list of open-socket entries, in order.
pub open spec fn open_socket_views_of(s: Seq<OpenSocketV1>) -> Seq<OpenSocketView> {
    s.map_values(|x: OpenSocketV1| open_socket_view(x))
}

/// The view of one `(local socket, process)` table pair.
pub open spec fn socket_pair_view(p: (LocalSocket, String)) -> OpenSocketView {
    open_socket_view(open_socket_v1_of(p))
}

/// The views of a socket table, in table order.
pub open spec fn socket_table_views(t: Seq<(LocalSocket, String)>) -> Seq<OpenSocketView> {
    t.map_values(|p: (LocalSocket, String)| socket_pair_view(p))
}

/// The open-socket sort order, phrased over views.
pub open spec fn open_socket_view_le(x: OpenSocketView, y: OpenSocketView) -> bool {
    if x.0 != y.0 {
        triple_lt(sock_rank(x.0), sock_rank(y.0))
    } else if x.1 != y.1 {
        x.1.0.spec_rank() < y.1.0.spec_rank()
    } else {
        chars_le(x.2, y.2)
    }
}

proof fn lemma_open_socket_le_factors(a: OpenSocketV1, b: OpenSocketV1)
    ensures
        open_socket_le(a, b) == open_socket_view_le(open_socket_view(a), open_socket_view(b)),
{
}

proof fn lemma_open_socket_json_factors(a: OpenSocketV1, b: OpenSocketV1)
    requires
        open_socket_view(a) == open_socket_view(b),
    ensures
        open_socket_json_of(a) == open_socket_json_of(b),
{
}

proof fn lemma_osock_view_le_total(x: OpenSocketView, y: OpenSocketView)
    ensures
        open_socket_view_le(x, y) || open_socket_view_le(y, x),
{
    lemma_sock_rank_injective(x.0, y.0);
    lemma_chars_le_total(x.2, y.2);
}

proof fn lemma_osock_view_le_antisymmetric(x: OpenSocketView, y: OpenSocketView)
    requires
        open_socket_view_le(x, y),
        open_socket_view_le(y, x),
    ensures
        x == y,
{
    lemma_sock_rank_injective(x.0, y.0);
    if x.0 == y.0 && x.1 == y.1 {
        lemma_chars_le_antisymmetric(x.2, y.2);
    }
}

proof fn lemma_osock_view_le_transitive(x: OpenSocketView, y: OpenSocketView, z: OpenSocketView)
    requires
        open_socket_view_le(x, y),
        open_socket_view_le(y, z),
    ensures
        open_socket_view_le(x, z),
{
    lemma_sock_rank_injective(x.0, y.0);
    lemma_sock_rank_injective(y.0, z.0);
    lemma_sock_rank_injective(x.0, z.0);
    if x.0 == y.0 && y.0 == z.0 && x.1 == y.1 && y.1 == z.1 {
        lemma_chars_le_transitive(x.2, y.2, z.2);
    }
}

/// The view image of `insert_sorted_open_socket`.
pub open spec fn insert_osock_view(s: Seq<OpenSocketView>, x: OpenSocketView) -> Seq<
    OpenSocketView,
>
    decreases s.len(),
{
    if s.len() == 0 {
        seq![x]
    } else if !open_socket_view_le(s[0], x) {
        seq![x] + s
    } else {
        seq![s[0]] + insert_osock_view(s.skip(1), x)
    }
}

/// The view image of `sort_open_sockets_spec`.
pub open spec fn sort_osock_views(s: Seq<OpenSocketView>) -> Seq<OpenSocketView>
    decreases s.len(),
{
    if s.len() == 0 {
        Seq::empty()
    } else {
        insert_osock_view(sort_osock_views(s.drop_last()), s.last())
    }
}

proof fn lemma_osock_insert_commutes(s: Seq<OpenSocketV1>, x: OpenSocketV1)
    ensures
        open_socket_views_of(insert_sorted_open_socket(s, x)) == insert_osock_view(
            open_socket_views_of(s),
            open_socket_view(x),
        ),
    decreases s.len(),
{
    if s.len() == 0 {
        assert(open_socket_views_of(insert_sorted_open_socket(s, x)) =~= insert_osock_view(
            open_socket_views_of(s),
            open_socket_view(x),
        ));
    } else {
        lemma_open_socket_le_factors(s[0], x);
        assert(open_socket_views_of(s)[0] == open_socket_view(s[0]));
        if !open_socket_le(s[0], x) {
            assert(open_socket_views_of(insert_sorted_open_socket(s, x)) =~= insert_osock_view(
                open_socket_views_of(s),
                open_socket_view(x),
            ));
        } else {
            lemma_osock_insert_commutes(s.skip(1), x);
            assert(open_socket_views_of(s.skip(1)) =~= open_socket_views_of(s).skip(1));
            assert(open_socket_views_of(insert_sorted_open_socket(s, x)) =~= insert_osock_view(
                open_socket_views_of(s),
                open_socket_view(x),
            ));
        }
    }
}

proof fn lemma_osock_sort_commutes(s: Seq<OpenSocketV1>)
    ensures
        open_socket_views_of(sort_open_sockets_spec(s)) == sort_osock_views(
            open_socket_views_of(s),
        ),
    decreases s.len(),
{
    if s.len() == 0 {
        assert(open_socket_views_of(sort_open_sockets_spec(s)) =~= sort_osock_views(
            open_socket_views_of(s),
        ));
    } else {
        lemma_osock_sort_commutes(s.drop_last());
        lemma_osock_insert_commutes(sort_open_sockets_spec(s.drop_last()), s.last());
        assert(open_socket_views_of(s.drop_last()) =~= open_socket_views_of(s).drop_last());
        assert(open_socket_views_of(s).last() == open_socket_view(s.last()));
    }
}

/// The open-socket views stand in order.
pub open spec fn osock_views_sorted(s: Seq<OpenSocketView>) -> bool {
    forall|i: int, j: int|
        0 <= i < j < s.len() ==> open_socket_view_le(#[trigger] s[i], #[trigger] s[j])
}

proof fn lemma_insert_osock_view_elements(s: Seq<OpenSocketView>, x: OpenSocketView)
    ensures
        insert_osock_view(s, x).len() == s.len() + 1,
        forall|i: int|
            0 <= i < insert_osock_view(s, x).len() ==> (#[trigger] insert_osock_view(s, x)[i]) == x
                || s.contains(insert_osock_view(s, x)[i]),
    decreases s.len(),
{
    if s.len() != 0 && open_socket_view_le(s[0], x) {
        lemma_insert_osock_view_elements(s.skip(1), x);
        let t = insert_osock_view(s, x);
        assert forall|i: int| 0 <= i < t.len() implies (#[trigger] t[i]) == x || s.contains(t[i]) by {
            if i > 0 {
                assert(t[i] == insert_osock_view(s.skip(1), x)[i - 1]);
                if t[i] != x {
                    let k = choose|k: int| 0 <= k < s.skip(1).len() && s.skip(1)[k] == t[i];
                    assert(s[k + 1] == t[i]);
                }
            }
        }
    }
}

proof fn lemma_insert_osock_view_sorted(s: Seq<OpenSocketView>, x: OpenSocketView)
    requires
        osock_views_sorted(s),
    ensures
        osock_views_sorted(insert_osock_view(s, x)),
    decreases s.len(),
{
    if s.len() == 0 {
    } else if !open_socket_view_le(s[0], x) {
        lemma_osock_view_le_total(s[0], x);
        let t = seq![x] + s;
        assert forall|i: int, j: int| 0 <= i < j < t.len() implies open_socket_view_le(
            #[trigger] t[i],
            #[trigger] t[j],
        ) by {
            if i == 0 {
                if j > 1 {
                    lemma_osock_view_le_transitive(x, s[0], s[j - 1]);
                }
            }
        }
    } else {
        assert(osock_views_sorted(s.skip(1))) by {
            assert forall|i: int, j: int| 0 <= i < j < s.skip(1).len() implies open_socket_view_le(
                #[trigger] s.skip(1)[i],
                #[trigger] s.skip(1)[j],
            ) by {
                assert(s.skip(1)[i] == s[i + 1]);
                assert(s.skip(1)[j] == s[j + 1]);
            }
        }
        lemma_insert_osock_view_sorted(s.skip(1), x);
        lemma_insert_osock_view_elements(s.skip(1), x);
        let u = insert_osock_view(s.skip(1), x);
        let t = seq![s[0]] + u;
        assert forall|i: int, j: int| 0 <= i < j < t.len() implies open_socket_view_le(
            #[trigger] t[i],
            #[trigger] t[j],
        ) by {
            if i == 0 {
                assert(t[j] == u[j - 1]);
                if u[j - 1] == x {
                } else {
                    let k = choose|k: int| 0 <= k < s.skip(1).len() && s.skip(1)[k] == u[j - 1];
                    assert(s[k + 1] == u[j - 1]);
                }
            } else {
                assert(t[i] == u[i - 1] && t[j] == u[j - 1]);
            }
        }
    }
}

proof fn lemma_sort_osock_views_sorted(s: Seq<OpenSocketView>)
    ensures
        osock_views_sorted(sort_osock_views(s)),
    decreases s.len(),
{
    if s.len() != 0 {
        lemma_sort_osock_views_sorted(s.drop_last());
        lemma_insert_osock_view_sorted(sort_osock_views(s.drop_last()), s.last());
    }
}

proof fn lemma_insert_osock_view_multiset(s: Seq<OpenSocketView>, x: OpenSocketView)
    ensures
        insert_osock_view(s, x).to_multiset() == s.to_multiset().insert(x),
    decreases s.len(),
{
    broadcast use group_to_multiset_ensures;

    if s.len() == 0 {
        assert(seq![x] =~= Seq::<OpenSocketView>::empty().push(x));
        assert(insert_osock_view(s, x).to_multiset() =~= s.to_multiset().insert(x));
    } else if !open_socket_view_le(s[0], x) {
        lemma_multiset_commutative(seq![x], s);
        assert(seq![x] =~= Seq::<OpenSocketView>::empty().push(x));
        assert(insert_osock_view(s, x).to_multiset() =~= s.to_multiset().insert(x));
    } else {
        lemma_insert_osock_view_multiset(s.skip(1), x);
        lemma_multiset_commutative(seq![s[0]], insert_osock_view(s.skip(1), x));
        lemma_multiset_commutative(seq![s[0]], s.skip(1));
        assert(seq![s[0]] =~= Seq::<OpenSocketView>::empty().push(s[0]));
        assert(s =~= seq![s[0]] + s.skip(1));
        assert(insert_osock_view(s, x).to_multiset() =~= s.to_multiset().insert(x));
    }
}

proof fn lemma_sort_osock_views_multiset(s: Seq<OpenSocketView>)
    ensures
        sort_osock_views(s).to_multiset() == s.to_multiset(),
    decreases s.len(),
{
    broadcast use group_to_multiset_ensures;

    if s.len() != 0 {
        lemma_sort_osock_views_multiset(s.drop_last());
        lemma_insert_osock_view_multiset(sort_osock_views(s.drop_last()), s.last());
        assert(s =~= s.drop_last().push(s.last()));
        assert(sort_osock_views(s).to_multiset() =~= s.to_multiset());
    }
}

proof fn lemma_sorted_osock_views_unique(s1: Seq<OpenSocketView>, s2: Seq<OpenSocketView>)
    requires
        osock_views_sorted(s1),
        osock_views_sorted(s2),
        s1.to_multiset() == s2.to_multiset(),
    ensures
        s1 == s2,
    decreases s1.len(),
{
    broadcast use group_to_multiset_ensures;

    if s1.len() == 0 {
        assert(s2.to_multiset().len() == 0);
        assert(s1 =~= s2);
    } else {
        assert(s1.to_multiset().len() == s1.len());
        assert(s2.to_multiset().len() == s2.len());
        assert(s1.contains(s1[0]));
        assert(s2.to_multiset().count(s1[0]) > 0);
        assert(s2.contains(s1[0]));
        let j1 = choose|j: int| 0 <= j < s2.len() && s2[j] == s1[0];
        assert(s2.contains(s2[0]));
        assert(s1.to_multiset().count(s2[0]) > 0);
        assert(s1.contains(s2[0]));
        let j2 = choose|j: int| 0 <= j < s1.len() && s1[j] == s2[0];
        if j1 > 0 {
            assert(open_socket_view_le(s2[0], s2[j1]));
        }
        if j2 > 0 {
            assert(open_socket_view_le(s1[0], s1[j2]));
        }
        lemma_osock_view_le_total(s1[0], s2[0]);
        lemma_osock_view_le_antisymmetric(s1[0], s2[0]);
        assert(s1[0] == s2[0]);
        assert(s1.remove(0) =~= s1.skip(1));
        assert(s2.remove(0) =~= s2.skip(1));
        assert(s1.skip(1).to_multiset() == s1.to_multiset().remove(s1[0]));
        assert(s2.skip(1).to_multiset() == s2.to_multiset().remove(s2[0]));
        assert(osock_views_sorted(s1.skip(1))) by {
            assert forall|i: int, j: int|
                0 <= i < j < s1.skip(1).len() implies open_socket_view_le(
                #[trigger] s1.skip(1)[i],
                #[trigger] s1.skip(1)[j],
            ) by {
                assert(s1.skip(1)[i] == s1[i + 1]);
                assert(s1.skip(1)[j] == s1[j + 1]);
            }
        }
        assert(osock_views_sorted(s2.skip(1))) by {
            assert forall|i: int, j: int|
                0 <= i < j < s2.skip(1).len() implies open_socket_view_le(
                #[trigger] s2.skip(1)[i],
                #[trigger] s2.skip(1)[j],
            ) by {
                assert(s2.skip(1)[i] == s2[i + 1]);
                assert(s2.skip(1)[j] == s2[j + 1]);
            }
        }
        lemma_sorted_osock_views_unique(s1.skip(1), s2.skip(1));
        assert forall|i: int| 0 <= i < s1.len() implies s1[i] == s2[i] by {
            if i > 0 {
                assert(s1.skip(1)[i - 1] == s1[i]);
                assert(s2.skip(1)[i - 1] == s2[i]);
            }
        }
        assert(s1 =~= s2);
    }
}

/// Configuration-message determinism across table order: two open-socket
/// tables that carry the same pairs — whatever order a map walk handed them
/// out in — yield, with the rest of the message equal, configuration
/// messages whose JSON texts are character-identical.
pub proof fn lemma_configuration_message_determinism(
    m1: NetworkConfigurationV1MeasurementMessage,
    m2: NetworkConfigurationV1MeasurementMessage,
    t1: Seq<(LocalSocket, String)>,
    t2: Seq<(LocalSocket, String)>,
)
    requires
        socket_table_views(t1).to_multiset() == socket_table_views(t2).to_multiset(),
        m1.machine_id == m2.machine_id,
        m1.timestamp == m2.timestamp,
        m1.maybe_os_release is Some <==> m2.maybe_os_release is Some,
        m1.maybe_os_release is Some ==> m1.maybe_os_release->0.spec_contents()
            == m2.maybe_os_release->0.spec_contents(),
        m1.hostname@ == m2.hostname@,
        m1.interfaces@ == m2.interfaces@,
        m1.open_sockets@ == sort_open_sockets_spec(open_sockets_v1_of(t1)),
        m2.open_sockets@ == sort_open_sockets_spec(open_sockets_v1_of(t2)),
    ensures
        config_message_json_of(m1) == config_message_json_of(m2),
{
    let o1 = open_sockets_v1_of(t1);
    let o2 = open_sockets_v1_of(t2);
    assert(open_socket_views_of(o1) =~= socket_table_views(t1));
    assert(open_socket_views_of(o2) =~= socket_table_views(t2));
    lemma_osock_sort_commutes(o1);
    lemma_osock_sort_commutes(o2);
    lemma_sort_osock_views_multiset(open_socket_views_of(o1));
    lemma_sort_osock_views_multiset(open_socket_views_of(o2));
    lemma_sort_osock_views_sorted(open_socket_views_of(o1));
    lemma_sort_osock_views_sorted(open_socket_views_of(o2));
    lemma_sorted_osock_views_unique(
        sort_osock_views(open_socket_views_of(o1)),
        sort_osock_views(open_socket_views_of(o2)),
    );
    assert(open_socket_views_of(m1.open_sockets@) == open_socket_views_of(m2.open_sockets@));
    assert(m1.open_sockets@.len() == m2.open_sockets@.len()) by {
        assert(open_socket_views_of(m1.open_sockets@).len() == m1.open_sockets@.len());
        assert(open_socket_views_of(m2.open_sockets@).len() == m2.open_sockets@.len());
    }
    assert(open_sockets_json_items(m1.open_sockets@) =~= open_sockets_json_items(
        m2.open_sockets@,
    )) by {
        assert forall|i: int|
            0 <= i < m1.open_sockets@.len() implies open_sockets_json_items(m1.open_sockets@)[i]
            == open_sockets_json_items(m2.open_sockets@)[i] by {
            assert(open_socket_views_of(m1.open_sockets@)[i] == open_socket_view(
                m1.open_sockets@[i],
            ));
            assert(open_socket_views_of(m2.open_sockets@)[i] == open_socket_view(
                m2.open_sockets@[i],
            ));
            lemma_open_socket_json_factors(m1.open_sockets@[i], m2.open_sockets@[i]);
        }
    }
}

} // verus!
