//! Startup decisions around capture channels: which interfaces are worth
//! capturing on, whether the process can start at all, and the operator
//! message that collects every channel's failure.

use vstd::prelude::*;

use crate::json::json_string_of;
use crate::json::append_json_string;
use crate::publish::InterfaceV1;

verus! {

/// Why a capture channel could not be opened on one interface.
#[derive(Clone, PartialEq, Eq, Debug)]
pub enum GetInterfaceErrorKind {
    PermissionError(String),
    OtherError(String),
}

/// The rendering of one error for the operator: the variant name with the
/// quoted, escaped detail.
pub open spec fn error_debug_str_of(e: GetInterfaceErrorKind) -> Seq<char> {
    match e {
        GetInterfaceErrorKind::PermissionError(n) => "PermissionError("@ + json_string_of(n@)
            + ")"@,
        GetInterfaceErrorKind::OtherError(m) => "OtherError("@ + json_string_of(m@) + ")"@,
    }
}

impl GetInterfaceErrorKind {
    /// Renders the error for the operator.
    pub fn debug_string(&self) -> (r: String)
        ensures
            r@ == error_debug_str_of(*self),
    {
        match self {
            GetInterfaceErrorKind::PermissionError(n) => {
                let mut s = String::from_str("PermissionError(");
                append_json_string(&mut s, n.as_str());
                s.append(")");
                proof {
                    assert(s@ =~= error_debug_str_of(*self));
                }
                s
            },
            GetInterfaceErrorKind::OtherError(m) => {
                let mut s = String::from_str("OtherError(");
                append_json_string(&mut s, m.as_str());
                s.append(")");
                proof {
                    assert(s@ =~= error_debug_str_of(*self));
                }
                s
            },
        }
    }
}

/// The interface names of the permission failures, in order.
pub open spec fn perm_names(s: Seq<Option<GetInterfaceErrorKind>>) -> Seq<Seq<char>>
    decreases s.len(),
{
    if s.len() == 0 {
        Seq::empty()
    } else {
        perm_names(s.drop_last()) + (match s.last() {
            Some(GetInterfaceErrorKind::PermissionError(n)) => seq![n@],
            _ => Seq::<Seq<char>>::empty(),
        })
    }
}

/// The renderings of the other failures, in order.
pub open spec fn other_texts(s: Seq<Option<GetInterfaceErrorKind>>) -> Seq<Seq<char>>
    decreases s.len(),
{
    if s.len() == 0 {
        Seq::empty()
    } else {
        other_texts(s.drop_last()) + (match s.last() {
            Some(GetInterfaceErrorKind::OtherError(m)) => seq![
                error_debug_str_of(GetInterfaceErrorKind::OtherError(m)),
            ],
            _ => Seq::<Seq<char>>::empty(),
        })
    }
}

/// The items joined by a separator.
pub open spec fn joined(items: Seq<Seq<char>>, sep: Seq<char>) -> Seq<char>
    decreases items.len(),
{
    if items.len() == 0 {
        Seq::empty()
    } else if items.len() == 1 {
        items[0]
    } else {
        joined(items.drop_last(), sep) + sep + items.last()
    }
}

/// The remediation hint shown when capture lacks permission.
pub open spec fn eperm_str() -> Seq<char> {
    "\n    Insufficient permissions to listen on network interface(s). You can work around\n    this issue like this:\n\n    * Try running `bandwhichd-agent` with `sudo`\n\n    * Build a `setcap(8)` wrapper for `bandwhichd-agent` with the following rules:\n        `cap_sys_ptrace,cap_dac_read_search,cap_net_raw,cap_net_admin+ep`\n    "@
}

/// Returns the remediation hint for missing capture permission.
pub fn eperm_message() -> (r: &'static str)
    ensures
        r@ == eperm_str(),
{
    "\n    Insufficient permissions to listen on network interface(s). You can work around\n    this issue like this:\n\n    * Try running `bandwhichd-agent` with `sudo`\n\n    * Build a `setcap(8)` wrapper for `bandwhichd-agent` with the following rules:\n        `cap_sys_ptrace,cap_dac_read_search,cap_net_raw,cap_net_admin+ep`\n    "
}

/// The operator message for a set of channel outcomes: the permission
/// failures joined and capped with the remediation hint, then the other
/// failures; only the other failures when no permission failed.
pub open spec fn collect_errors_str_of(s: Seq<Option<GetInterfaceErrorKind>>) -> Seq<char> {
    let p = perm_names(s);
    let o = other_texts(s);
    if p.len() > 0 {
        if o.len() > 0 {
            "\n\n"@ + joined(p, ", "@) + ": "@ + eperm_str() + " \nAdditional Errors: \n "@
                + joined(o, " \n "@)
        } else {
            "\n\n"@ + joined(p, ", "@) + ": "@ + eperm_str()
        }
    } else {
        "\n\n "@ + joined(o, " \n "@)
    }
}

/// The fold state while collecting errors: the joined permission failures
/// and the joined other failures, each absent until one is seen.
#[derive(Debug)]
pub struct UserErrors {
    permission: Option<String>,
    other: Option<String>,
}

/// Builds the operator message for the channel outcomes (`None` is a channel
/// that opened). At least one outcome must be an error.
pub fn collect_errors(outcomes: &Vec<Option<GetInterfaceErrorKind>>) -> (r: String)
    requires
        perm_names(outcomes@).len() + other_texts(outcomes@).len() > 0,
    ensures
        r@ == collect_errors_str_of(outcomes@),
{
    let mut errors = UserErrors { permission: None, other: None };
    let n = outcomes.len();
    let mut i: usize = 0;
    proof {
        assert(outcomes@.take(0) =~= Seq::<Option<GetInterfaceErrorKind>>::empty());
    }
    while i < n
        invariant
            i <= n,
            n == outcomes@.len(),
            match errors.permission {
                None => perm_names(outcomes@.take(i as int)).len() == 0,
                Some(s) => perm_names(outcomes@.take(i as int)).len() > 0 && s@ == joined(
                    perm_names(outcomes@.take(i as int)),
                    ", "@,
                ),
            },
            match errors.other {
                None => other_texts(outcomes@.take(i as int)).len() == 0,
                Some(s) => other_texts(outcomes@.take(i as int)).len() > 0 && s@ == joined(
                    other_texts(outcomes@.take(i as int)),
                    " \n "@,
                ),
            },
        decreases n - i,
    {
        proof {
            assert(outcomes@.take(i as int + 1).drop_last() =~= outcomes@.take(i as int));
            assert(outcomes@.take(i as int + 1).last() == outcomes@[i as int]);
        }
        match &outcomes[i] {
            Some(GetInterfaceErrorKind::PermissionError(name)) => {
                errors.permission = match errors.permission {
                    Some(mut prev) => {
                        prev.append(", ");
                        prev.append(name.as_str());
                        proof {
                            assert(perm_names(outcomes@.take(i as int + 1)).drop_last()
                                =~= perm_names(outcomes@.take(i as int)));
                        }
                        Some(prev)
                    },
                    None => {
                        proof {
                            assert(perm_names(outcomes@.take(i as int + 1)) =~= seq![name@]);
                        }
                        Some(String::from_str(name.as_str()))
                    },
                };
            },
            Some(GetInterfaceErrorKind::OtherError(_)) => {
                let text = match &outcomes[i] {
                    Some(e) => e.debug_string(),
                    None => String::new(),
                };
                errors.other = match errors.other {
                    Some(mut prev) => {
                        prev.append(" \n ");
                        prev.append(text.as_str());
                        proof {
                            assert(other_texts(outcomes@.take(i as int + 1)).drop_last()
                                =~= other_texts(outcomes@.take(i as int)));
                        }
                        Some(prev)
                    },
                    None => {
                        proof {
                            assert(other_texts(outcomes@.take(i as int + 1)) =~= seq![text@]);
                        }
                        Some(text)
                    },
                };
            },
            None => {
                proof {
                    assert(perm_names(outcomes@.take(i as int + 1)) =~= perm_names(
                        outcomes@.take(i as int),
                    ));
                    assert(other_texts(outcomes@.take(i as int + 1)) =~= other_texts(
                        outcomes@.take(i as int),
                    ));
                }
            },
        }
        i = i + 1;
    }
    proof {
        assert(outcomes@.take(n as int) =~= outcomes@);
    }
    match errors.permission {
        Some(p) => {
            let mut out = String::from_str("\n\n");
            out.append(p.as_str());
            out.append(": ");
            out.append(eperm_message());
            match errors.other {
                Some(o) => {
                    out.append(" \nAdditional Errors: \n ");
                    out.append(o.as_str());
                    proof {
                        assert(out@ =~= collect_errors_str_of(outcomes@));
                    }
                    out
                },
                None => {
                    proof {
                        assert(out@ =~= collect_errors_str_of(outcomes@));
                    }
                    out
                },
            }
        },
        None => {
            let o = match errors.other {
                Some(o) => o,
                None => String::new(),  // unreachable: some outcome is an error
            };
            let mut out = String::from_str("\n\n ");
            out.append(o.as_str());
            proof {
                assert(out@ =~= collect_errors_str_of(outcomes@));
            }
            out
        },
    }
}

/// An interface is worth capturing on when it is up and has at least one
/// address.
pub open spec fn spec_usable_interface(i: InterfaceV1) -> bool {
    i.is_up && i.networks@.len() > 0
}

/// Decides whether an interface is worth capturing on.
pub fn usable_interface(i: &InterfaceV1) -> (r: bool)
    ensures
        r == spec_usable_interface(*i),
{
    i.is_up && i.networks.len() > 0
}

/// What to do after trying to open a capture channel on every usable
/// interface.
#[derive(Clone, PartialEq, Eq, Debug)]
pub enum StartupDecision {
    /// Capture on the channels that opened: their positions among the
    /// outcomes, in order.
    Proceed(Vec<usize>),
    /// Nothing can be captured: exit, showing this message.
    Fail(String),
}

/// Decides startup from the channel outcomes (`None` is a channel that
/// opened): proceed on the opened channels if there is at least one, fail
/// with the collected errors otherwise, and fail with a fixed message when
/// there was no interface to try at all.
pub fn startup_decision(outcomes: &Vec<Option<GetInterfaceErrorKind>>) -> (r: StartupDecision)
    ensures
        match r {
            StartupDecision::Proceed(v) => {
                &&& v@.len() > 0
                &&& forall|k: int|
                    0 <= k < v@.len() ==> (#[trigger] v@[k]) < outcomes@.len() && outcomes@[v@[k] as int] is None
                &&& forall|k1: int, k2: int| 0 <= k1 < k2 < v@.len() ==> v@[k1] < v@[k2]
                &&& forall|j: int|
                    0 <= j < outcomes@.len() && outcomes@[j] is None ==> exists|k: int|
                        0 <= k < v@.len() && (#[trigger] v@[k]) == j
            },
            StartupDecision::Fail(msg) => {
                &&& (forall|j: int| 0 <= j < outcomes@.len() ==> !((#[trigger] outcomes@[j]) is None))
                &&& if outcomes@.len() > 0 {
                    msg@ == collect_errors_str_of(outcomes@)
                } else {
                    msg@ == "Failed to find any network interface to listen on."@
                }
            },
        },
{
    let n = outcomes.len();
    let mut opened: Vec<usize> = Vec::new();
    let mut i: usize = 0;
    while i < n
        invariant
            i <= n,
            n == outcomes@.len(),
            forall|k: int|
                0 <= k < opened@.len() ==> (#[trigger] opened@[k]) < i && outcomes@[opened@[k] as int] is None,
            forall|k1: int, k2: int| 0 <= k1 < k2 < opened@.len() ==> opened@[k1] < opened@[k2],
            forall|j: int|
                0 <= j < i && outcomes@[j] is None ==> exists|k: int|
                    0 <= k < opened@.len() && (#[trigger] opened@[k]) == j,
        decreases n - i,
    {
        if outcomes[i].is_none() {
            let ghost prev = opened@;
            opened.push(i);
            proof {
                assert forall|j: int| 0 <= j < i + 1 && outcomes@[j] is None implies exists|k: int|
                    0 <= k < opened@.len() && (#[trigger] opened@[k]) == j by {
                    if j < i {
                        let k = choose|k: int| 0 <= k < prev.len() && (#[trigger] prev[k]) == j;
                        assert(opened@[k] == j);
                    } else {
                        assert(opened@[opened@.len() - 1] == i);
                    }
                }
            }
        }
        i = i + 1;
    }
    if opened.len() > 0 {
        StartupDecision::Proceed(opened)
    } else if n > 0 {
        proof {
            lemma_some_error_counted(outcomes@, n as int - 1);
        }
        StartupDecision::Fail(collect_errors(outcomes))
    } else {
        StartupDecision::Fail(String::from_str("Failed to find any network interface to listen on."))
    }
}

/// A sequence whose entries are all errors has something to collect.
proof fn lemma_some_error_counted(s: Seq<Option<GetInterfaceErrorKind>>, i: int)
    requires
        0 <= i < s.len(),
        forall|j: int| 0 <= j < s.len() ==> !((#[trigger] s[j]) is None),
    ensures
        perm_names(s).len() + other_texts(s).len() > 0,
    decreases s.len(),
{
    if i < s.len() - 1 {
        assert(forall|j: int| 0 <= j < s.drop_last().len() ==> s.drop_last()[j] == s[j]);
        lemma_some_error_counted(s.drop_last(), i);
    } else {
        match s.last() {
            Some(GetInterfaceErrorKind::PermissionError(_)) => {
            },
            Some(GetInterfaceErrorKind::OtherError(_)) => {
            },
            None => {
            },
        }
    }
}

} // verus!
