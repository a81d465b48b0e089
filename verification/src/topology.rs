//! The topology builder: walking the device tree from each root hub,
//! opening hubs, querying their ports, and emitting one structured line
//! per hub and per port, depth-first and pre-order.
//!
//! The walk emits values, not text: a `RenderLine` holds everything a
//! caller needs to print one line of the tree, and a `Diagnostic` reports
//! a non-fatal per-port failure without aborting the walk.

use vstd::prelude::*;

use crate::bos::ContainerId;
use crate::error::Error;
use crate::hub::DEVICE_CLASS_HUB;
use crate::hub::Hub;
use crate::record::DeviceRecord;
use crate::record::DeviceRecordView;
use crate::status::PortStatus;
use crate::transport::UsbTransport;
use crate::tree::DeviceTree;
use crate::tree::lemma_get_len_le_max;
use crate::tree::lemma_get_present;
use crate::tree::max_key_len;
use crate::tree::spec_get;

verus! {

/// What a connected port leads to.
pub enum Attached {
    /// The port reports no connection: the line ends blank.
    NotConnected,
    /// The port reports a connection but no record resolves at the child
    /// key: not an error, just unresolved.
    Unresolved,
    /// A non-hub device: described, and the walk stops there.
    Device(DeviceRecord),
    /// A hub: its own lines follow, one level deeper.
    HubChild,
}

/// One line of the rendered tree.
pub enum RenderLine {
    /// A hub: its key, record, decoded port count and optional Container
    /// ID, indented by `depth`.
    Hub {
        /// Indentation level: the hub's chain depth below its bus root
        depth: usize,
        /// The hub's device key
        key: Vec<u8>,
        /// The hub's device record
        record: DeviceRecord,
        /// The hub's decoded downstream port count
        port_count: u8,
        /// The hub's Container ID, if it reported one
        container_id: Option<ContainerId>,
    },
    /// One downstream port of the closest hub line above.
    Port {
        /// Indentation level: the owning hub's depth
        depth: usize,
        /// The port number, 1-based
        port: u8,
        /// The decoded status word, or nothing when the query failed
        status: Option<PortStatus>,
        /// What the port leads to
        attached: Attached,
    },
}

/// A non-fatal failure while querying one port, reported instead of
/// aborting the walk.
pub struct Diagnostic {
    /// Key of the hub whose port failed
    pub key: Vec<u8>,
    /// The port whose status query failed
    pub port: u8,
    /// The failure
    pub error: Error,
}

/// The indentation level of a line.
pub open spec fn line_depth(l: RenderLine) -> int {
    match l {
        RenderLine::Hub { depth, .. } => depth as int,
        RenderLine::Port { depth, .. } => depth as int,
    }
}

/// A hub line at exactly this indentation level.
pub open spec fn is_hub_line_at(l: RenderLine, d: int) -> bool {
    match l {
        RenderLine::Hub { depth, .. } => depth as int == d,
        RenderLine::Port { .. } => false,
    }
}

/// A port line at exactly this indentation level.
pub open spec fn is_port_line_at(l: RenderLine, d: int) -> bool {
    match l {
        RenderLine::Hub { .. } => false,
        RenderLine::Port { depth, .. } => depth as int == d,
    }
}

/// A hub line at level `d` describing the record stored under key `k`.
pub open spec fn is_hub_line_for(l: RenderLine, d: int, k: Seq<u8>, rec: DeviceRecordView) -> bool {
    match l {
        RenderLine::Hub { depth, key, record, .. } => depth as int == d && key@ == k && record@
            == rec,
        RenderLine::Port { .. } => false,
    }
}

/// The port count a hub line announces.
pub open spec fn hub_line_port_count(l: RenderLine) -> int {
    match l {
        RenderLine::Hub { port_count, .. } => port_count as int,
        RenderLine::Port { .. } => -1,
    }
}

/// Number of hub lines at exactly this level.
pub open spec fn count_hub_lines_at(s: Seq<RenderLine>, d: int) -> int
    decreases s.len(),
{
    if s.len() == 0 {
        0
    } else {
        count_hub_lines_at(s.drop_last(), d) + if is_hub_line_at(s.last(), d) {
            1int
        } else {
            0int
        }
    }
}

/// Number of port lines at exactly this level.
pub open spec fn count_port_lines_at(s: Seq<RenderLine>, d: int) -> int
    decreases s.len(),
{
    if s.len() == 0 {
        0
    } else {
        count_port_lines_at(s.drop_last(), d) + if is_port_line_at(s.last(), d) {
            1int
        } else {
            0int
        }
    }
}

/// The port line for one particular port at this level.
pub open spec fn is_port_line_for(l: RenderLine, d: int, p: u8) -> bool {
    match l {
        RenderLine::Hub { .. } => false,
        RenderLine::Port { depth, port, .. } => depth as int == d && port == p,
    }
}

/// Number of port lines for one particular port at this level.
pub open spec fn count_port_lines_for(s: Seq<RenderLine>, d: int, p: u8) -> int
    decreases s.len(),
{
    if s.len() == 0 {
        0
    } else {
        count_port_lines_for(s.drop_last(), d, p) + if is_port_line_for(s.last(), d, p) {
            1int
        } else {
            0int
        }
    }
}

/// The port number a port line carries; no hub line carries one.
pub open spec fn port_line_port(l: RenderLine) -> int {
    match l {
        RenderLine::Hub { .. } => -1,
        RenderLine::Port { port, .. } => port as int,
    }
}

/// Whether a port line carries no status because its query failed.
pub open spec fn port_line_status_missing(l: RenderLine) -> bool {
    match l {
        RenderLine::Hub { .. } => false,
        RenderLine::Port { status, .. } => status is None,
    }
}

/// What a port leads to, as decided by the tree lookup at its child key:
/// no entry is Unresolved, a non-hub entry is that device, a hub entry is
/// a nested hub.
pub open spec fn attached_matches_lookup(a: Attached, child: Option<DeviceRecordView>) -> bool {
    match child {
        Some(rec) => if rec.device_class == DEVICE_CLASS_HUB {
            a is HubChild
        } else {
            a matches Attached::Device(d) && d@ == rec
        },
        None => a is Unresolved,
    }
}

/// A port line of the hub stored under key `k` says what the walk owes:
/// with a status whose connection bit is clear the port ends not
/// connected; with the connection bit set, or with no status at all (a
/// failed query is defensively treated as connected), what it leads to is
/// decided by the tree lookup at `k + [port]`.
pub open spec fn port_line_consistent(
    l: RenderLine,
    k: Seq<u8>,
    tree: Seq<(Seq<u8>, DeviceRecordView)>,
) -> bool {
    match l {
        RenderLine::Hub { .. } => true,
        RenderLine::Port { depth, port, status, attached } => {
            let child = spec_get(tree, k + seq![port]);
            match status {
                Some(st) => if st.0 & 0x0001 == 0x0001 {
                    attached_matches_lookup(attached, child)
                } else {
                    attached is NotConnected
                },
                None => attached_matches_lookup(attached, child),
            }
        },
    }
}

/// A port line at this level announcing a nested hub.
pub open spec fn is_hub_child_line(l: RenderLine, d: int) -> bool {
    match l {
        RenderLine::Hub { .. } => false,
        RenderLine::Port { depth, attached, .. } => depth as int == d && attached is HubChild,
    }
}

/// Some diagnostic appended at or after position `from` names this hub
/// and port.
pub open spec fn has_diagnostic(ds: Seq<Diagnostic>, from: int, k: Seq<u8>, p: int) -> bool {
    exists|j: int| from <= j < ds.len() && (#[trigger] ds[j]).key@ == k && ds[j].port as int == p
}

/// A diagnostic stays found when the list only grows at the end.
proof fn lemma_has_diagnostic_extend(
    d1: Seq<Diagnostic>,
    d2: Seq<Diagnostic>,
    from: int,
    k: Seq<u8>,
    p: int,
)
    requires
        0 <= from,
        d1.len() <= d2.len(),
        d2.subrange(0, d1.len() as int) == d1,
        has_diagnostic(d1, from, k, p),
    ensures
        has_diagnostic(d2, from, k, p),
{
    let j = choose|j: int|
        from <= j < d1.len() && (#[trigger] d1[j]).key@ == k && d1[j].port as int == p;
    assert(d2[j] == d2.subrange(0, d1.len() as int)[j]);
}

/// Counting distributes over concatenation.
proof fn lemma_counts_concat(a: Seq<RenderLine>, b: Seq<RenderLine>, d: int)
    ensures
        count_hub_lines_at(a + b, d) == count_hub_lines_at(a, d) + count_hub_lines_at(b, d),
        count_port_lines_at(a + b, d) == count_port_lines_at(a, d) + count_port_lines_at(b, d),
    decreases b.len(),
{
    if b.len() == 0 {
        assert(a + b =~= a);
    } else {
        assert((a + b).drop_last() =~= a + b.drop_last());
        assert((a + b).last() == b.last());
        lemma_counts_concat(a, b.drop_last(), d);
    }
}

/// Lines that all sit below a level contribute nothing to its counts.
proof fn lemma_counts_deeper(s: Seq<RenderLine>, d: int)
    requires
        forall|i: int| 0 <= i < s.len() ==> line_depth(#[trigger] s[i]) > d,
    ensures
        count_hub_lines_at(s, d) == 0,
        count_port_lines_at(s, d) == 0,
        forall|p: u8| #[trigger] count_port_lines_for(s, d, p) == 0,
    decreases s.len(),
{
    if s.len() > 0 {
        lemma_counts_deeper(s.drop_last(), d);
        assert forall|p: u8| #[trigger] count_port_lines_for(s, d, p) == 0 by {
            assert(count_port_lines_for(s.drop_last(), d, p) == 0);
        }
    } else {
        assert forall|p: u8| #[trigger] count_port_lines_for(s, d, p) == 0 by {}
    }
}

/// Per-port counting distributes over concatenation.
proof fn lemma_count_for_concat(a: Seq<RenderLine>, b: Seq<RenderLine>, d: int)
    ensures
        forall|p: u8| #[trigger] count_port_lines_for(a + b, d, p) == count_port_lines_for(
            a,
            d,
            p,
        ) + count_port_lines_for(b, d, p),
    decreases b.len(),
{
    if b.len() == 0 {
        assert(a + b =~= a);
    } else {
        assert((a + b).drop_last() =~= a + b.drop_last());
        assert((a + b).last() == b.last());
        lemma_count_for_concat(a, b.drop_last(), d);
        assert forall|p: u8| #[trigger] count_port_lines_for(a + b, d, p)
            == count_port_lines_for(a, d, p) + count_port_lines_for(b, d, p) by {
            assert(count_port_lines_for(a + b.drop_last(), d, p) == count_port_lines_for(a, d, p)
                + count_port_lines_for(b.drop_last(), d, p));
        }
    }
}

fn dup_key(key: &Vec<u8>) -> (r: Vec<u8>)
    ensures
        r@ == key@,
{
    vstd::slice::slice_to_vec(key.as_slice())
}

fn child_key_of(key: &Vec<u8>, port: u8) -> (r: Vec<u8>)
    ensures
        r@ == key@ + seq![port],
{
    let mut k = vstd::slice::slice_to_vec(key.as_slice());
    k.push(port);
    proof {
        assert(k@ =~= key@ + seq![port]);
    }
    k
}

/// Walk one hub and everything below it, appending its lines to `out` and
/// any per-port diagnostics to `diags`.
///
/// The walk looks the key up (an absent key appends nothing), opens the
/// record as a hub, emits the hub's line, then one line per port in order;
/// a port whose status query fails is reported in `diags` and treated as
/// connected, a connected port leads to a blank, a device description, or
/// a nested hub walked one level deeper.  Whatever the transport answers,
/// an `Ok` walk appends first the hub's own line and then exactly one port
/// line at the hub's level per decoded port, all appended lines sitting at
/// the hub's level or deeper, with no other hub line at that level.
#[verifier::loop_isolation(false)]
pub fn describe_hub<T: UsbTransport>(
    transport: &mut T,
    tree: &DeviceTree,
    key: &Vec<u8>,
    out: &mut Vec<RenderLine>,
    diags: &mut Vec<Diagnostic>,
) -> (r: Result<(), Error>)
    requires
        tree.wf(),
        key@.len() >= 2,
    ensures
        final(out)@.len() >= old(out)@.len(),
        final(out)@.subrange(0, old(out)@.len() as int) == old(out)@,
        final(diags)@.len() >= old(diags)@.len(),
        final(diags)@.subrange(0, old(diags)@.len() as int) == old(diags)@,
        spec_get(tree@, key@) is None ==> final(out)@ == old(out)@ && r is Ok,
        (match spec_get(tree@, key@) {
            Some(rec) => rec.device_class != DEVICE_CLASS_HUB ==> r == Err::<(), Error>(
                Error::InvalidDeviceClass,
            ),
            None => true,
        }),
        r is Ok && spec_get(tree@, key@) is Some ==> {
            let rec = spec_get(tree@, key@).unwrap();
            let added = final(out)@.skip(old(out)@.len() as int);
            &&& rec.device_class == DEVICE_CLASS_HUB
            &&& added.len() >= 1
            &&& is_hub_line_for(added[0], key@.len() - 2, key@, rec)
            &&& count_port_lines_at(added, key@.len() - 2) == hub_line_port_count(added[0])
            &&& count_hub_lines_at(added, key@.len() - 2) == 1
            &&& forall|p: u8|
                1 <= p <= hub_line_port_count(added[0]) ==> #[trigger] count_port_lines_for(
                    added,
                    key@.len() - 2,
                    p,
                ) == 1
            &&& forall|i: int|
                0 <= i < added.len() ==> line_depth(#[trigger] added[i]) >= key@.len() - 2
            &&& forall|i: int|
                0 <= i < added.len() && is_port_line_at(#[trigger] added[i], key@.len() - 2)
                    ==> port_line_consistent(added[i], key@, tree@)
            &&& forall|i: int|
                0 <= i < added.len() && is_port_line_at(#[trigger] added[i], key@.len() - 2)
                    && port_line_status_missing(added[i]) ==> has_diagnostic(
                    final(diags)@,
                    old(diags)@.len() as int,
                    key@,
                    port_line_port(added[i]),
                )
            &&& forall|i: int|
                0 <= i < added.len() && is_hub_child_line(#[trigger] added[i], key@.len() - 2)
                    ==> i + 1 < added.len() && is_hub_line_for(
                    added[i + 1],
                    key@.len() - 1,
                    key@ + seq![(port_line_port(added[i]) as u8)],
                    spec_get(tree@, key@ + seq![(port_line_port(added[i]) as u8)]).unwrap(),
                )
        },
    decreases max_key_len(tree@) - key@.len(),
{
    let ghost base = out@;
    let ghost dbase = diags@;
    let record = match tree.get(key) {
        Some(rec) => rec,
        None => {
            proof {
                assert(out@.subrange(0, base.len() as int) =~= base);
                assert(diags@.subrange(0, dbase.len() as int) =~= dbase);
            }
            return Ok(());
        },
    };
    proof {
        lemma_get_len_le_max(tree@, key@);
    }
    let hub = match Hub::from_device_info(transport, record) {
        Ok(h) => h,
        Err(e) => {
            proof {
                assert(out@.subrange(0, base.len() as int) =~= base);
                assert(diags@.subrange(0, dbase.len() as int) =~= dbase);
            }
            return Err(e);
        },
    };
    let depth: usize = key.len() - 2;
    let port_count = hub.port_count();
    let hub_line = RenderLine::Hub {
        depth,
        key: dup_key(key),
        record: hub.info(),
        port_count,
        container_id: hub.container_id(),
    };
    out.push(hub_line);
    proof {
        let sb = out@.skip(base.len() as int);
        assert(sb =~= seq![out@[base.len() as int]]);
        assert(sb.drop_last() =~= Seq::<RenderLine>::empty());
        assert(count_port_lines_at(Seq::<RenderLine>::empty(), depth as int) == 0);
        assert(count_hub_lines_at(Seq::<RenderLine>::empty(), depth as int) == 0);
        assert(sb.last() == out@[base.len() as int]);
        assert(count_port_lines_at(sb, depth as int) == 0);
        assert(count_hub_lines_at(sb, depth as int) == 1);
        assert forall|p: u8| #[trigger] count_port_lines_for(sb, depth as int, p) == 0 by {
            assert(count_port_lines_for(Seq::<RenderLine>::empty(), depth as int, p) == 0);
        }
        assert(out@.subrange(0, base.len() as int) =~= base);
    }
    let mut port: u8 = 1;
    while port <= port_count
        invariant
            1 <= port <= port_count + 1,
            out@.len() > base.len(),
            out@.subrange(0, base.len() as int) == base,
            diags@.len() >= dbase.len(),
            diags@.subrange(0, dbase.len() as int) == dbase,
            is_hub_line_for(
                out@[base.len() as int],
                depth as int,
                key@,
                spec_get(tree@, key@).unwrap(),
            ),
            hub_line_port_count(out@[base.len() as int]) == port_count as int,
            count_port_lines_at(out@.skip(base.len() as int), depth as int) == port - 1,
            count_hub_lines_at(out@.skip(base.len() as int), depth as int) == 1,
            forall|p: u8|
                1 <= p < port ==> #[trigger] count_port_lines_for(
                    out@.skip(base.len() as int),
                    depth as int,
                    p,
                ) == 1,
            forall|p: u8|
                port <= p ==> #[trigger] count_port_lines_for(
                    out@.skip(base.len() as int),
                    depth as int,
                    p,
                ) == 0,
            forall|i: int|
                base.len() <= i < out@.len() ==> line_depth(#[trigger] out@[i]) >= depth as int,
            forall|i: int|
                base.len() <= i < out@.len() && is_port_line_at(#[trigger] out@[i], depth as int)
                    ==> port_line_consistent(out@[i], key@, tree@),
            forall|i: int|
                base.len() <= i < out@.len() && is_port_line_at(#[trigger] out@[i], depth as int)
                    && port_line_status_missing(out@[i]) ==> has_diagnostic(
                    diags@,
                    dbase.len() as int,
                    key@,
                    port_line_port(out@[i]),
                ),
            forall|i: int|
                base.len() <= i < out@.len() && is_hub_child_line(#[trigger] out@[i], depth as int)
                    ==> i + 1 < out@.len() && is_hub_line_for(
                    out@[i + 1],
                    depth as int + 1,
                    key@ + seq![(port_line_port(out@[i]) as u8)],
                    spec_get(tree@, key@ + seq![(port_line_port(out@[i]) as u8)]).unwrap(),
                ),
        decreases port_count + 1 - port,
    {
        let ghost out_before = out@;
        let ghost diags_before = diags@;
        let child = child_key_of(key, port);
        let (status_opt, connected) = match hub.port_status(transport, port) {
            Ok(st) => {
                let c = st.connection();
                (Some(st), c)
            },
            Err(e) => {
                diags.push(Diagnostic { key: dup_key(key), port, error: e });
                (None, true)
            },
        };
        proof {
            assert(diags@.subrange(0, dbase.len() as int) =~= dbase);
            assert(diags@.subrange(0, diags_before.len() as int) =~= diags_before);
        }
        let attached: Attached = if !connected {
            Attached::NotConnected
        } else {
            match tree.get(&child) {
                None => Attached::Unresolved,
                Some(child_rec) => {
                    if child_rec.device_class != DEVICE_CLASS_HUB {
                        Attached::Device(child_rec.clone())
                    } else {
                        Attached::HubChild
                    }
                },
            }
        };
        let is_hub_child = matches!(attached, Attached::HubChild);
        out.push(RenderLine::Port { depth, port, status: status_opt, attached });
        proof {
            let sb = out@.skip(base.len() as int);
            assert(sb.drop_last() =~= out_before.skip(base.len() as int));
            assert(sb.last() == out@.last());
            assert(out@[base.len() as int] == out_before[base.len() as int]);
            assert(out@.subrange(0, base.len() as int) =~= base);
            assert forall|p: u8| #[trigger] count_port_lines_for(sb, depth as int, p)
                == count_port_lines_for(sb.drop_last(), depth as int, p) + (if p == port {
                1int
            } else {
                0int
            }) by {}
            assert(port_line_consistent(out@.last(), key@, tree@));
            if status_opt is None {
                assert(diags@.len() > dbase.len());
                assert(diags@[diags@.len() - 1].key@ == key@);
                assert(has_diagnostic(diags@, dbase.len() as int, key@, port as int));
            }
            assert forall|i: int|
                base.len() <= i < out@.len() && is_port_line_at(#[trigger] out@[i], depth as int)
                    && port_line_status_missing(out@[i]) implies has_diagnostic(
                diags@,
                dbase.len() as int,
                key@,
                port_line_port(out@[i]),
            ) by {
                if i < out@.len() - 1 {
                    assert(out@[i] == out_before[i]);
                    lemma_has_diagnostic_extend(
                        diags_before,
                        diags@,
                        dbase.len() as int,
                        key@,
                        port_line_port(out@[i]),
                    );
                }
            }
            assert forall|i: int|
                base.len() <= i < out@.len() && is_port_line_at(#[trigger] out@[i], depth as int)
                    implies port_line_consistent(out@[i], key@, tree@) by {
                if i < out@.len() - 1 {
                    assert(out@[i] == out_before[i]);
                }
            }
        }
        if is_hub_child {
            proof {
                lemma_get_len_le_max(tree@, child@);
            }
            let ghost out_mid = out@;
            let ghost diags_mid = diags@;
            match describe_hub(transport, tree, &child, out, diags) {
                Ok(u) => u,
                Err(e) => {
                    hub.close(transport);
                    proof {
                        assert(out@.subrange(0, base.len() as int) =~= out@.subrange(
                            0,
                            out_mid.len() as int,
                        ).subrange(0, base.len() as int));
                        assert(diags@.subrange(0, dbase.len() as int) =~= diags@.subrange(
                            0,
                            diags_mid.len() as int,
                        ).subrange(0, dbase.len() as int));
                    }
                    return Err(e);
                },
            };
            proof {
                let child_added = out@.skip(out_mid.len() as int);
                assert(out@.skip(base.len() as int) =~= out_mid.skip(base.len() as int)
                    + child_added);
                lemma_counts_concat(out_mid.skip(base.len() as int), child_added, depth as int);
                lemma_count_for_concat(out_mid.skip(base.len() as int), child_added, depth as int);
                assert forall|i: int| 0 <= i < child_added.len() implies line_depth(
                    #[trigger] child_added[i],
                ) > depth as int by {
                    assert(line_depth(child_added[i]) >= child@.len() - 2);
                }
                lemma_counts_deeper(child_added, depth as int);
                assert(out@[base.len() as int] == out@.subrange(0, out_mid.len() as int)[base.len() as int]);
                assert(out@[base.len() as int] == out_mid[base.len() as int]);
                assert(out@.subrange(0, base.len() as int) =~= base);
                assert(diags@.subrange(0, dbase.len() as int) =~= dbase);
                assert forall|i: int| base.len() <= i < out@.len() implies line_depth(
                    #[trigger] out@[i],
                ) >= depth as int by {
                    if i < out_mid.len() {
                        assert(out@[i] == out@.subrange(0, out_mid.len() as int)[i]);
                        assert(out@[i] == out_mid[i]);
                    } else {
                        assert(out@[i] == child_added[i - out_mid.len()]);
                    }
                }
                assert forall|i: int|
                    base.len() <= i < out@.len() && is_port_line_at(
                        #[trigger] out@[i],
                        depth as int,
                    ) implies port_line_consistent(out@[i], key@, tree@) by {
                    if i < out_mid.len() {
                        assert(out@[i] == out@.subrange(0, out_mid.len() as int)[i]);
                        assert(out@[i] == out_mid[i]);
                    } else {
                        assert(out@[i] == child_added[i - out_mid.len()]);
                        assert(line_depth(out@[i]) > depth as int);
                    }
                }
                assert forall|i: int|
                    base.len() <= i < out@.len() && is_port_line_at(
                        #[trigger] out@[i],
                        depth as int,
                    ) && port_line_status_missing(out@[i]) implies has_diagnostic(
                    diags@,
                    dbase.len() as int,
                    key@,
                    port_line_port(out@[i]),
                ) by {
                    if i < out_mid.len() {
                        assert(out@[i] == out@.subrange(0, out_mid.len() as int)[i]);
                        assert(out@[i] == out_mid[i]);
                        lemma_has_diagnostic_extend(
                            diags_mid,
                            diags@,
                            dbase.len() as int,
                            key@,
                            port_line_port(out@[i]),
                        );
                    } else {
                        assert(out@[i] == child_added[i - out_mid.len()]);
                        assert(line_depth(out@[i]) > depth as int);
                    }
                }
                assert forall|i: int|
                    base.len() <= i < out@.len() && is_hub_child_line(
                        #[trigger] out@[i],
                        depth as int,
                    ) implies i + 1 < out@.len() && is_hub_line_for(
                    out@[i + 1],
                    depth as int + 1,
                    key@ + seq![(port_line_port(out@[i]) as u8)],
                    spec_get(tree@, key@ + seq![(port_line_port(out@[i]) as u8)]).unwrap(),
                ) by {
                    if i < out_mid.len() - 1 {
                        assert(out@[i] == out@.subrange(0, out_mid.len() as int)[i]);
                        assert(out@[i] == out_mid[i]);
                        assert(out@[i] == out_before[i]);
                        assert(out@[i + 1] == out@.subrange(0, out_mid.len() as int)[i + 1]);
                        assert(out@[i + 1] == out_mid[i + 1]);
                        assert(out@[i + 1] == out_before[i + 1]);
                    } else if i == out_mid.len() - 1 {
                        assert(out@[i] == out@.subrange(0, out_mid.len() as int)[i]);
                        assert(out@[i] == out_mid[i]);
                        assert(port_line_port(out@[i]) == port as int);
                        assert(out@[i + 1] == child_added[0]);
                        assert(child@ =~= key@ + seq![(port_line_port(out@[i]) as u8)]);
                    } else {
                        assert(out@[i] == child_added[i - out_mid.len()]);
                        assert(line_depth(out@[i]) > depth as int);
                    }
                }
            }
        } else {
            proof {
                assert forall|i: int|
                    base.len() <= i < out@.len() && is_hub_child_line(
                        #[trigger] out@[i],
                        depth as int,
                    ) implies i + 1 < out@.len() && is_hub_line_for(
                    out@[i + 1],
                    depth as int + 1,
                    key@ + seq![(port_line_port(out@[i]) as u8)],
                    spec_get(tree@, key@ + seq![(port_line_port(out@[i]) as u8)]).unwrap(),
                ) by {
                    if i < out@.len() - 1 {
                        assert(out@[i] == out_before[i]);
                        assert(out@[i + 1] == out_before[i + 1]);
                    }
                }
            }
        }
        port = port + 1;
    }
    hub.close(transport);
    Ok(())
}

/// Number of root hubs: entries whose key is a bus number and one port
/// and whose record is hub-class.
pub open spec fn count_root_hubs(s: Seq<(Seq<u8>, DeviceRecordView)>) -> int
    decreases s.len(),
{
    if s.len() == 0 {
        0
    } else {
        count_root_hubs(s.drop_last()) + if s.last().0.len() == 2 && s.last().1.device_class
            == DEVICE_CLASS_HUB {
            1int
        } else {
            0int
        }
    }
}

/// The entries the walk starts from, in tree order: keys of a bus number
/// and a single port, with a hub-class record.
pub open spec fn root_hub_entries(s: Seq<(Seq<u8>, DeviceRecordView)>) -> Seq<
    (Seq<u8>, DeviceRecordView),
>
    decreases s.len(),
{
    if s.len() == 0 {
        Seq::empty()
    } else if s.last().0.len() == 2 && s.last().1.device_class == DEVICE_CLASS_HUB {
        root_hub_entries(s.drop_last()).push(s.last())
    } else {
        root_hub_entries(s.drop_last())
    }
}

/// The top-level hub lines of an output, in order.
pub open spec fn top_hub_lines(s: Seq<RenderLine>) -> Seq<RenderLine>
    decreases s.len(),
{
    if s.len() == 0 {
        Seq::empty()
    } else if is_hub_line_at(s.last(), 0) {
        top_hub_lines(s.drop_last()).push(s.last())
    } else {
        top_hub_lines(s.drop_last())
    }
}

/// Selecting the top-level hub lines distributes over concatenation.
proof fn lemma_top_hub_lines_concat(a: Seq<RenderLine>, b: Seq<RenderLine>)
    ensures
        top_hub_lines(a + b) =~= top_hub_lines(a) + top_hub_lines(b),
    decreases b.len(),
{
    if b.len() == 0 {
        assert(a + b =~= a);
        assert(top_hub_lines(a) + top_hub_lines(b) =~= top_hub_lines(a));
    } else {
        assert((a + b).drop_last() =~= a + b.drop_last());
        assert((a + b).last() == b.last());
        lemma_top_hub_lines_concat(a, b.drop_last());
    }
}

/// A stretch with no hub line at a level counts zero there — and the
/// converse: a zero count means no line.
proof fn lemma_count_hub_zero(s: Seq<RenderLine>, d: int)
    requires
        count_hub_lines_at(s, d) == 0,
    ensures
        forall|i: int| 0 <= i < s.len() ==> !is_hub_line_at(#[trigger] s[i], d),
    decreases s.len(),
{
    if s.len() > 0 {
        assert(count_hub_lines_at(s.drop_last(), d) >= 0) by {
            lemma_count_hub_nonneg(s.drop_last(), d);
        }
        lemma_count_hub_zero(s.drop_last(), d);
        assert forall|i: int| 0 <= i < s.len() implies !is_hub_line_at(#[trigger] s[i], d) by {
            if i < s.len() - 1 {
                assert(s[i] == s.drop_last()[i]);
            }
        }
    }
}

/// Counts never go below zero.
proof fn lemma_count_hub_nonneg(s: Seq<RenderLine>, d: int)
    ensures
        count_hub_lines_at(s, d) >= 0,
    decreases s.len(),
{
    if s.len() > 0 {
        lemma_count_hub_nonneg(s.drop_last(), d);
    }
}

/// A stretch with no hub line at the top level contributes none.
proof fn lemma_top_hub_lines_empty(s: Seq<RenderLine>)
    requires
        forall|i: int| 0 <= i < s.len() ==> !is_hub_line_at(#[trigger] s[i], 0),
    ensures
        top_hub_lines(s) =~= Seq::<RenderLine>::empty(),
    decreases s.len(),
{
    if s.len() > 0 {
        lemma_top_hub_lines_empty(s.drop_last());
    }
}

/// A tree counting no root hubs holds no root-hub entry.
proof fn lemma_no_root_hubs(s: Seq<(Seq<u8>, DeviceRecordView)>)
    requires
        count_root_hubs(s) == 0,
    ensures
        forall|i: int|
            0 <= i < s.len() ==> !((#[trigger] s[i]).0.len() == 2 && s[i].1.device_class
                == DEVICE_CLASS_HUB),
    decreases s.len(),
{
    if s.len() > 0 {
        assert(count_root_hubs(s.drop_last()) >= 0) by {
            lemma_count_root_hubs_nonneg(s.drop_last());
        }
        lemma_no_root_hubs(s.drop_last());
        assert forall|i: int|
            0 <= i < s.len() implies !((#[trigger] s[i]).0.len() == 2 && s[i].1.device_class
            == DEVICE_CLASS_HUB) by {
            if i < s.len() - 1 {
                assert(s[i] == s.drop_last()[i]);
            }
        }
    }
}

/// Root-hub counts never go below zero.
proof fn lemma_count_root_hubs_nonneg(s: Seq<(Seq<u8>, DeviceRecordView)>)
    ensures
        count_root_hubs(s) >= 0,
    decreases s.len(),
{
    if s.len() > 0 {
        lemma_count_root_hubs_nonneg(s.drop_last());
    }
}

/// Walk the whole tree: every root hub, in key order, with everything
/// below it.  An `Ok` walk emits one top-level hub line per root-hub
/// entry, the n-th line describing the n-th such entry in tree (that is,
/// key) order; a tree without root hubs renders without touching the
/// transport, and the first failure to open or read a hub aborts the
/// walk.
#[verifier::loop_isolation(false)]
pub fn render_tree<T: UsbTransport>(transport: &mut T, tree: &DeviceTree) -> (r: Result<
    (Vec<RenderLine>, Vec<Diagnostic>),
    Error,
>)
    requires
        tree.wf(),
    ensures
        r matches Ok(p) ==> {
            &&& count_hub_lines_at(p.0@, 0) == count_root_hubs(tree@)
            &&& top_hub_lines(p.0@).len() == root_hub_entries(tree@).len()
            &&& forall|n: int|
                0 <= n < root_hub_entries(tree@).len() ==> is_hub_line_for(
                    #[trigger] top_hub_lines(p.0@)[n],
                    0,
                    root_hub_entries(tree@)[n].0,
                    root_hub_entries(tree@)[n].1,
                )
        },
        count_root_hubs(tree@) == 0 ==> r is Ok,
{
    let mut out: Vec<RenderLine> = Vec::new();
    let mut diags: Vec<Diagnostic> = Vec::new();
    let mut i: usize = 0;
    proof {
        assert(tree@.subrange(0, 0) =~= Seq::<(Seq<u8>, DeviceRecordView)>::empty());
    }
    while i < tree.len()
        invariant
            i <= tree@.len(),
            count_hub_lines_at(out@, 0) == count_root_hubs(tree@.subrange(0, i as int)),
            top_hub_lines(out@).len() == root_hub_entries(tree@.subrange(0, i as int)).len(),
            forall|n: int|
                0 <= n < top_hub_lines(out@).len() ==> is_hub_line_for(
                    #[trigger] top_hub_lines(out@)[n],
                    0,
                    root_hub_entries(tree@.subrange(0, i as int))[n].0,
                    root_hub_entries(tree@.subrange(0, i as int))[n].1,
                ),
        decreases tree@.len() - i,
    {
        let key = tree.key_at(i);
        let record = tree.record_at(i);
        let ghost out_before = out@;
        if key.len() == 2 && record.device_class == DEVICE_CLASS_HUB {
            proof {
                lemma_get_present(tree@, i as int);
            }
            match describe_hub(transport, tree, key, &mut out, &mut diags) {
                Ok(u) => u,
                Err(e) => {
                    proof {
                        if count_root_hubs(tree@) == 0 {
                            lemma_no_root_hubs(tree@);
                            assert(tree@[i as int].0.len() == 2);
                        }
                    }
                    return Err(e);
                },
            };
            proof {
                let added = out@.skip(out_before.len() as int);
                assert(out@ =~= out_before + added);
                lemma_counts_concat(out_before, added, 0);
                lemma_top_hub_lines_concat(out_before, added);
                assert(added =~= seq![added[0]] + added.skip(1));
                lemma_counts_concat(seq![added[0]], added.skip(1), 0);
                assert(is_hub_line_at(added[0], 0));
                assert(count_hub_lines_at(seq![added[0]], 0) == 1) by {
                    assert(seq![added[0]].drop_last() =~= Seq::<RenderLine>::empty());
                    assert(count_hub_lines_at(Seq::<RenderLine>::empty(), 0) == 0);
                    assert(seq![added[0]].last() == added[0]);
                    assert(is_hub_line_at(added[0], 0));
                }
                lemma_count_hub_zero(added.skip(1), 0);
                lemma_top_hub_lines_empty(added.skip(1));
                assert(top_hub_lines(seq![added[0]]) =~= seq![added[0]]) by {
                    assert(seq![added[0]].drop_last() =~= Seq::<RenderLine>::empty());
                    assert(top_hub_lines(Seq::<RenderLine>::empty()) =~= Seq::<
                        RenderLine,
                    >::empty());
                    assert(seq![added[0]].last() == added[0]);
                    assert(is_hub_line_at(added[0], 0));
                }
                lemma_top_hub_lines_concat(seq![added[0]], added.skip(1));
                assert(top_hub_lines(added) =~= seq![added[0]]);
                assert(top_hub_lines(out@) =~= top_hub_lines(out_before).push(added[0]));
            }
        }
        proof {
            assert(tree@.subrange(0, i + 1).drop_last() =~= tree@.subrange(0, i as int));
            assert(tree@.subrange(0, i + 1).last() == tree@[i as int]);
            assert forall|n: int| 0 <= n < top_hub_lines(out@).len() implies is_hub_line_for(
                #[trigger] top_hub_lines(out@)[n],
                0,
                root_hub_entries(tree@.subrange(0, i + 1))[n].0,
                root_hub_entries(tree@.subrange(0, i + 1))[n].1,
            ) by {
                if n < top_hub_lines(out_before).len() {
                    assert(top_hub_lines(out@)[n] == top_hub_lines(out_before)[n]);
                }
            }
        }
        i = i + 1;
    }
    proof {
        assert(tree@.subrange(0, tree@.len() as int) =~= tree@);
    }
    Ok((out, diags))
}

} // verus!
