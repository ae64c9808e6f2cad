//! The flow validator: a structural pass over every connection, then a
//! conversion-resolution pass that annotates each connection with its
//! converter and destination type.  Both passes stop at the first offending
//! connection.

use vstd::prelude::*;

use crate::common::Connection;
use crate::conversion::{conversion_spec, find, Converter};
use crate::errors::{Error, ErrorV};
use crate::message::{fce_display, FceV, TypeV};
use crate::node::Node;
use crate::node_util::{find_node, lemma_find_node_valid, node_by_name};

verus! {

/// Structural validity of one connection: its source node must exist with
/// the output index below the node's output count, and its destination node
/// must exist with the input index below the node's input count.  The first
/// violation found decides the error.
pub open spec fn conn_check<N: Node>(nodes: Seq<N>, c: Connection) -> Result<(), ErrorV> {
    match find_node(nodes, c.source.name@) {
        None => Err(ErrorV::InvalidNodeName(c.source.name@)),
        Some(si) => if c.source.index >= nodes[si].outputs_spec() {
            Err(ErrorV::InvalidPortIndex(c.source.name@, c.source.index))
        } else {
            match find_node(nodes, c.dest.name@) {
                None => Err(ErrorV::InvalidNodeName(c.dest.name@)),
                Some(di) => if c.dest.index >= nodes[di].inputs_spec() {
                    Err(ErrorV::InvalidPortIndex(c.dest.name@, c.dest.index))
                } else {
                    Ok(())
                },
            }
        },
    }
}

pub open spec fn conn_structurally_ok<N: Node>(nodes: Seq<N>, c: Connection) -> bool {
    conn_check(nodes, c) is Ok
}

/// Fail-fast structural validation of a connection list.
pub open spec fn check_spec<N: Node>(nodes: Seq<N>, conns: Seq<Connection>) -> Result<
    (),
    ErrorV,
>
    decreases conns.len(),
{
    if conns.len() == 0 {
        Ok(())
    } else {
        match conn_check(nodes, conns[0]) {
            Err(e) => Err(e),
            Ok(_) => check_spec(nodes, conns.drop_first()),
        }
    }
}

/// Checks that every connection's ports exist on its nodes, stopping at the
/// first violation.
pub fn check_flow<N: Node>(nodes: &Vec<N>, connections: &Vec<Connection>) -> (r: Result<
    (),
    Error,
>)
    ensures
        match r {
            Ok(_) => check_spec(nodes@, connections@) is Ok && forall|i: int|
                0 <= i < connections@.len() ==> conn_structurally_ok(
                    nodes@,
                    #[trigger] connections@[i],
                ),
            Err(e) => check_spec(nodes@, connections@) == Err::<(), ErrorV>(e@),
        },
{
    let ghost conns = connections@;
    proof {
        assert(conns.skip(0) =~= conns);
    }
    let n = connections.len();
    let mut k: usize = 0;
    while k < n
        invariant
            k <= n,
            n == conns.len(),
            conns == connections@,
            check_spec(nodes@, conns.skip(k as int)) == check_spec(nodes@, conns),
            forall|j: int| 0 <= j < k ==> conn_structurally_ok(nodes@, #[trigger] conns[j]),
        decreases n - k,
    {
        proof {
            assert(conns.skip(k as int)[0] == conns[k as int]);
        }
        let c = &connections[k];
        match node_by_name(nodes, c.source.name.as_str()) {
            None => {
                return Err(Error::InvalidNodeName(c.source.name.clone()));
            },
            Some(node) => {
                proof {
                    lemma_find_node_valid(nodes@, c.source.name@);
                }
                if c.source.index >= node.num_outputs() {
                    return Err(Error::InvalidPortIndex(c.source.name.clone(), c.source.index));
                }
            },
        }
        match node_by_name(nodes, c.dest.name.as_str()) {
            None => {
                return Err(Error::InvalidNodeName(c.dest.name.clone()));
            },
            Some(node) => {
                proof {
                    lemma_find_node_valid(nodes@, c.dest.name@);
                }
                if c.dest.index >= node.num_inputs() {
                    return Err(Error::InvalidPortIndex(c.dest.name.clone(), c.dest.index));
                }
            },
        }
        proof {
            assert(conns.skip(k as int).drop_first() =~= conns.skip(k as int + 1));
        }
        k += 1;
    }
    proof {
        assert(conns.skip(n as int) =~= Seq::<Connection>::empty());
    }
    Ok(())
}

/// A fully resolved connection: structurally valid, with the converter and
/// destination type that the resolution pass attaches.  An untyped
/// destination port resolves to the identity conversion with the source's
/// declared type; a typed one resolves through the conversion table.
pub open spec fn conn_resolved_ok<N: Node>(nodes: Seq<N>, c: Connection) -> bool {
    &&& conn_structurally_ok(nodes, c)
    &&& {
        let si = find_node(nodes, c.source.name@)->Some_0;
        let di = find_node(nodes, c.dest.name@)->Some_0;
        let st = nodes[si].output_type_spec(c.source.index as int);
        match nodes[di].input_type_spec(c.dest.index as int) {
            None => {
                &&& c.conversion == Some(Converter::Identity)
                &&& c.dest_type matches Some(dt) && dt@ == st
            },
            Some(it) => {
                &&& c.conversion matches Some(conv) && conversion_spec(st, it) == Ok::<
                    Converter,
                    FceV,
                >(conv)
                &&& c.dest_type matches Some(dt) && dt@ == it
            },
        }
    }
}

/// The resolution error of one structurally valid connection, if any.
pub open spec fn conn_resolve_err<N: Node>(nodes: Seq<N>, c: Connection) -> Option<FceV> {
    let si = find_node(nodes, c.source.name@)->Some_0;
    let di = find_node(nodes, c.dest.name@)->Some_0;
    let st = nodes[si].output_type_spec(c.source.index as int);
    match nodes[di].input_type_spec(c.dest.index as int) {
        None => None,
        Some(it) => match conversion_spec(st, it) {
            Ok(_) => None,
            Err(e) => Some(e),
        },
    }
}

/// Fail-fast conversion resolution over a connection list.
pub open spec fn resolve_spec<N: Node>(nodes: Seq<N>, conns: Seq<Connection>) -> Result<
    (),
    ErrorV,
>
    decreases conns.len(),
{
    if conns.len() == 0 {
        Ok(())
    } else {
        match conn_resolve_err(nodes, conns[0]) {
            Some(e) => Err(ErrorV::ConversionError(fce_display(e))),
            None => resolve_spec(nodes, conns.drop_first()),
        }
    }
}

/// Resolves and caches a converter and destination type on every
/// structurally valid connection, stopping at the first connection whose
/// types admit no conversion.  The connections keep their ports; only the
/// cached conversion fields change.
pub fn find_conversions<N: Node>(nodes: &Vec<N>, connections: &mut Vec<Connection>) -> (r:
    Result<(), Error>)
    requires
        forall|i: int|
            0 <= i < old(connections)@.len() ==> conn_structurally_ok(
                nodes@,
                #[trigger] old(connections)@[i],
            ),
    ensures
        match r {
            Ok(_) => {
                &&& resolve_spec(nodes@, old(connections)@) is Ok
                &&& final(connections)@.len() == old(connections)@.len()
                &&& forall|i: int|
                    0 <= i < old(connections)@.len() ==> {
                        &&& (#[trigger] final(connections)@[i]).source@ == old(
                            connections,
                        )@[i].source@
                        &&& final(connections)@[i].dest@ == old(connections)@[i].dest@
                        &&& conn_resolved_ok(nodes@, final(connections)@[i])
                    }
            },
            Err(e) => resolve_spec(nodes@, old(connections)@) == Err::<(), ErrorV>(e@),
        },
{
    let ghost orig = old(connections)@;
    proof {
        assert(orig.skip(0) =~= orig);
    }
    let n = connections.len();
    let mut k: usize = 0;
    while k < n
        invariant
            orig == old(connections)@,
            k <= n,
            n == orig.len(),
            connections@.len() == n,
            forall|i: int|
                0 <= i < n ==> conn_structurally_ok(nodes@, #[trigger] orig[i]),
            forall|j: int| k <= j < n ==> #[trigger] connections@[j] == orig[j],
            resolve_spec(nodes@, orig.skip(k as int)) == resolve_spec(nodes@, orig),
            forall|j: int|
                0 <= j < k ==> {
                    &&& (#[trigger] connections@[j]).source@ == orig[j].source@
                    &&& connections@[j].dest@ == orig[j].dest@
                    &&& conn_resolved_ok(nodes@, connections@[j])
                },
        decreases n - k,
    {
        proof {
            assert(orig.skip(k as int)[0] == orig[k as int]);
        }
        let src_name = connections[k].source.name.clone();
        let src_index = connections[k].source.index;
        let dst_name = connections[k].dest.name.clone();
        let dst_index = connections[k].dest.index;
        let source_node = match node_by_name(nodes, src_name.as_str()) {
            Some(nd) => nd,
            None => {
                proof {
                    assert(false);
                }
                vstd::pervasive::unreached()
            },
        };
        let source_type = source_node.output_type(src_index);
        let dest_node = match node_by_name(nodes, dst_name.as_str()) {
            Some(nd) => nd,
            None => {
                proof {
                    assert(false);
                }
                vstd::pervasive::unreached()
            },
        };
        let chosen: (Converter, crate::message::MessageType) = match dest_node.input_type(
            dst_index,
        ) {
            None => (Converter::Identity, source_type.deep_copy()),
            Some(dest_type) => {
                match find(source_type, dest_type) {
                    Ok(conv) => (conv, dest_type.deep_copy()),
                    Err(e) => {
                        proof {
                            let c = orig[k as int];
                            let si = find_node(nodes@, c.source.name@)->Some_0;
                            let di = find_node(nodes@, c.dest.name@)->Some_0;
                            assert(*source_node == nodes@[si]);
                            assert(*dest_node == nodes@[di]);
                            assert(conn_resolve_err(nodes@, c) == Some(e@));
                            assert(resolve_spec(nodes@, orig.skip(k as int)) == Err::<
                                (),
                                ErrorV,
                            >(ErrorV::ConversionError(fce_display(e@))));
                        }
                        let msg = e.to_display_string();
                        return Err(Error::ConversionError(msg));
                    },
                }
            },
        };
        let (conv, dt) = chosen;
        let updated = Connection {
            source: crate::common::NodePort { name: src_name, index: src_index },
            dest: crate::common::NodePort { name: dst_name, index: dst_index },
            conversion: Some(conv),
            dest_type: Some(dt),
        };
        proof {
            assert(orig.skip(k as int).drop_first() =~= orig.skip(k as int + 1));
        }
        vstd::pervasive::VecAdditionalExecFns::set(connections, k, updated);
        k += 1;
    }
    proof {
        assert(orig.skip(n as int) =~= Seq::<Connection>::empty());
    }
    Ok(())
}

/// The boundary law of structural validation: a connection naming a node
/// that is not in the graph fails with `InvalidNodeName`; a source index
/// equal to the named node's declared output count fails with
/// `InvalidPortIndex`, while the last in-range index passes the source-side
/// check; and a connection whose two ports both exist and are in range
/// passes altogether.
pub proof fn lemma_structural_boundaries<N: Node>(nodes: Seq<N>, c: Connection)
    ensures
        find_node(nodes, c.source.name@) is None ==> conn_check(nodes, c) == Err::<(), ErrorV>(
            ErrorV::InvalidNodeName(c.source.name@),
        ),
        (find_node(nodes, c.source.name@) matches Some(si) && c.source.index == nodes[
            si
        ].outputs_spec()) ==> conn_check(nodes, c) == Err::<(), ErrorV>(
            ErrorV::InvalidPortIndex(c.source.name@, c.source.index),
        ),
        (find_node(nodes, c.source.name@) matches Some(si) && c.source.index < nodes[
            si
        ].outputs_spec() && (find_node(nodes, c.dest.name@) matches Some(di) && c.dest.index
            < nodes[di].inputs_spec())) ==> conn_check(nodes, c) is Ok,
{
}

} // verus!
