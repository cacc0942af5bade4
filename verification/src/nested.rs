//! The nested composer: a recursive decode of raw attribute trees driven by
//! the nested-flag bit of the type field. A record whose type field carries
//! the nested flag holds a whole attribute list as its value; decoding
//! follows that recursion to a caller-given depth limit and fails with
//! `NestingTooDeep` beyond it, rather than recursing unboundedly.

use vstd::prelude::*;
use vstd::bytes::{
    spec_u16_from_le_bytes, lemma_auto_spec_u16_to_from_le_bytes, u16_from_le_bytes,
};
use vstd::slice::{slice_subrange, slice_to_vec};
use crate::align::{spec_align4, lemma_align4_smallest, align4, pad4};
use crate::error::DecodeError;
use crate::nla::{spec_record_bytes, spec_zeros, lemma_record_bytes_facts};
use crate::values::{push_u16_le};

verus! {

/// The bit of the type field that marks a record's value as a nested
/// attribute list.
pub const NLA_F_NESTED: u16 = 0x8000;

/// The bit of the type field that marks a record's value as big-endian.
pub const NLA_F_NET_BYTEORDER: u16 = 0x4000;

/// The mask of the 14-bit numeric code within the type field.
pub const NLA_TYPE_MASK: u16 = 0x3fff;

/// A sensible default recursion limit: real traffic nests a handful of
/// levels at most.
pub const NLA_NESTING_LIMIT: usize = 8;

/// The payload of one raw attribute: plain bytes, or a nested list.
#[derive(Debug, PartialEq, Eq)]
pub enum NlaPayload {
    /// A leaf value, raw bytes.
    Value(Vec<u8>),
    /// A nested attribute list.
    Nested(Vec<NlaNode>),
}

/// One raw attribute of an attribute tree: the two flag bits and the 14-bit
/// code of its type field, and its payload.
#[derive(Debug, PartialEq, Eq)]
pub struct NlaNode {
    /// The big-endian flag of the type field.
    pub net_byte_order: bool,
    /// The 14-bit numeric code of the type field.
    pub code: u16,
    /// The value: bytes, or the nested list the nested flag announces.
    pub payload: NlaPayload,
}

/// The model of an [`NlaPayload`].
pub enum NlaPayloadModel {
    Value(Seq<u8>),
    Nested(Seq<NlaNodeModel>),
}

/// The model of an [`NlaNode`].
pub struct NlaNodeModel {
    pub net_byte_order: bool,
    pub code: u16,
    pub payload: NlaPayloadModel,
}

impl NlaNode {
    /// The model of this node.
    pub open spec fn model(&self) -> NlaNodeModel
        decreases self,
    {
        NlaNodeModel {
            net_byte_order: self.net_byte_order,
            code: self.code,
            payload: match self.payload {
                NlaPayload::Value(v) => NlaPayloadModel::Value(v@),
                NlaPayload::Nested(ch) => NlaPayloadModel::Nested(spec_models_of_nodes(ch@)),
            },
        }
    }
}

/// The models of a list of nodes.
pub open spec fn spec_models_of_nodes(ns: Seq<NlaNode>) -> Seq<NlaNodeModel>
    decreases ns,
{
    if ns.len() == 0 {
        Seq::empty()
    } else {
        seq![ns[0].model()] + spec_models_of_nodes(ns.subrange(1, ns.len() as int))
    }
}

/// The model list is the element-wise model of the node list.
pub proof fn lemma_models_of_nodes(ns: Seq<NlaNode>)
    ensures
        spec_models_of_nodes(ns).len() == ns.len(),
        forall|i: int| 0 <= i < ns.len() ==> spec_models_of_nodes(ns)[i] == ns[i].model(),
    decreases ns.len(),
{
    if ns.len() > 0 {
        lemma_models_of_nodes(ns.subrange(1, ns.len() as int));
        assert forall|i: int| 0 <= i < ns.len() implies spec_models_of_nodes(ns)[i]
            == ns[i].model() by {
            if i > 0 {
                assert(ns.subrange(1, ns.len() as int)[i - 1] == ns[i]);
            }
        }
    }
}

/// Appending one node appends its model.
pub proof fn lemma_models_of_nodes_push(ns: Seq<NlaNode>, n: NlaNode)
    ensures
        spec_models_of_nodes(ns.push(n)) == spec_models_of_nodes(ns).push(n.model()),
{
    lemma_models_of_nodes(ns);
    lemma_models_of_nodes(ns.push(n));
    assert(spec_models_of_nodes(ns.push(n)) =~= spec_models_of_nodes(ns).push(n.model()));
}

/// The type field a node is written under: code plus flag bits; the nested
/// flag is set exactly when the payload is a nested list.
pub open spec fn spec_node_type(m: NlaNodeModel) -> u16 {
    (m.code + (if m.net_byte_order {
        0x4000int
    } else {
        0int
    }) + (if m.payload is Nested {
        0x8000int
    } else {
        0int
    })) as u16
}

/// The value bytes of a node: its leaf bytes, or its children's records.
pub open spec fn spec_node_value(m: NlaNodeModel) -> Seq<u8>
    decreases m, 1int,
{
    match m.payload {
        NlaPayloadModel::Value(v) => v,
        NlaPayloadModel::Nested(ch) => spec_forest_bytes(ch),
    }
}

/// The record bytes of a whole list of nodes, in order.
pub open spec fn spec_forest_bytes(ms: Seq<NlaNodeModel>) -> Seq<u8>
    decreases ms, 2int,
{
    if ms.len() == 0 {
        Seq::empty()
    } else {
        spec_record_bytes(spec_node_type(ms[0]), spec_node_value(ms[0])) + spec_forest_bytes(
            ms.subrange(1, ms.len() as int),
        )
    }
}

/// The nesting depth of a node: how many nested lists sit below it.
pub open spec fn spec_node_depth(m: NlaNodeModel) -> nat
    decreases m, 1int,
{
    match m.payload {
        NlaPayloadModel::Value(_) => 0,
        NlaPayloadModel::Nested(ch) => 1 + spec_forest_depth(ch),
    }
}

/// The nesting depth of a list of nodes: the deepest of its nodes.
pub open spec fn spec_forest_depth(ms: Seq<NlaNodeModel>) -> nat
    decreases ms, 2int,
{
    if ms.len() == 0 {
        0
    } else {
        let d0 = spec_node_depth(ms[0]);
        let dr = spec_forest_depth(ms.subrange(1, ms.len() as int));
        if d0 >= dr {
            d0
        } else {
            dr
        }
    }
}

/// A node's well-formedness: the code fits 14 bits, and the value fits a
/// record's 16-bit stored length, recursively.
pub open spec fn spec_node_wf(m: NlaNodeModel) -> bool
    decreases m, 1int,
{
    &&& m.code <= 0x3fff
    &&& spec_node_value(m).len() + 4 <= 0xffff
    &&& match m.payload {
        NlaPayloadModel::Value(_) => true,
        NlaPayloadModel::Nested(ch) => spec_forest_wf(ch),
    }
}

/// A list of nodes is well-formed when each node is.
pub open spec fn spec_forest_wf(ms: Seq<NlaNodeModel>) -> bool
    decreases ms, 2int,
{
    forall|i: int| 0 <= i < ms.len() ==> spec_node_wf(#[trigger] ms[i])
}

/// What decoding an attribute tree from a range yields with `depth` levels
/// of nesting still allowed: the nodes in order, or the first failure.
pub open spec fn spec_parse_forest(b: Seq<u8>, depth: nat) -> Result<Seq<NlaNodeModel>, DecodeError>
    decreases b.len(),
{
    if b.len() == 0 {
        Ok(Seq::empty())
    } else if b.len() < 4 {
        Err(DecodeError::TooShort { expected: 4, available: b.len() as usize })
    } else {
        let stored = spec_u16_from_le_bytes(b.subrange(0, 2)) as int;
        let typ = spec_u16_from_le_bytes(b.subrange(2, 4));
        if stored < 4 {
            Err(DecodeError::InvalidField { code: (typ & NLA_TYPE_MASK) })
        } else if stored > b.len() {
            Err(DecodeError::TooShort { expected: stored as usize, available: b.len() as usize })
        } else {
            let value = b.subrange(4, stored);
            let next = if spec_align4(stored) <= b.len() {
                spec_align4(stored)
            } else {
                b.len() as int
            };
            let node = if typ >= 0x8000 {
                if depth == 0 {
                    Err(DecodeError::NestingTooDeep)
                } else {
                    match spec_parse_forest(value, (depth - 1) as nat) {
                        Ok(ch) => Ok(
                            NlaNodeModel {
                                net_byte_order: (typ / 0x4000) % 2 == 1,
                                code: (typ % 0x4000) as u16,
                                payload: NlaPayloadModel::Nested(ch),
                            },
                        ),
                        Err(e) => Err(e),
                    }
                }
            } else {
                Ok(
                    NlaNodeModel {
                        net_byte_order: (typ / 0x4000) % 2 == 1,
                        code: (typ % 0x4000) as u16,
                        payload: NlaPayloadModel::Value(value),
                    },
                )
            };
            match node {
                Ok(n) => match spec_parse_forest(b.subrange(next, b.len() as int), depth) {
                    Ok(rest) => Ok(seq![n] + rest),
                    Err(e) => Err(e),
                },
                Err(e) => Err(e),
            }
        }
    }
}

/// Composing a type field from its parts and splitting it again agree.
proof fn lemma_node_type_split(m: NlaNodeModel)
    requires
        m.code <= 0x3fff,
    ensures
        spec_node_type(m) % 0x4000 == m.code,
        (spec_node_type(m) / 0x4000) % 2 == 1 <==> m.net_byte_order,
        spec_node_type(m) >= 0x8000 <==> m.payload is Nested,
{
    let be: u16 = if m.net_byte_order {
        1
    } else {
        0
    };
    let ne: u16 = if m.payload is Nested {
        1
    } else {
        0
    };
    let t = spec_node_type(m) as int;
    assert(t == m.code + be * 0x4000 + ne * 0x8000);
    assert(t % 0x4000 == m.code && (t / 0x4000) % 2 == be && (t >= 0x8000 <==> ne == 1))
        by (nonlinear_arith)
        requires
            t == m.code + be * 0x4000 + ne * 0x8000,
            0 <= m.code <= 0x3fff,
            be == 0 || be == 1,
            ne == 0 || ne == 1,
    ;
}

/// The round-trip law for attribute trees, decode after encode: with any
/// depth allowance at least the tree's own depth, decoding the encoding of a
/// well-formed tree yields the tree back.
pub proof fn lemma_forest_roundtrip(ms: Seq<NlaNodeModel>, depth: nat)
    requires
        spec_forest_wf(ms),
        spec_forest_depth(ms) <= depth,
    ensures
        spec_parse_forest(spec_forest_bytes(ms), depth) == Ok::<Seq<NlaNodeModel>, DecodeError>(
            ms,
        ),
    decreases ms, 3int,
{
    lemma_auto_spec_u16_to_from_le_bytes();
    if ms.len() == 0 {
        assert(ms =~= Seq::<NlaNodeModel>::empty());
        assert(spec_forest_bytes(ms) == Seq::<u8>::empty());
    } else {
        let m = ms[0];
        let typ = spec_node_type(m);
        let val = spec_node_value(m);
        let stored = val.len() + 4;
        let rec = spec_record_bytes(typ, val);
        let tail = ms.subrange(1, ms.len() as int);
        let rest = spec_forest_bytes(tail);
        let b = spec_forest_bytes(ms);
        assert(b == rec + rest);
        lemma_record_bytes_facts(typ, val);
        lemma_align4_smallest(stored as int);
        lemma_node_type_split(m);
        assert(rec.len() == spec_align4(stored as int));
        assert(b.len() >= 4);
        assert(b.subrange(0, 2) =~= rec.subrange(0, 2));
        assert(b.subrange(2, 4) =~= rec.subrange(2, 4));
        assert(spec_u16_from_le_bytes(b.subrange(0, 2)) == stored as u16);
        assert(spec_u16_from_le_bytes(b.subrange(2, 4)) == typ);
        assert(stored <= rec.len() <= b.len());
        assert(b.subrange(4, stored as int) =~= rec.subrange(4, stored as int));
        assert(b.subrange(4, stored as int) == val);
        let next = spec_align4(stored as int);
        assert(b.subrange(next, b.len() as int) =~= rest);
        assert(spec_forest_depth(tail) <= spec_forest_depth(ms));
        lemma_forest_roundtrip(tail, depth);
        match m.payload {
            NlaPayloadModel::Value(_) => {
                assert(typ < 0x8000);
            },
            NlaPayloadModel::Nested(ch) => {
                assert(typ >= 0x8000);
                assert(spec_node_depth(m) == 1 + spec_forest_depth(ch));
                assert(spec_node_depth(m) <= spec_forest_depth(ms));
                assert(depth >= 1);
                lemma_forest_roundtrip(ch, (depth - 1) as nat);
            },
        }
        assert(spec_parse_forest(b, depth) == Ok::<Seq<NlaNodeModel>, DecodeError>(seq![m] + tail));
        assert(seq![m] + tail =~= ms);
    }
}

/// The depth law: decoding the encoding of a well-formed tree with a depth
/// allowance smaller than the tree's depth fails with `NestingTooDeep`, and
/// with nothing else.
pub proof fn lemma_forest_depth_limit(ms: Seq<NlaNodeModel>, depth: nat)
    requires
        spec_forest_wf(ms),
        depth < spec_forest_depth(ms),
    ensures
        spec_parse_forest(spec_forest_bytes(ms), depth) == Err::<Seq<NlaNodeModel>, DecodeError>(
            DecodeError::NestingTooDeep,
        ),
    decreases ms, 3int,
{
    lemma_auto_spec_u16_to_from_le_bytes();
    let m = ms[0];
    let typ = spec_node_type(m);
    let val = spec_node_value(m);
    let stored = val.len() + 4;
    let rec = spec_record_bytes(typ, val);
    let tail = ms.subrange(1, ms.len() as int);
    let rest = spec_forest_bytes(tail);
    let b = spec_forest_bytes(ms);
    assert(b == rec + rest);
    lemma_record_bytes_facts(typ, val);
    lemma_align4_smallest(stored as int);
    lemma_node_type_split(m);
    assert(b.len() >= 4);
    assert(b.subrange(0, 2) =~= rec.subrange(0, 2));
    assert(b.subrange(2, 4) =~= rec.subrange(2, 4));
    assert(spec_u16_from_le_bytes(b.subrange(0, 2)) == stored as u16);
    assert(spec_u16_from_le_bytes(b.subrange(2, 4)) == typ);
    assert(stored <= rec.len() <= b.len());
    assert(b.subrange(4, stored as int) =~= rec.subrange(4, stored as int));
    assert(b.subrange(4, stored as int) == val);
    let next = spec_align4(stored as int);
    assert(b.subrange(next, b.len() as int) =~= rest);
    if spec_node_depth(m) > depth {
        match m.payload {
            NlaPayloadModel::Value(_) => {
                assert(false);
            },
            NlaPayloadModel::Nested(ch) => {
                if depth == 0 {
                } else {
                    if spec_forest_depth(ch) <= depth - 1 {
                        assert(spec_node_depth(m) <= depth);
                    } else {
                        lemma_forest_depth_limit(ch, (depth - 1) as nat);
                    }
                }
            },
        }
    } else {
        assert(spec_forest_depth(tail) > depth);
        match m.payload {
            NlaPayloadModel::Value(_) => {},
            NlaPayloadModel::Nested(ch) => {
                lemma_forest_roundtrip(ch, (depth - 1) as nat);
            },
        }
        lemma_forest_depth_limit(tail, depth);
        assert(spec_parse_forest(b.subrange(next, b.len() as int), depth) == Err::<
            Seq<NlaNodeModel>,
            DecodeError,
        >(DecodeError::NestingTooDeep));
    }
}

/// Decodes an attribute tree with `depth` levels of nesting allowed, exactly
/// as [`spec_parse_forest`] says. The call stack is bounded by `depth`:
/// sibling records are walked by the loop, and only a nested list recurses.
pub fn parse_forest(buf: &[u8], depth: usize) -> (r: Result<Vec<NlaNode>, DecodeError>)
    ensures
        match r {
            Ok(v) => spec_parse_forest(buf@, depth as nat) == Ok::<Seq<NlaNodeModel>, DecodeError>(
                spec_models_of_nodes(v@),
            ),
            Err(e) => spec_parse_forest(buf@, depth as nat) == Err::<
                Seq<NlaNodeModel>,
                DecodeError,
            >(e),
        },
    decreases buf@.len(),
{
    let len = buf.len();
    let mut out: Vec<NlaNode> = Vec::new();
    let mut i: usize = 0;
    proof {
        assert(buf@.subrange(0, len as int) =~= buf@);
        assert forall|s: Seq<NlaNodeModel>|
            spec_parse_forest(buf@.subrange(0, len as int), depth as nat) == Ok::<
                Seq<NlaNodeModel>,
                DecodeError,
            >(s) implies spec_parse_forest(buf@, depth as nat) == Ok::<
            Seq<NlaNodeModel>,
            DecodeError,
        >(spec_models_of_nodes(out@) + s) by {
            assert(spec_models_of_nodes(out@) + s =~= s);
        }
    }
    while i < len
        invariant
            i <= len,
            len == buf@.len(),
            forall|s: Seq<NlaNodeModel>|
                spec_parse_forest(buf@.subrange(i as int, len as int), depth as nat) == Ok::<
                    Seq<NlaNodeModel>,
                    DecodeError,
                >(s) ==> spec_parse_forest(buf@, depth as nat) == Ok::<
                    Seq<NlaNodeModel>,
                    DecodeError,
                >(spec_models_of_nodes(out@) + s),
            forall|e: DecodeError|
                spec_parse_forest(buf@.subrange(i as int, len as int), depth as nat) == Err::<
                    Seq<NlaNodeModel>,
                    DecodeError,
                >(e) ==> spec_parse_forest(buf@, depth as nat) == Err::<
                    Seq<NlaNodeModel>,
                    DecodeError,
                >(e),
        decreases len - i,
    {
        let ghost suffix = buf@.subrange(i as int, len as int);
        let rem = len - i;
        if rem < 4 {
            return Err(DecodeError::TooShort { expected: 4, available: rem });
        }
        let stored = u16_from_le_bytes(slice_subrange(buf, i, i + 2)) as usize;
        let typ = u16_from_le_bytes(slice_subrange(buf, i + 2, i + 4));
        proof {
            assert(buf@.subrange(i as int, i + 2) =~= suffix.subrange(0, 2));
            assert(buf@.subrange(i + 2, i + 4) =~= suffix.subrange(2, 4));
        }
        if stored < 4 {
            return Err(DecodeError::InvalidField { code: typ & NLA_TYPE_MASK });
        }
        if stored > rem {
            return Err(DecodeError::TooShort { expected: stored, available: rem });
        }
        let value = slice_subrange(buf, i + 4, i + stored);
        proof {
            assert(buf@.subrange(i + 4, i + stored) =~= suffix.subrange(4, stored as int));
        }
        let net_byte_order = (typ / 0x4000) % 2 == 1;
        let code = typ % 0x4000;
        let node: NlaNode;
        if typ >= 0x8000 {
            if depth == 0 {
                return Err(DecodeError::NestingTooDeep);
            }
            assert(value@.len() < buf@.len());
            match parse_forest(value, depth - 1) {
                Ok(ch) => {
                    node = NlaNode { net_byte_order, code, payload: NlaPayload::Nested(ch) };
                },
                Err(e) => {
                    return Err(e);
                },
            }
        } else {
            node = NlaNode { net_byte_order, code, payload: NlaPayload::Value(slice_to_vec(value)) };
        }
        let aligned = align4(stored);
        let step = if aligned < rem {
            aligned
        } else {
            rem
        };
        proof {
            let ghost next = i + step;
            assert(buf@.subrange(next as int, len as int) =~= suffix.subrange(
                step as int,
                suffix.len() as int,
            ));
            assert forall|s: Seq<NlaNodeModel>|
                spec_parse_forest(buf@.subrange(next as int, len as int), depth as nat) == Ok::<
                    Seq<NlaNodeModel>,
                    DecodeError,
                >(s) implies spec_parse_forest(buf@, depth as nat) == Ok::<
                Seq<NlaNodeModel>,
                DecodeError,
            >(spec_models_of_nodes(out@.push(node)) + s) by {
                assert(spec_parse_forest(suffix, depth as nat) == Ok::<
                    Seq<NlaNodeModel>,
                    DecodeError,
                >(seq![node.model()] + s));
                lemma_models_of_nodes_push(out@, node);
                assert(spec_models_of_nodes(out@) + (seq![node.model()] + s)
                    =~= spec_models_of_nodes(out@.push(node)) + s);
            }
            assert forall|e: DecodeError|
                spec_parse_forest(buf@.subrange(next as int, len as int), depth as nat) == Err::<
                    Seq<NlaNodeModel>,
                    DecodeError,
                >(e) implies spec_parse_forest(buf@, depth as nat) == Err::<
                Seq<NlaNodeModel>,
                DecodeError,
            >(e) by {
                assert(spec_parse_forest(suffix, depth as nat) == Err::<
                    Seq<NlaNodeModel>,
                    DecodeError,
                >(e));
            }
        }
        out.push(node);
        i = i + step;
    }
    proof {
        assert(buf@.subrange(len as int, len as int) =~= Seq::<u8>::empty());
        assert(spec_parse_forest(buf@.subrange(len as int, len as int), depth as nat) == Ok::<
            Seq<NlaNodeModel>,
            DecodeError,
        >(Seq::<NlaNodeModel>::empty()));
        assert(spec_models_of_nodes(out@) + Seq::<NlaNodeModel>::empty() =~= spec_models_of_nodes(
            out@,
        ));
    }
    Ok(out)
}

/// Encodes a whole attribute tree: each node's record in order, recursing
/// into nested lists.
pub fn emit_forest(nodes: &Vec<NlaNode>, out: &mut Vec<u8>)
    requires
        spec_forest_wf(spec_models_of_nodes(nodes@)),
    ensures
        final(out)@ == old(out)@ + spec_forest_bytes(spec_models_of_nodes(nodes@)),
    decreases nodes@,
{
    let n = nodes.len();
    let mut i: usize = 0;
    proof {
        assert(spec_models_of_nodes(nodes@).subrange(0, 0) =~= Seq::<NlaNodeModel>::empty());
        lemma_forest_bytes_prefix_empty(spec_models_of_nodes(nodes@));
    }
    while i < n
        invariant
            i <= n,
            n == nodes@.len(),
            spec_forest_wf(spec_models_of_nodes(nodes@)),
            out@ == old(out)@ + spec_forest_bytes(spec_models_of_nodes(nodes@).subrange(0, i as int)),
        decreases n - i,
    {
        let node = &nodes[i];
        let ghost m = node.model();
        proof {
            lemma_models_of_nodes(nodes@);
            assert(spec_models_of_nodes(nodes@)[i as int] == m);
            assert(spec_node_wf(m));
        }
        let vlen = node_value_len(node);
        let stored: u16 = (vlen + 4) as u16;
        push_u16_le(out, stored);
        let flag_nested: u16 = match &node.payload {
            NlaPayload::Value(_) => 0,
            NlaPayload::Nested(_) => 0x8000,
        };
        let flag_be: u16 = if node.net_byte_order {
            0x4000
        } else {
            0
        };
        push_u16_le(out, node.code + flag_be + flag_nested);
        let ghost mid = out@;
        match &node.payload {
            NlaPayload::Value(v) => {
                out.extend_from_slice(v.as_slice());
            },
            NlaPayload::Nested(ch) => {
                proof {
                    assert(spec_models_of_nodes(ch@) =~= m.payload->Nested_0);
                }
                emit_forest(ch, out);
            },
        }
        assert(out@ == mid + spec_node_value(m));
        let ghost before_pad = out@;
        let pad = pad4(vlen + 4);
        let mut j: usize = 0;
        while j < pad
            invariant
                j <= pad,
                out@ == before_pad + spec_zeros(j as nat),
            decreases pad - j,
        {
            out.push(0u8);
            assert(before_pad + spec_zeros(j as nat) + seq![0u8] =~= before_pad + spec_zeros(
                (j + 1) as nat,
            ));
            j = j + 1;
        }
        proof {
            assert(out@ =~= old(out)@ + spec_forest_bytes(
                spec_models_of_nodes(nodes@).subrange(0, i as int),
            ) + spec_record_bytes(spec_node_type(m), spec_node_value(m)));
            lemma_forest_bytes_push(spec_models_of_nodes(nodes@).subrange(0, i as int), m);
            lemma_models_of_nodes(nodes@);
            assert(spec_models_of_nodes(nodes@).subrange(0, i + 1) =~= spec_models_of_nodes(
                nodes@,
            ).subrange(0, i as int).push(m));
        }
        i = i + 1;
    }
    proof {
        lemma_models_of_nodes(nodes@);
        assert(spec_models_of_nodes(nodes@).subrange(0, n as int) =~= spec_models_of_nodes(
            nodes@,
        ));
    }
}

/// Appending one node appends its record's bytes.
proof fn lemma_forest_bytes_push(ms: Seq<NlaNodeModel>, m: NlaNodeModel)
    ensures
        spec_forest_bytes(ms.push(m)) == spec_forest_bytes(ms) + spec_record_bytes(
            spec_node_type(m),
            spec_node_value(m),
        ),
    decreases ms.len(),
{
    if ms.len() == 0 {
        assert(ms.push(m)[0] == m);
        assert(ms.push(m).subrange(1, 1) =~= Seq::<NlaNodeModel>::empty());
        let rec = spec_record_bytes(spec_node_type(m), spec_node_value(m));
        assert(spec_forest_bytes(ms.push(m)) == rec + spec_forest_bytes(
            Seq::<NlaNodeModel>::empty(),
        ));
        assert(rec + Seq::<u8>::empty() =~= rec);
        assert(Seq::<u8>::empty() + rec =~= rec);
    } else {
        assert(ms.push(m).subrange(1, ms.len() + 1 as int) =~= ms.subrange(
            1,
            ms.len() as int,
        ).push(m));
        lemma_forest_bytes_push(ms.subrange(1, ms.len() as int), m);
        assert(spec_forest_bytes(ms.push(m)) =~= spec_forest_bytes(ms) + spec_record_bytes(
            spec_node_type(m),
            spec_node_value(m),
        ));
    }
}

/// An empty prefix of a forest encodes to no bytes.
proof fn lemma_forest_bytes_prefix_empty(ms: Seq<NlaNodeModel>)
    ensures
        spec_forest_bytes(ms.subrange(0, 0)) == Seq::<u8>::empty(),
{
    assert(ms.subrange(0, 0) =~= Seq::<NlaNodeModel>::empty());
}

/// The length of a node's value bytes.
fn node_value_len(node: &NlaNode) -> (r: usize)
    requires
        spec_node_wf(node.model()),
    ensures
        r == spec_node_value(node.model()).len(),
    decreases node,
{
    match &node.payload {
        NlaPayload::Value(v) => v.len(),
        NlaPayload::Nested(ch) => {
            proof {
                assert(spec_models_of_nodes(ch@) =~= node.model().payload->Nested_0);
            }
            forest_len(ch)
        },
    }
}

/// The number of bytes a whole node list's records occupy.
fn forest_len(nodes: &Vec<NlaNode>) -> (r: usize)
    requires
        spec_forest_wf(spec_models_of_nodes(nodes@)),
        spec_forest_bytes(spec_models_of_nodes(nodes@)).len() + 4 <= 0xffff,
    ensures
        r == spec_forest_bytes(spec_models_of_nodes(nodes@)).len(),
    decreases nodes@,
{
    let n = nodes.len();
    let mut total: usize = 0;
    let mut i: usize = 0;
    proof {
        lemma_forest_bytes_prefix_empty(spec_models_of_nodes(nodes@));
    }
    while i < n
        invariant
            i <= n,
            n == nodes@.len(),
            spec_forest_wf(spec_models_of_nodes(nodes@)),
            spec_forest_bytes(spec_models_of_nodes(nodes@)).len() + 4 <= 0xffff,
            total == spec_forest_bytes(spec_models_of_nodes(nodes@).subrange(0, i as int)).len(),
        decreases n - i,
    {
        let node = &nodes[i];
        let ghost m = node.model();
        proof {
            lemma_models_of_nodes(nodes@);
            assert(spec_models_of_nodes(nodes@)[i as int] == m);
            assert(spec_node_wf(m));
            lemma_record_bytes_facts(spec_node_type(m), spec_node_value(m));
            lemma_forest_bytes_push(spec_models_of_nodes(nodes@).subrange(0, i as int), m);
            assert(spec_models_of_nodes(nodes@).subrange(0, i + 1) =~= spec_models_of_nodes(
                nodes@,
            ).subrange(0, i as int).push(m));
            lemma_forest_bytes_prefix_le(spec_models_of_nodes(nodes@), i + 1);
        }
        let vlen = node_value_len(node);
        total = total + align4(vlen + 4);
        i = i + 1;
    }
    proof {
        lemma_models_of_nodes(nodes@);
        assert(spec_models_of_nodes(nodes@).subrange(0, n as int) =~= spec_models_of_nodes(
            nodes@,
        ));
    }
    total
}

/// A prefix of a forest occupies no more bytes than the whole forest.
proof fn lemma_forest_bytes_prefix_le(ms: Seq<NlaNodeModel>, i: int)
    requires
        0 <= i <= ms.len(),
    ensures
        spec_forest_bytes(ms.subrange(0, i)).len() <= spec_forest_bytes(ms).len(),
    decreases ms.len() - i,
{
    if i < ms.len() {
        lemma_forest_bytes_push(ms.subrange(0, i), ms[i]);
        assert(ms.subrange(0, i + 1) =~= ms.subrange(0, i).push(ms[i]));
        lemma_forest_bytes_prefix_le(ms, i + 1);
    } else {
        assert(ms.subrange(0, i) =~= ms);
    }
}

} // verus!
