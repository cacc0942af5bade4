//! The netlink attribute (NLA) record format and attribute streams.
//!
//! One record on the wire is: a 16-bit stored length (4 + value length,
//! excluding padding), a 16-bit type code, the value bytes, then zero padding
//! up to the next 4-byte boundary. An attribute stream is a walk over such
//! records until the range is exhausted.
//!
//! Catalogs of typed attributes plug in through the [`Nla`] (encode side) and
//! [`NlaDecode`] (decode side) traits. Contracts speak of each attribute's
//! mathematical model (`Nla::Model`, the variant with every byte buffer
//! abstracted to a `Seq`); the stream walkers, their contracts and the
//! round-trip laws are proved once, here, for every catalog.

use vstd::prelude::*;
use vstd::bytes::{
    spec_u16_to_le_bytes, spec_u16_from_le_bytes, lemma_auto_spec_u16_to_from_le_bytes,
    u16_from_le_bytes, u16_to_le_bytes,
};
use vstd::slice::slice_subrange;
use crate::align::{spec_pad4, spec_align4, lemma_align4_smallest, align4, pad4};
use crate::error::DecodeError;

verus! {

/// `n` zero bytes.
pub open spec fn spec_zeros(n: nat) -> Seq<u8> {
    Seq::new(n, |i: int| 0u8)
}

/// The encode side of one attribute catalog: every variant knows its type
/// code and its serialized value bytes, stated over the variant's model.
pub trait Nla: Sized {
    /// The mathematical model of a variant: the variant with owned byte and
    /// string buffers abstracted to sequences, so that two attributes that
    /// compare equal have equal models.
    type Model;

    /// The model of this attribute.
    spec fn model(&self) -> Self::Model;

    /// The model can stand on the wire: its value fits a 16-bit stored
    /// length, and nested content is itself well-formed.
    spec fn m_wf(m: Self::Model) -> bool;

    /// The 16-bit type code the model is written under.
    spec fn m_code(m: Self::Model) -> u16;

    /// The value bytes the model serializes to (without header or padding).
    spec fn m_value(m: Self::Model) -> Seq<u8>;

    /// A well-formed model's stored length fits the 16-bit length field.
    proof fn lemma_wf_len(m: Self::Model)
        requires
            Self::m_wf(m),
        ensures
            Self::m_value(m).len() + 4 <= 0xffff,
    ;

    /// The type code, as the record carries it on the wire.
    fn kind(&self) -> (c: u16)
        requires
            Self::m_wf(self.model()),
        ensures
            c == Self::m_code(self.model()),
    ;

    /// Length of the value bytes, excluding header and padding.
    fn value_len(&self) -> (n: usize)
        requires
            Self::m_wf(self.model()),
        ensures
            n == Self::m_value(self.model()).len(),
    ;

    /// Appends exactly the value bytes to `out`.
    fn emit_value(&self, out: &mut Vec<u8>)
        requires
            Self::m_wf(self.model()),
        ensures
            final(out)@ == old(out)@ + Self::m_value(self.model()),
    ;
}

/// The models of a whole attribute list.
pub open spec fn models_of<A: Nla>(attrs: Seq<A>) -> Seq<A::Model> {
    attrs.map_values(|a: A| a.model())
}

/// The decode side of one attribute catalog: a resolution rule from a type
/// code and value bytes to a model, under a decode context `C` (unit for
/// context-free catalogs; a discriminator already decoded from a sibling
/// attribute where dispatch is content-dependent).
pub trait NlaDecode<C>: Nla {
    /// The model can be produced by resolution under `ctx`: its fallback arms
    /// carry only codes the catalog does not know there.
    spec fn m_in_scope(m: Self::Model, ctx: C) -> bool;

    /// What decoding a record with this code and value yields under `ctx`.
    spec fn m_resolve(ctx: C, code: u16, value: Seq<u8>) -> Result<Self::Model, DecodeError>;

    /// The value bytes are canonical for this catalog's rule on `code`: a
    /// resolved model re-encodes to exactly these bytes. Leaf rules are
    /// always canonical; a rule that decodes a nested attribute list asks
    /// that the list's own padding be present and zero.
    spec fn v_canon(ctx: C, code: u16, value: Seq<u8>) -> bool;

    /// Resolution preserves the code, the value length, and on canonical
    /// values the bytes themselves; it lands in scope, and yields a
    /// well-formed model whenever the value fits a record.
    proof fn lemma_resolve_project(ctx: C, code: u16, value: Seq<u8>)
        ensures
            Self::m_resolve(ctx, code, value) matches Ok(m) ==> {
                &&& Self::m_code(m) == code
                &&& Self::m_value(m).len() == value.len()
                &&& Self::v_canon(ctx, code, value) ==> Self::m_value(m) == value
                &&& Self::m_in_scope(m, ctx)
                &&& value.len() + 4 <= 0xffff ==> Self::m_wf(m)
            },
    ;

    /// Resolving a model's own projection yields the model back.
    proof fn lemma_project_resolve(m: Self::Model, ctx: C)
        requires
            Self::m_wf(m),
            Self::m_in_scope(m, ctx),
        ensures
            Self::m_resolve(ctx, Self::m_code(m), Self::m_value(m)) == Ok::<
                Self::Model,
                DecodeError,
            >(m),
    ;

    /// Decodes one record's code and value bytes, exactly as `m_resolve`
    /// says.
    fn parse(ctx: &C, code: u16, value: &[u8]) -> (r: Result<Self, DecodeError>)
        ensures
            match r {
                Ok(a) => Self::m_resolve(*ctx, code, value@) == Ok::<Self::Model, DecodeError>(
                    a.model(),
                ),
                Err(e) => Self::m_resolve(*ctx, code, value@) == Err::<Self::Model, DecodeError>(e),
            },
    ;
}

/// The bytes of one whole record: length field, type code, value, padding.
pub open spec fn spec_record_bytes(code: u16, value: Seq<u8>) -> Seq<u8>
    recommends
        value.len() + 4 <= 0xffff,
{
    spec_u16_to_le_bytes((value.len() + 4) as u16) + spec_u16_to_le_bytes(code) + value
        + spec_zeros(spec_pad4(value.len() + 4 as int) as nat)
}

/// The bytes of one attribute model's record.
pub open spec fn spec_attr_bytes<A: Nla>(m: A::Model) -> Seq<u8> {
    spec_record_bytes(A::m_code(m), A::m_value(m))
}

/// The bytes of a whole attribute list, records in list order.
pub open spec fn spec_attrs_bytes<A: Nla>(ms: Seq<A::Model>) -> Seq<u8>
    decreases ms.len(),
{
    if ms.len() == 0 {
        Seq::empty()
    } else {
        spec_attr_bytes::<A>(ms[0]) + spec_attrs_bytes::<A>(ms.subrange(1, ms.len() as int))
    }
}

/// Shape of one record's bytes: its length is the padded stored length; the
/// header fields, the value and the zero padding sit at their offsets.
pub proof fn lemma_record_bytes_facts(code: u16, value: Seq<u8>)
    requires
        value.len() + 4 <= 0xffff,
    ensures
        spec_record_bytes(code, value).len() == spec_align4(value.len() + 4 as int),
        spec_record_bytes(code, value).subrange(0, 2) == spec_u16_to_le_bytes(
            (value.len() + 4) as u16,
        ),
        spec_record_bytes(code, value).subrange(2, 4) == spec_u16_to_le_bytes(code),
        spec_record_bytes(code, value).subrange(4, value.len() + 4 as int) == value,
        forall|j: int|
            value.len() + 4 <= j < spec_align4(value.len() + 4 as int)
                ==> #[trigger] spec_record_bytes(code, value)[j] == 0,
{
    lemma_auto_spec_u16_to_from_le_bytes();
    let r = spec_record_bytes(code, value);
    let stored = value.len() + 4;
    assert(r.len() == spec_align4(stored as int));
    assert(r.subrange(0, 2) =~= spec_u16_to_le_bytes(stored as u16));
    assert(r.subrange(2, 4) =~= spec_u16_to_le_bytes(code));
    assert(r.subrange(4, stored as int) =~= value);
}

/// The padding invariant: a record occupies the smallest multiple of 4 that
/// is at least its stored length (4 plus the value length), and every byte
/// past the stored length is zero.
pub proof fn lemma_record_padding(code: u16, value: Seq<u8>)
    requires
        value.len() + 4 <= 0xffff,
    ensures
        spec_record_bytes(code, value).len() % 4 == 0,
        spec_record_bytes(code, value).len() >= value.len() + 4,
        spec_record_bytes(code, value).len() < value.len() + 8,
        forall|m: int|
            m >= value.len() + 4 && #[trigger] (m % 4) == 0
                ==> m >= spec_record_bytes(code, value).len(),
        forall|j: int|
            value.len() + 4 <= j < spec_record_bytes(code, value).len()
                ==> #[trigger] spec_record_bytes(code, value)[j] == 0,
{
    lemma_record_bytes_facts(code, value);
    lemma_align4_smallest(value.len() + 4 as int);
}

/// Appending one attribute appends its record's bytes.
pub proof fn lemma_attrs_bytes_push<A: Nla>(ms: Seq<A::Model>, m: A::Model)
    ensures
        spec_attrs_bytes::<A>(ms.push(m)) == spec_attrs_bytes::<A>(ms) + spec_attr_bytes::<A>(m),
    decreases ms.len(),
{
    if ms.len() == 0 {
        assert(ms.push(m)[0] == m);
        assert(ms.push(m).subrange(1, 1) =~= Seq::<A::Model>::empty());
        assert(spec_attrs_bytes::<A>(ms.push(m)) == spec_attr_bytes::<A>(m) + spec_attrs_bytes::<
            A,
        >(Seq::<A::Model>::empty()));
        assert(spec_attr_bytes::<A>(m) + Seq::<u8>::empty() =~= spec_attr_bytes::<A>(m));
        assert(Seq::<u8>::empty() + spec_attr_bytes::<A>(m) =~= spec_attr_bytes::<A>(m));
    } else {
        assert(ms.push(m).subrange(1, ms.len() + 1 as int) =~= ms.subrange(
            1,
            ms.len() as int,
        ).push(m));
        lemma_attrs_bytes_push::<A>(ms.subrange(1, ms.len() as int), m);
        assert(spec_attrs_bytes::<A>(ms.push(m)) =~= spec_attrs_bytes::<A>(ms)
            + spec_attr_bytes::<A>(m));
    }
}

/// What walking an attribute stream under context `ctx` yields: the records'
/// models in order, or the first failure. An empty range is an empty list; a
/// truncated header or a declared length past the range fails; a record
/// advances by its padded stored length, clamped to the range's end.
pub open spec fn spec_parse_attrs<C, A: NlaDecode<C>>(ctx: C, b: Seq<u8>) -> Result<
    Seq<A::Model>,
    DecodeError,
>
    decreases b.len(),
{
    if b.len() == 0 {
        Ok(Seq::empty())
    } else if b.len() < 4 {
        Err(DecodeError::TooShort { expected: 4, available: b.len() as usize })
    } else {
        let stored = spec_u16_from_le_bytes(b.subrange(0, 2)) as int;
        let code = spec_u16_from_le_bytes(b.subrange(2, 4));
        if stored < 4 {
            Err(DecodeError::InvalidField { code })
        } else if stored > b.len() {
            Err(DecodeError::TooShort { expected: stored as usize, available: b.len() as usize })
        } else {
            let next = if spec_align4(stored) <= b.len() {
                spec_align4(stored)
            } else {
                b.len() as int
            };
            match A::m_resolve(ctx, code, b.subrange(4, stored)) {
                Ok(m) => match spec_parse_attrs::<C, A>(ctx, b.subrange(next, b.len() as int)) {
                    Ok(rest) => Ok(seq![m] + rest),
                    Err(e) => Err(e),
                },
                Err(e) => Err(e),
            }
        }
    }
}

/// Every attribute model a successful walk yields is well-formed and in
/// scope.
pub proof fn lemma_parse_attrs_wf<C, A: NlaDecode<C>>(ctx: C, b: Seq<u8>)
    requires
        spec_parse_attrs::<C, A>(ctx, b) is Ok,
    ensures
        forall|i: int|
            0 <= i < spec_parse_attrs::<C, A>(ctx, b)->Ok_0.len() ==> {
                &&& A::m_wf(#[trigger] spec_parse_attrs::<C, A>(ctx, b)->Ok_0[i])
                &&& A::m_in_scope(spec_parse_attrs::<C, A>(ctx, b)->Ok_0[i], ctx)
            },
    decreases b.len(),
{
    if b.len() >= 4 {
        let stored = spec_u16_from_le_bytes(b.subrange(0, 2)) as int;
        if 4 <= stored <= b.len() {
            let next = if spec_align4(stored) <= b.len() {
                spec_align4(stored)
            } else {
                b.len() as int
            };
            A::lemma_resolve_project(
                ctx,
                spec_u16_from_le_bytes(b.subrange(2, 4)),
                b.subrange(4, stored),
            );
            lemma_parse_attrs_wf::<C, A>(ctx, b.subrange(next, b.len() as int));
        }
    }
}

/// The round-trip law, decode after encode: walking the bytes of a
/// well-formed, in-scope attribute list yields that list back.
pub proof fn lemma_attrs_roundtrip<C, A: NlaDecode<C>>(ctx: C, ms: Seq<A::Model>)
    requires
        forall|i: int|
            0 <= i < ms.len() ==> A::m_wf(#[trigger] ms[i]) && A::m_in_scope(ms[i], ctx),
    ensures
        spec_parse_attrs::<C, A>(ctx, spec_attrs_bytes::<A>(ms)) == Ok::<
            Seq<A::Model>,
            DecodeError,
        >(ms),
    decreases ms.len(),
{
    lemma_auto_spec_u16_to_from_le_bytes();
    if ms.len() == 0 {
        assert(ms =~= Seq::<A::Model>::empty());
        assert(spec_attrs_bytes::<A>(ms) == Seq::<u8>::empty());
    } else {
        let m = ms[0];
        A::lemma_wf_len(m);
        let val = A::m_value(m);
        let stored = val.len() + 4;
        let rec = spec_attr_bytes::<A>(m);
        let tail = ms.subrange(1, ms.len() as int);
        let rest = spec_attrs_bytes::<A>(tail);
        let b = spec_attrs_bytes::<A>(ms);
        assert(b == rec + rest);
        lemma_record_bytes_facts(A::m_code(m), val);
        lemma_align4_smallest(stored as int);
        assert(rec.len() == spec_align4(stored as int));
        assert(b.len() >= 4);
        assert(b.subrange(0, 2) =~= rec.subrange(0, 2));
        assert(b.subrange(2, 4) =~= rec.subrange(2, 4));
        assert(spec_u16_from_le_bytes(b.subrange(0, 2)) == stored as u16);
        assert(spec_u16_from_le_bytes(b.subrange(2, 4)) == A::m_code(m));
        assert(stored <= rec.len() <= b.len());
        assert(b.subrange(4, stored as int) =~= rec.subrange(4, stored as int));
        assert(b.subrange(4, stored as int) == val);
        A::lemma_project_resolve(m, ctx);
        let next = spec_align4(stored as int);
        assert(b.subrange(next, b.len() as int) =~= rest);
        lemma_attrs_roundtrip::<C, A>(ctx, tail);
        let stored_rd = spec_u16_from_le_bytes(b.subrange(0, 2)) as int;
        assert(stored_rd == stored);
        let code_rd = spec_u16_from_le_bytes(b.subrange(2, 4));
        assert(A::m_resolve(ctx, code_rd, b.subrange(4, stored_rd)) == Ok::<A::Model, DecodeError>(
            m,
        ));
        assert(spec_parse_attrs::<C, A>(ctx, b.subrange(next, b.len() as int)) == Ok::<
            Seq<A::Model>,
            DecodeError,
        >(tail));
        assert(spec_parse_attrs::<C, A>(ctx, b) == Ok::<Seq<A::Model>, DecodeError>(
            seq![m] + tail,
        ));
        assert(seq![m] + tail =~= ms);
    }
}

/// A canonical attribute stream: every record's full padding is present and
/// zero-filled, and every record's value is canonical for the catalog's rule
/// on its code. Streams produced by encoding are canonical; the kernel's are
/// in practice.
pub open spec fn spec_canonical_attrs<C, A: NlaDecode<C>>(ctx: C, b: Seq<u8>) -> bool
    decreases b.len(),
{
    if b.len() == 0 {
        true
    } else if b.len() < 4 {
        false
    } else {
        let stored = spec_u16_from_le_bytes(b.subrange(0, 2)) as int;
        let code = spec_u16_from_le_bytes(b.subrange(2, 4));
        &&& 4 <= stored
        &&& spec_align4(stored) <= b.len()
        &&& (forall|j: int| stored <= j < spec_align4(stored) ==> #[trigger] b[j] == 0)
        &&& A::v_canon(ctx, code, b.subrange(4, stored))
        &&& spec_canonical_attrs::<C, A>(ctx, b.subrange(spec_align4(stored), b.len() as int))
    }
}

/// A successful walk over a 4-byte-aligned range yields a list whose records
/// occupy exactly the range's length when re-encoded.
pub proof fn lemma_parse_attrs_len<C, A: NlaDecode<C>>(ctx: C, b: Seq<u8>)
    requires
        spec_parse_attrs::<C, A>(ctx, b) is Ok,
        b.len() % 4 == 0,
    ensures
        spec_attrs_bytes::<A>(spec_parse_attrs::<C, A>(ctx, b)->Ok_0).len() == b.len(),
    decreases b.len(),
{
    if b.len() == 0 {
    } else {
        let stored = spec_u16_from_le_bytes(b.subrange(0, 2)) as int;
        let code = spec_u16_from_le_bytes(b.subrange(2, 4));
        let val = b.subrange(4, stored);
        lemma_align4_smallest(stored);
        lemma_align4_smallest(b.len() as int);
        assert(spec_align4(stored) <= b.len());
        let next = spec_align4(stored);
        let suffix = b.subrange(next, b.len() as int);
        let m = A::m_resolve(ctx, code, val)->Ok_0;
        A::lemma_resolve_project(ctx, code, val);
        assert(suffix.len() % 4 == 0) by {
            assert(next % 4 == 0);
            assert(suffix.len() == b.len() - next);
        }
        lemma_parse_attrs_len::<C, A>(ctx, suffix);
        let rest = spec_parse_attrs::<C, A>(ctx, suffix)->Ok_0;
        let ms = spec_parse_attrs::<C, A>(ctx, b)->Ok_0;
        assert(ms == seq![m] + rest);
        lemma_record_bytes_facts(code, A::m_value(m));
        assert((seq![m] + rest).subrange(1, (seq![m] + rest).len() as int) =~= rest);
        assert(spec_attrs_bytes::<A>(ms) == spec_attr_bytes::<A>(m) + spec_attrs_bytes::<A>(rest));
        assert(spec_attr_bytes::<A>(m).len() == spec_align4(A::m_value(m).len() + 4 as int));
    }
}

/// The round-trip law, encode after decode: re-encoding the attribute list
/// walked out of a canonical stream reproduces the stream byte for byte.
pub proof fn lemma_attrs_canonical<C, A: NlaDecode<C>>(ctx: C, b: Seq<u8>)
    requires
        spec_canonical_attrs::<C, A>(ctx, b),
        spec_parse_attrs::<C, A>(ctx, b) is Ok,
    ensures
        spec_attrs_bytes::<A>(spec_parse_attrs::<C, A>(ctx, b)->Ok_0) == b,
    decreases b.len(),
{
    lemma_auto_spec_u16_to_from_le_bytes();
    if b.len() == 0 {
        assert(spec_attrs_bytes::<A>(spec_parse_attrs::<C, A>(ctx, b)->Ok_0) =~= b);
    } else {
        let stored = spec_u16_from_le_bytes(b.subrange(0, 2)) as int;
        let code = spec_u16_from_le_bytes(b.subrange(2, 4));
        let val = b.subrange(4, stored);
        let next = spec_align4(stored);
        lemma_align4_smallest(stored);
        let suffix = b.subrange(next, b.len() as int);
        let m = A::m_resolve(ctx, code, val)->Ok_0;
        A::lemma_resolve_project(ctx, code, val);
        assert(A::m_code(m) == code && A::m_value(m) == val && A::m_wf(m));
        lemma_attrs_canonical::<C, A>(ctx, suffix);
        let rest = spec_parse_attrs::<C, A>(ctx, suffix)->Ok_0;
        let ms = spec_parse_attrs::<C, A>(ctx, b)->Ok_0;
        assert(ms == seq![m] + rest);
        lemma_record_bytes_facts(code, val);
        assert(spec_attr_bytes::<A>(m).len() == next);
        assert(spec_attr_bytes::<A>(m) =~= b.subrange(0, next)) by {
            let rec = spec_attr_bytes::<A>(m);
            assert(rec.subrange(0, 2) == spec_u16_to_le_bytes(stored as u16));
            assert(b.subrange(0, 2) == spec_u16_to_le_bytes(stored as u16));
            assert forall|j: int| 0 <= j < next implies rec[j] == b[j] by {
                if j < 2 {
                    assert(rec[j] == rec.subrange(0, 2)[j]);
                    assert(b[j] == b.subrange(0, 2)[j]);
                } else if j < 4 {
                    assert(rec[j] == rec.subrange(2, 4)[j - 2]);
                    assert(b[j] == b.subrange(2, 4)[j - 2]);
                } else if j < stored {
                    assert(rec[j] == rec.subrange(4, stored)[j - 4]);
                    assert(b[j] == b.subrange(4, stored)[j - 4]);
                } else {
                    assert(rec[j] == 0);
                    assert(b[j] == 0);
                }
            }
        }
        assert((seq![m] + rest).subrange(1, (seq![m] + rest).len() as int) =~= rest);
        assert(spec_attrs_bytes::<A>(ms) == spec_attr_bytes::<A>(m) + spec_attrs_bytes::<A>(rest));
        assert(spec_attr_bytes::<A>(m) + spec_attrs_bytes::<A>(rest) =~= b);
    }
}

/// Appends one attribute's whole record to `out`.
pub fn emit_attr<A: Nla>(a: &A, out: &mut Vec<u8>)
    requires
        A::m_wf(a.model()),
    ensures
        final(out)@ == old(out)@ + spec_attr_bytes::<A>(a.model()),
{
    proof {
        A::lemma_wf_len(a.model());
    }
    let n = a.value_len();
    let stored: u16 = (n + 4) as u16;
    let len_bytes = u16_to_le_bytes(stored);
    out.push(len_bytes[0]);
    out.push(len_bytes[1]);
    let code_bytes = u16_to_le_bytes(a.kind());
    out.push(code_bytes[0]);
    out.push(code_bytes[1]);
    assert(out@ =~= old(out)@ + spec_u16_to_le_bytes(stored) + spec_u16_to_le_bytes(
        A::m_code(a.model()),
    ));
    a.emit_value(out);
    let ghost before_pad = out@;
    let pad = pad4(n + 4);
    let mut j: usize = 0;
    while j < pad
        invariant
            j <= pad,
            out@ == before_pad + spec_zeros(j as nat),
        decreases pad - j,
    {
        out.push(0u8);
        assert(before_pad + spec_zeros(j as nat) + seq![0u8] =~= before_pad + spec_zeros(
            (j + 1) as nat,
        ));
        j = j + 1;
    }
    assert(out@ =~= old(out)@ + spec_attr_bytes::<A>(a.model()));
}

/// Appends a whole attribute list's records to `out`, in list order.
pub fn emit_attrs<A: Nla>(attrs: &Vec<A>, out: &mut Vec<u8>)
    requires
        forall|i: int| 0 <= i < attrs@.len() ==> A::m_wf((#[trigger] attrs@[i]).model()),
    ensures
        final(out)@ == old(out)@ + spec_attrs_bytes::<A>(models_of(attrs@)),
{
    let n = attrs.len();
    let mut i: usize = 0;
    assert(models_of(attrs@.subrange(0, 0)) =~= Seq::<A::Model>::empty());
    while i < n
        invariant
            i <= n,
            n == attrs@.len(),
            forall|k: int| 0 <= k < attrs@.len() ==> A::m_wf((#[trigger] attrs@[k]).model()),
            out@ == old(out)@ + spec_attrs_bytes::<A>(models_of(attrs@.subrange(0, i as int))),
        decreases n - i,
    {
        emit_attr(&attrs[i], out);
        proof {
            lemma_attrs_bytes_push::<A>(
                models_of(attrs@.subrange(0, i as int)),
                attrs@[i as int].model(),
            );
            assert(models_of(attrs@.subrange(0, i + 1)) =~= models_of(
                attrs@.subrange(0, i as int),
            ).push(attrs@[i as int].model()));
        }
        i = i + 1;
    }
    assert(models_of(attrs@.subrange(0, n as int)) =~= models_of(attrs@));
}

/// A well-formed attribute list's records occupy a multiple of 4 bytes.
pub proof fn lemma_attrs_bytes_aligned<A: Nla>(ms: Seq<A::Model>)
    requires
        forall|i: int| 0 <= i < ms.len() ==> A::m_wf(#[trigger] ms[i]),
    ensures
        spec_attrs_bytes::<A>(ms).len() % 4 == 0,
    decreases ms.len(),
{
    if ms.len() > 0 {
        A::lemma_wf_len(ms[0]);
        lemma_record_padding(A::m_code(ms[0]), A::m_value(ms[0]));
        lemma_attrs_bytes_aligned::<A>(ms.subrange(1, ms.len() as int));
        let a = spec_attr_bytes::<A>(ms[0]).len() as int;
        let b = spec_attrs_bytes::<A>(ms.subrange(1, ms.len() as int)).len() as int;
        assert((a + b) % 4 == 0) by (nonlinear_arith)
            requires
                a % 4 == 0,
                b % 4 == 0,
                a >= 0,
                b >= 0,
        ;
    }
}

/// A prefix of an attribute list occupies no more bytes than the whole list.
pub proof fn lemma_attrs_bytes_prefix_le<A: Nla>(ms: Seq<A::Model>, i: int)
    requires
        0 <= i <= ms.len(),
    ensures
        spec_attrs_bytes::<A>(ms.subrange(0, i)).len() <= spec_attrs_bytes::<A>(ms).len(),
    decreases ms.len() - i,
{
    if i < ms.len() {
        lemma_attrs_bytes_push::<A>(ms.subrange(0, i), ms[i]);
        assert(ms.subrange(0, i + 1) =~= ms.subrange(0, i).push(ms[i]));
        lemma_attrs_bytes_prefix_le::<A>(ms, i + 1);
    } else {
        assert(ms.subrange(0, i) =~= ms);
    }
}

/// The number of bytes the attribute list's records occupy.
pub fn attrs_buffer_len<A: Nla>(attrs: &Vec<A>) -> (r: usize)
    requires
        forall|i: int| 0 <= i < attrs@.len() ==> A::m_wf((#[trigger] attrs@[i]).model()),
        spec_attrs_bytes::<A>(models_of(attrs@)).len() <= usize::MAX,
    ensures
        r == spec_attrs_bytes::<A>(models_of(attrs@)).len(),
{
    let n = attrs.len();
    let mut total: usize = 0;
    let mut i: usize = 0;
    assert(models_of(attrs@.subrange(0, 0)) =~= Seq::<A::Model>::empty());
    while i < n
        invariant
            i <= n,
            n == attrs@.len(),
            forall|k: int| 0 <= k < attrs@.len() ==> A::m_wf((#[trigger] attrs@[k]).model()),
            spec_attrs_bytes::<A>(models_of(attrs@)).len() <= usize::MAX,
            total == spec_attrs_bytes::<A>(models_of(attrs@.subrange(0, i as int))).len(),
        decreases n - i,
    {
        let a = &attrs[i];
        proof {
            A::lemma_wf_len(a.model());
            lemma_record_bytes_facts(A::m_code(a.model()), A::m_value(a.model()));
            lemma_attrs_bytes_push::<A>(
                models_of(attrs@.subrange(0, i as int)),
                attrs@[i as int].model(),
            );
            assert(models_of(attrs@.subrange(0, i + 1)) =~= models_of(
                attrs@.subrange(0, i as int),
            ).push(attrs@[i as int].model()));
            lemma_attrs_bytes_prefix_le::<A>(models_of(attrs@), i + 1);
            assert(models_of(attrs@).subrange(0, i + 1) =~= models_of(attrs@.subrange(0, i + 1)));
        }
        let vlen = a.value_len();
        total = total + align4(vlen + 4);
        i = i + 1;
    }
    assert(models_of(attrs@.subrange(0, n as int)) =~= models_of(attrs@));
    total
}

/// Walks an attribute stream under `ctx`, yielding the records in order or
/// the first failure, exactly as [`spec_parse_attrs`] says.
pub fn parse_attrs<C, A: NlaDecode<C>>(ctx: &C, buf: &[u8]) -> (r: Result<Vec<A>, DecodeError>)
    ensures
        match r {
            Ok(v) => spec_parse_attrs::<C, A>(*ctx, buf@) == Ok::<Seq<A::Model>, DecodeError>(
                models_of(v@),
            ),
            Err(e) => spec_parse_attrs::<C, A>(*ctx, buf@) == Err::<Seq<A::Model>, DecodeError>(e),
        },
{
    let len = buf.len();
    let mut out: Vec<A> = Vec::new();
    let mut i: usize = 0;
    proof {
        assert(buf@.subrange(0, len as int) =~= buf@);
        assert forall|s: Seq<A::Model>|
            spec_parse_attrs::<C, A>(*ctx, buf@.subrange(0, len as int)) == Ok::<
                Seq<A::Model>,
                DecodeError,
            >(s) implies spec_parse_attrs::<C, A>(*ctx, buf@) == Ok::<Seq<A::Model>, DecodeError>(
            models_of(out@) + s,
        ) by {
            assert(models_of(out@) + s =~= s);
        }
    }
    while i < len
        invariant
            i <= len,
            len == buf@.len(),
            forall|s: Seq<A::Model>|
                spec_parse_attrs::<C, A>(*ctx, buf@.subrange(i as int, len as int)) == Ok::<
                    Seq<A::Model>,
                    DecodeError,
                >(s) ==> spec_parse_attrs::<C, A>(*ctx, buf@) == Ok::<Seq<A::Model>, DecodeError>(
                    models_of(out@) + s,
                ),
            forall|e: DecodeError|
                spec_parse_attrs::<C, A>(*ctx, buf@.subrange(i as int, len as int)) == Err::<
                    Seq<A::Model>,
                    DecodeError,
                >(e) ==> spec_parse_attrs::<C, A>(*ctx, buf@) == Err::<Seq<A::Model>, DecodeError>(
                    e,
                ),
        decreases len - i,
    {
        let ghost suffix = buf@.subrange(i as int, len as int);
        let rem = len - i;
        if rem < 4 {
            return Err(DecodeError::TooShort { expected: 4, available: rem });
        }
        let stored = u16_from_le_bytes(slice_subrange(buf, i, i + 2)) as usize;
        let code = u16_from_le_bytes(slice_subrange(buf, i + 2, i + 4));
        proof {
            assert(buf@.subrange(i as int, i + 2) =~= suffix.subrange(0, 2));
            assert(buf@.subrange(i + 2, i + 4) =~= suffix.subrange(2, 4));
        }
        if stored < 4 {
            return Err(DecodeError::InvalidField { code });
        }
        if stored > rem {
            return Err(DecodeError::TooShort { expected: stored, available: rem });
        }
        let value = slice_subrange(buf, i + 4, i + stored);
        proof {
            assert(buf@.subrange(i + 4, i + stored) =~= suffix.subrange(4, stored as int));
        }
        match A::parse(ctx, code, value) {
            Err(e) => {
                return Err(e);
            },
            Ok(a) => {
                let aligned = align4(stored);
                let step = if aligned < rem {
                    aligned
                } else {
                    rem
                };
                proof {
                    let ghost next = i + step;
                    assert(buf@.subrange(next as int, len as int) =~= suffix.subrange(
                        step as int,
                        suffix.len() as int,
                    ));
                    assert forall|s: Seq<A::Model>|
                        spec_parse_attrs::<C, A>(*ctx, buf@.subrange(next as int, len as int))
                            == Ok::<Seq<A::Model>, DecodeError>(s) implies spec_parse_attrs::<
                        C,
                        A,
                    >(*ctx, buf@) == Ok::<Seq<A::Model>, DecodeError>(
                        models_of(out@.push(a)) + s,
                    ) by {
                        assert(spec_parse_attrs::<C, A>(*ctx, suffix) == Ok::<
                            Seq<A::Model>,
                            DecodeError,
                        >(seq![a.model()] + s));
                        assert(models_of(out@) + (seq![a.model()] + s) =~= models_of(out@.push(a))
                            + s);
                    }
                    assert forall|e: DecodeError|
                        spec_parse_attrs::<C, A>(*ctx, buf@.subrange(next as int, len as int))
                            == Err::<Seq<A::Model>, DecodeError>(e) implies spec_parse_attrs::<
                        C,
                        A,
                    >(*ctx, buf@) == Err::<Seq<A::Model>, DecodeError>(e) by {
                        assert(spec_parse_attrs::<C, A>(*ctx, suffix) == Err::<
                            Seq<A::Model>,
                            DecodeError,
                        >(e));
                    }
                }
                out.push(a);
                i = i + step;
            },
        }
    }
    proof {
        assert(buf@.subrange(len as int, len as int) =~= Seq::<u8>::empty());
        assert(spec_parse_attrs::<C, A>(*ctx, buf@.subrange(len as int, len as int)) == Ok::<
            Seq<A::Model>,
            DecodeError,
        >(Seq::<A::Model>::empty()));
        assert(models_of(out@) + Seq::<A::Model>::empty() =~= models_of(out@));
    }
    Ok(out)
}

} // verus!
