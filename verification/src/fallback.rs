//! The unknown-attribute fallback: a record kept as its raw type code and raw
//! value bytes. Any code a catalog has no rule for resolves to this, and it
//! projects back to the same code and bytes unchanged, so every byte stream
//! decodes to something and decoded messages re-encode byte-identically.

use vstd::prelude::*;
use vstd::slice::slice_to_vec;
use crate::error::DecodeError;
use crate::nla::{Nla, NlaDecode};

verus! {

/// An attribute kept verbatim: raw type code and raw value bytes.
#[derive(Debug, PartialEq, Eq, Clone)]
pub struct DefaultNla {
    pub code: u16,
    pub value: Vec<u8>,
}

/// The model of a [`DefaultNla`]: the code and the value bytes.
pub struct DefaultNlaModel {
    pub code: u16,
    pub value: Seq<u8>,
}

impl DefaultNla {
    /// An attribute with this raw code and value.
    pub fn new(code: u16, value: Vec<u8>) -> (r: DefaultNla)
        ensures
            r.model() == (DefaultNlaModel { code, value: value@ }),
    {
        DefaultNla { code, value }
    }
}

impl Nla for DefaultNla {
    type Model = DefaultNlaModel;

    open spec fn model(&self) -> DefaultNlaModel {
        DefaultNlaModel { code: self.code, value: self.value@ }
    }

    open spec fn m_wf(m: DefaultNlaModel) -> bool {
        m.value.len() + 4 <= 0xffff
    }

    open spec fn m_code(m: DefaultNlaModel) -> u16 {
        m.code
    }

    open spec fn m_value(m: DefaultNlaModel) -> Seq<u8> {
        m.value
    }

    proof fn lemma_wf_len(m: DefaultNlaModel) {
    }

    fn kind(&self) -> u16 {
        self.code
    }

    fn value_len(&self) -> usize {
        self.value.len()
    }

    fn emit_value(&self, out: &mut Vec<u8>) {
        out.extend_from_slice(self.value.as_slice());
    }
}

impl NlaDecode<()> for DefaultNla {
    open spec fn m_in_scope(m: DefaultNlaModel, ctx: ()) -> bool {
        true
    }

    open spec fn m_resolve(ctx: (), code: u16, value: Seq<u8>) -> Result<
        DefaultNlaModel,
        DecodeError,
    > {
        Ok(DefaultNlaModel { code, value })
    }

    open spec fn v_canon(ctx: (), code: u16, value: Seq<u8>) -> bool {
        true
    }

    proof fn lemma_resolve_project(ctx: (), code: u16, value: Seq<u8>) {
    }

    proof fn lemma_project_resolve(m: DefaultNlaModel, ctx: ()) {
    }

    fn parse(ctx: &(), code: u16, value: &[u8]) -> Result<DefaultNla, DecodeError> {
        Ok(DefaultNla { code, value: slice_to_vec(value) })
    }
}

} // verus!
