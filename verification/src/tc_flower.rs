//! The flower filter's option catalog: the class identifier and the ingress
//! device name are decoded; every other flower option is kept verbatim.

use vstd::prelude::*;
use vstd::bytes::{
    spec_u32_from_le_bytes, spec_u32_to_le_bytes, lemma_auto_spec_u32_to_from_le_bytes,
};
use vstd::slice::slice_to_vec;
use crate::error::DecodeError;
use crate::fallback::{DefaultNla, DefaultNlaModel};
use crate::nla::{Nla, NlaDecode};
use crate::tc_handle::{TcHandle, spec_tc_handle_bits, spec_tc_handle_of_bits,
    lemma_tc_handle_bits_inverse};
use crate::values::{push_u32_le, read_u32_le};

verus! {

/// The type code of a flower filter's class identifier option.
pub const TCA_FLOWER_CLASSID: u16 = 1;

/// The type code of a flower filter's ingress device option.
pub const TCA_FLOWER_INDEV: u16 = 2;

/// The flower filter.
#[derive(Debug, PartialEq, Eq, Clone)]
pub struct TcFilterFlower {}

impl TcFilterFlower {
    /// The kind string under which a tc message names this filter.
    pub fn kind_str() -> (r: &'static str)
        ensures
            r@ == "flower"@,
    {
        "flower"
    }
}

/// One option of a flower filter.
#[derive(Debug, PartialEq, Eq, Clone)]
pub enum TcFilterFlowerOption {
    /// The class this filter maps matching packets to.
    ClassId(TcHandle),
    /// The ingress device name, raw bytes.
    Indev(Vec<u8>),
    /// Any flower option this catalog has no rule for, kept verbatim.
    Other(DefaultNla),
}

/// The model of a [`TcFilterFlowerOption`].
pub enum TcFilterFlowerOptionModel {
    ClassId(TcHandle),
    Indev(Seq<u8>),
    Other(DefaultNlaModel),
}

/// Whether the flower option catalog has a rule for this type code.
pub open spec fn spec_tc_flower_known(code: u16) -> bool {
    code == TCA_FLOWER_CLASSID || code == TCA_FLOWER_INDEV
}

impl Nla for TcFilterFlowerOption {
    type Model = TcFilterFlowerOptionModel;

    open spec fn model(&self) -> TcFilterFlowerOptionModel {
        match self {
            TcFilterFlowerOption::ClassId(h) => TcFilterFlowerOptionModel::ClassId(*h),
            TcFilterFlowerOption::Indev(b) => TcFilterFlowerOptionModel::Indev(b@),
            TcFilterFlowerOption::Other(n) => TcFilterFlowerOptionModel::Other(n.model()),
        }
    }

    open spec fn m_wf(m: TcFilterFlowerOptionModel) -> bool {
        match m {
            TcFilterFlowerOptionModel::ClassId(_) => true,
            TcFilterFlowerOptionModel::Indev(b) => b.len() + 4 <= 0xffff,
            TcFilterFlowerOptionModel::Other(n) => DefaultNla::m_wf(n) && !spec_tc_flower_known(
                n.code,
            ),
        }
    }

    open spec fn m_code(m: TcFilterFlowerOptionModel) -> u16 {
        match m {
            TcFilterFlowerOptionModel::ClassId(_) => TCA_FLOWER_CLASSID,
            TcFilterFlowerOptionModel::Indev(_) => TCA_FLOWER_INDEV,
            TcFilterFlowerOptionModel::Other(n) => n.code,
        }
    }

    open spec fn m_value(m: TcFilterFlowerOptionModel) -> Seq<u8> {
        match m {
            TcFilterFlowerOptionModel::ClassId(h) => spec_u32_to_le_bytes(spec_tc_handle_bits(h)),
            TcFilterFlowerOptionModel::Indev(b) => b,
            TcFilterFlowerOptionModel::Other(n) => n.value,
        }
    }

    proof fn lemma_wf_len(m: TcFilterFlowerOptionModel) {
        lemma_auto_spec_u32_to_from_le_bytes();
    }

    fn kind(&self) -> u16 {
        match self {
            TcFilterFlowerOption::ClassId(_) => TCA_FLOWER_CLASSID,
            TcFilterFlowerOption::Indev(_) => TCA_FLOWER_INDEV,
            TcFilterFlowerOption::Other(n) => n.kind(),
        }
    }

    fn value_len(&self) -> usize {
        proof {
            lemma_auto_spec_u32_to_from_le_bytes();
        }
        match self {
            TcFilterFlowerOption::ClassId(_) => 4,
            TcFilterFlowerOption::Indev(b) => b.len(),
            TcFilterFlowerOption::Other(n) => n.value_len(),
        }
    }

    fn emit_value(&self, out: &mut Vec<u8>) {
        match self {
            TcFilterFlowerOption::ClassId(h) => push_u32_le(out, h.bits()),
            TcFilterFlowerOption::Indev(b) => out.extend_from_slice(b.as_slice()),
            TcFilterFlowerOption::Other(n) => n.emit_value(out),
        }
    }
}

impl NlaDecode<()> for TcFilterFlowerOption {
    open spec fn m_in_scope(m: TcFilterFlowerOptionModel, ctx: ()) -> bool {
        true
    }

    open spec fn m_resolve(ctx: (), code: u16, value: Seq<u8>) -> Result<
        TcFilterFlowerOptionModel,
        DecodeError,
    > {
        if code == TCA_FLOWER_CLASSID {
            if value.len() == 4 {
                Ok(
                    TcFilterFlowerOptionModel::ClassId(
                        spec_tc_handle_of_bits(spec_u32_from_le_bytes(value)),
                    ),
                )
            } else {
                Err(DecodeError::InvalidField { code })
            }
        } else if code == TCA_FLOWER_INDEV {
            Ok(TcFilterFlowerOptionModel::Indev(value))
        } else {
            Ok(TcFilterFlowerOptionModel::Other(DefaultNlaModel { code, value }))
        }
    }

    open spec fn v_canon(ctx: (), code: u16, value: Seq<u8>) -> bool {
        true
    }

    proof fn lemma_resolve_project(ctx: (), code: u16, value: Seq<u8>) {
        lemma_auto_spec_u32_to_from_le_bytes();
        lemma_tc_handle_bits_inverse();
    }

    proof fn lemma_project_resolve(m: TcFilterFlowerOptionModel, ctx: ()) {
        lemma_auto_spec_u32_to_from_le_bytes();
        lemma_tc_handle_bits_inverse();
    }

    fn parse(ctx: &(), code: u16, value: &[u8]) -> Result<TcFilterFlowerOption, DecodeError> {
        if code == TCA_FLOWER_CLASSID {
            match read_u32_le(value) {
                Some(bits) => Ok(TcFilterFlowerOption::ClassId(TcHandle::from_bits(bits))),
                None => Err(DecodeError::InvalidField { code }),
            }
        } else if code == TCA_FLOWER_INDEV {
            Ok(TcFilterFlowerOption::Indev(slice_to_vec(value)))
        } else {
            match <DefaultNla as NlaDecode<()>>::parse(ctx, code, value) {
                Ok(n) => Ok(TcFilterFlowerOption::Other(n)),
                Err(e) => Err(e),
            }
        }
    }
}

} // verus!

verus! {

/// Fallback totality for the flower option catalog: a code without a rule
/// resolves to the verbatim fallback and projects back to the same code and
/// value bytes unchanged.
pub proof fn lemma_tc_flower_fallback_totality(code: u16, value: Seq<u8>)
    requires
        !spec_tc_flower_known(code),
    ensures
        TcFilterFlowerOption::m_resolve((), code, value) == Ok::<
            TcFilterFlowerOptionModel,
            DecodeError,
        >(TcFilterFlowerOptionModel::Other(DefaultNlaModel { code, value })),
        TcFilterFlowerOption::m_code(TcFilterFlowerOption::m_resolve((), code, value)->Ok_0)
            == code,
        TcFilterFlowerOption::m_value(TcFilterFlowerOption::m_resolve((), code, value)->Ok_0)
            == value,
{
}

} // verus!
