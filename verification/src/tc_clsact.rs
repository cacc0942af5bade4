//! The clsact qdisc. The kernel starts an empty attribute nest for it, so its
//! option catalog knows no code of its own: every option is kept verbatim.

use vstd::prelude::*;
use crate::error::DecodeError;
use crate::fallback::{DefaultNla, DefaultNlaModel};
use crate::nla::{Nla, NlaDecode};

verus! {

/// The clsact qdisc, which carries no options of its own.
#[derive(Debug, PartialEq, Eq, Clone)]
pub struct TcQdiscClsact {}

impl TcQdiscClsact {
    /// The kind string under which a tc message names this qdisc.
    pub fn kind_str() -> (r: &'static str)
        ensures
            r@ == "clsact"@,
    {
        "clsact"
    }
}

/// One option of a clsact qdisc, always kept verbatim.
#[derive(Debug, PartialEq, Eq, Clone)]
pub enum TcQdiscClsactOption {
    /// Any option record, raw: the catalog has no rule for any code.
    Other(DefaultNla),
}

/// The model of a [`TcQdiscClsactOption`].
pub enum TcQdiscClsactOptionModel {
    Other(DefaultNlaModel),
}

impl Nla for TcQdiscClsactOption {
    type Model = TcQdiscClsactOptionModel;

    open spec fn model(&self) -> TcQdiscClsactOptionModel {
        match self {
            TcQdiscClsactOption::Other(n) => TcQdiscClsactOptionModel::Other(n.model()),
        }
    }

    open spec fn m_wf(m: TcQdiscClsactOptionModel) -> bool {
        match m {
            TcQdiscClsactOptionModel::Other(n) => DefaultNla::m_wf(n),
        }
    }

    open spec fn m_code(m: TcQdiscClsactOptionModel) -> u16 {
        match m {
            TcQdiscClsactOptionModel::Other(n) => n.code,
        }
    }

    open spec fn m_value(m: TcQdiscClsactOptionModel) -> Seq<u8> {
        match m {
            TcQdiscClsactOptionModel::Other(n) => n.value,
        }
    }

    proof fn lemma_wf_len(m: TcQdiscClsactOptionModel) {
    }

    fn kind(&self) -> u16 {
        match self {
            TcQdiscClsactOption::Other(n) => n.kind(),
        }
    }

    fn value_len(&self) -> usize {
        match self {
            TcQdiscClsactOption::Other(n) => n.value_len(),
        }
    }

    fn emit_value(&self, out: &mut Vec<u8>) {
        match self {
            TcQdiscClsactOption::Other(n) => n.emit_value(out),
        }
    }
}

impl NlaDecode<()> for TcQdiscClsactOption {
    open spec fn m_in_scope(m: TcQdiscClsactOptionModel, ctx: ()) -> bool {
        true
    }

    open spec fn m_resolve(ctx: (), code: u16, value: Seq<u8>) -> Result<
        TcQdiscClsactOptionModel,
        DecodeError,
    > {
        Ok(TcQdiscClsactOptionModel::Other(DefaultNlaModel { code, value }))
    }

    open spec fn v_canon(ctx: (), code: u16, value: Seq<u8>) -> bool {
        true
    }

    proof fn lemma_resolve_project(ctx: (), code: u16, value: Seq<u8>) {
    }

    proof fn lemma_project_resolve(m: TcQdiscClsactOptionModel, ctx: ()) {
    }

    fn parse(ctx: &(), code: u16, value: &[u8]) -> Result<TcQdiscClsactOption, DecodeError> {
        match <DefaultNla as NlaDecode<()>>::parse(ctx, code, value) {
            Ok(n) => Ok(TcQdiscClsactOption::Other(n)),
            Err(e) => Err(e),
        }
    }
}

} // verus!
