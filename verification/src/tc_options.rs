//! The options attribute of a tc message. Which option catalog applies is
//! content-dependent: the kind string decoded from a sibling attribute of the
//! same message selects it. The scope decoded from that discriminator is the
//! context under which each option record resolves.

use vstd::prelude::*;
use vstd::string::StringExecFns;
use crate::error::DecodeError;
use crate::fallback::{DefaultNla, DefaultNlaModel};
use crate::nla::{Nla, NlaDecode};
use crate::tc_clsact::{TcQdiscClsact, TcQdiscClsactOption, TcQdiscClsactOptionModel};
use crate::tc_flower::{TcFilterFlower, TcFilterFlowerOption, TcFilterFlowerOptionModel};

verus! {

/// Which option catalog the kind string of the surrounding message selects.
#[derive(Debug, PartialEq, Eq, Clone, Copy)]
pub enum TcOptionScope {
    /// No kind seen yet, or a kind with no catalog of its own: options are
    /// kept verbatim.
    Unknown,
    /// The clsact qdisc's options.
    Clsact,
    /// The flower filter's options.
    Flower,
}

/// The scope a kind string selects.
pub open spec fn spec_scope_of_chars(kind: Seq<char>) -> TcOptionScope {
    if kind == "clsact"@ {
        TcOptionScope::Clsact
    } else if kind == "flower"@ {
        TcOptionScope::Flower
    } else {
        TcOptionScope::Unknown
    }
}

/// The scope the given kind string selects.
pub fn scope_of_kind(kind: &String) -> (r: TcOptionScope)
    ensures
        r == spec_scope_of_chars(kind@),
{
    if *kind == String::from_str(TcQdiscClsact::kind_str()) {
        TcOptionScope::Clsact
    } else if *kind == String::from_str(TcFilterFlower::kind_str()) {
        TcOptionScope::Flower
    } else {
        TcOptionScope::Unknown
    }
}

/// One option record of a tc message, typed by the scope its message's kind
/// string selected.
#[derive(Debug, PartialEq, Eq, Clone)]
pub enum TcOption {
    /// An option of a clsact qdisc.
    Clsact(TcQdiscClsactOption),
    /// An option of a flower filter.
    Flower(TcFilterFlowerOption),
    /// An option of a kind with no catalog of its own, kept verbatim.
    Other(DefaultNla),
}

/// The model of a [`TcOption`].
pub enum TcOptionModel {
    Clsact(TcQdiscClsactOptionModel),
    Flower(TcFilterFlowerOptionModel),
    Other(DefaultNlaModel),
}

impl Nla for TcOption {
    type Model = TcOptionModel;

    open spec fn model(&self) -> TcOptionModel {
        match self {
            TcOption::Clsact(o) => TcOptionModel::Clsact(o.model()),
            TcOption::Flower(o) => TcOptionModel::Flower(o.model()),
            TcOption::Other(n) => TcOptionModel::Other(n.model()),
        }
    }

    open spec fn m_wf(m: TcOptionModel) -> bool {
        match m {
            TcOptionModel::Clsact(o) => TcQdiscClsactOption::m_wf(o),
            TcOptionModel::Flower(o) => TcFilterFlowerOption::m_wf(o),
            TcOptionModel::Other(n) => DefaultNla::m_wf(n),
        }
    }

    open spec fn m_code(m: TcOptionModel) -> u16 {
        match m {
            TcOptionModel::Clsact(o) => TcQdiscClsactOption::m_code(o),
            TcOptionModel::Flower(o) => TcFilterFlowerOption::m_code(o),
            TcOptionModel::Other(n) => n.code,
        }
    }

    open spec fn m_value(m: TcOptionModel) -> Seq<u8> {
        match m {
            TcOptionModel::Clsact(o) => TcQdiscClsactOption::m_value(o),
            TcOptionModel::Flower(o) => TcFilterFlowerOption::m_value(o),
            TcOptionModel::Other(n) => n.value,
        }
    }

    proof fn lemma_wf_len(m: TcOptionModel) {
        match m {
            TcOptionModel::Clsact(o) => TcQdiscClsactOption::lemma_wf_len(o),
            TcOptionModel::Flower(o) => TcFilterFlowerOption::lemma_wf_len(o),
            TcOptionModel::Other(_) => {},
        }
    }

    fn kind(&self) -> u16 {
        match self {
            TcOption::Clsact(o) => o.kind(),
            TcOption::Flower(o) => o.kind(),
            TcOption::Other(n) => n.kind(),
        }
    }

    fn value_len(&self) -> usize {
        match self {
            TcOption::Clsact(o) => o.value_len(),
            TcOption::Flower(o) => o.value_len(),
            TcOption::Other(n) => n.value_len(),
        }
    }

    fn emit_value(&self, out: &mut Vec<u8>) {
        match self {
            TcOption::Clsact(o) => o.emit_value(out),
            TcOption::Flower(o) => o.emit_value(out),
            TcOption::Other(n) => n.emit_value(out),
        }
    }
}

impl NlaDecode<TcOptionScope> for TcOption {
    open spec fn m_in_scope(m: TcOptionModel, ctx: TcOptionScope) -> bool {
        match m {
            TcOptionModel::Clsact(_) => ctx is Clsact,
            TcOptionModel::Flower(_) => ctx is Flower,
            TcOptionModel::Other(_) => ctx is Unknown,
        }
    }

    open spec fn m_resolve(ctx: TcOptionScope, code: u16, value: Seq<u8>) -> Result<
        TcOptionModel,
        DecodeError,
    > {
        match ctx {
            TcOptionScope::Clsact => match TcQdiscClsactOption::m_resolve((), code, value) {
                Ok(o) => Ok(TcOptionModel::Clsact(o)),
                Err(e) => Err(e),
            },
            TcOptionScope::Flower => match TcFilterFlowerOption::m_resolve((), code, value) {
                Ok(o) => Ok(TcOptionModel::Flower(o)),
                Err(e) => Err(e),
            },
            TcOptionScope::Unknown => Ok(TcOptionModel::Other(DefaultNlaModel { code, value })),
        }
    }

    open spec fn v_canon(ctx: TcOptionScope, code: u16, value: Seq<u8>) -> bool {
        true
    }

    proof fn lemma_resolve_project(ctx: TcOptionScope, code: u16, value: Seq<u8>) {
        match ctx {
            TcOptionScope::Clsact => {
                TcQdiscClsactOption::lemma_resolve_project((), code, value);
            },
            TcOptionScope::Flower => {
                TcFilterFlowerOption::lemma_resolve_project((), code, value);
            },
            TcOptionScope::Unknown => {},
        }
    }

    proof fn lemma_project_resolve(m: TcOptionModel, ctx: TcOptionScope) {
        match m {
            TcOptionModel::Clsact(o) => {
                TcQdiscClsactOption::lemma_project_resolve(o, ());
            },
            TcOptionModel::Flower(o) => {
                TcFilterFlowerOption::lemma_project_resolve(o, ());
            },
            TcOptionModel::Other(_) => {},
        }
    }

    fn parse(ctx: &TcOptionScope, code: u16, value: &[u8]) -> Result<TcOption, DecodeError> {
        match ctx {
            TcOptionScope::Clsact => match TcQdiscClsactOption::parse(&(), code, value) {
                Ok(o) => Ok(TcOption::Clsact(o)),
                Err(e) => Err(e),
            },
            TcOptionScope::Flower => match TcFilterFlowerOption::parse(&(), code, value) {
                Ok(o) => Ok(TcOption::Flower(o)),
                Err(e) => Err(e),
            },
            TcOptionScope::Unknown => match <DefaultNla as NlaDecode<()>>::parse(
                &(),
                code,
                value,
            ) {
                Ok(n) => Ok(TcOption::Other(n)),
                Err(e) => Err(e),
            },
        }
    }
}

} // verus!
