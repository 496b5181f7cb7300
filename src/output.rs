use vstd::prelude::*;

use crate::basic::{BasicOutput, BasicOutputView, BASIC_OUTPUT_KIND};
use crate::delegation::{DelegationOutput, DelegationOutputView, DELEGATION_OUTPUT_KIND};
use crate::error::Error;
use crate::foundry::{FoundryOutput, FoundryOutputView, FOUNDRY_OUTPUT_KIND};
use crate::ids::{AliasId, DelegationId, NftId};
use crate::rent::{rent_cost_capped, RentStructure};
use crate::token::FoundryId;
use vstd::slice::slice_subrange;

verus! {

/// The identifier of a chain: what stays the same while a chain output passes from
/// transaction to transaction.
#[derive(Debug, Clone, Copy, PartialEq, Eq, Hash, Structural)]
pub enum ChainId {
    Alias(AliasId),
    Foundry(FoundryId),
    Nft(NftId),
    Delegation(DelegationId),
}

/// What an output holds, by variant.
pub enum OutputView {
    Basic(BasicOutputView),
    Delegation(DelegationOutputView),
    Foundry(FoundryOutputView),
}

impl OutputView {
    pub open spec fn kind(self) -> u8 {
        match self {
            OutputView::Basic(_) => BASIC_OUTPUT_KIND,
            OutputView::Delegation(_) => DELEGATION_OUTPUT_KIND,
            OutputView::Foundry(_) => FOUNDRY_OUTPUT_KIND,
        }
    }

    /// The fields of the variant, packed.
    pub open spec fn body(self) -> Seq<u8> {
        match self {
            OutputView::Basic(o) => o.pack(),
            OutputView::Delegation(o) => o.pack(),
            OutputView::Foundry(o) => o.pack(),
        }
    }

    /// The kind byte, then the fields.
    pub open spec fn pack(self) -> Seq<u8> {
        seq![self.kind()] + self.body()
    }

    pub open spec fn decodes_from(self, bytes: Seq<u8>, verify_with: Option<u64>) -> bool {
        &&& bytes.len() > 0
        &&& bytes[0] == self.kind()
        &&& match self {
            OutputView::Basic(o) => o.decodes_from(bytes.drop_first(), verify_with),
            OutputView::Delegation(o) => o.decodes_from(bytes.drop_first(), verify_with),
            OutputView::Foundry(o) => o.decodes_from(bytes.drop_first(), verify_with),
        }
    }

    /// The storage deposit of the output.
    pub open spec fn rent_cost(self, rs: RentStructure) -> u64 {
        rent_cost_capped(rs, self.pack().len())
    }
}

/// An output of any of the variants.
#[derive(Debug, Clone, PartialEq, Eq, Hash)]
pub enum Output {
    Basic(BasicOutput),
    Delegation(DelegationOutput),
    Foundry(FoundryOutput),
}

impl View for Output {
    type V = OutputView;

    open spec fn view(&self) -> OutputView {
        match self {
            Output::Basic(o) => OutputView::Basic(o@),
            Output::Delegation(o) => OutputView::Delegation(o@),
            Output::Foundry(o) => OutputView::Foundry(o@),
        }
    }
}

impl Output {
    pub fn kind(&self) -> (r: u8)
        ensures
            r == self@.kind(),
    {
        match self {
            Output::Basic(_) => BASIC_OUTPUT_KIND,
            Output::Delegation(_) => DELEGATION_OUTPUT_KIND,
            Output::Foundry(_) => FOUNDRY_OUTPUT_KIND,
        }
    }

    pub fn amount(&self) -> (r: u64)
        ensures
            r == match self@ {
                OutputView::Basic(o) => o.amount,
                OutputView::Delegation(o) => o.amount,
                OutputView::Foundry(o) => o.amount,
            },
    {
        match self {
            Output::Basic(o) => o.amount(),
            Output::Delegation(o) => o.amount(),
            Output::Foundry(o) => o.amount(),
        }
    }

    pub fn is_basic(&self) -> (r: bool)
        ensures
            r == self@ is Basic,
    {
        match self {
            Output::Basic(_) => true,
            _ => false,
        }
    }

    pub fn as_basic(&self) -> (r: &BasicOutput)
        requires
            self@ is Basic,
        ensures
            OutputView::Basic(r@) == self@,
    {
        match self {
            Output::Basic(o) => o,
            _ => vstd::pervasive::unreached(),
        }
    }

    pub fn as_foundry(&self) -> (r: &FoundryOutput)
        requires
            self@ is Foundry,
        ensures
            OutputView::Foundry(r@) == self@,
    {
        match self {
            Output::Foundry(o) => o,
            _ => vstd::pervasive::unreached(),
        }
    }

    pub fn as_delegation(&self) -> (r: &DelegationOutput)
        requires
            self@ is Delegation,
        ensures
            OutputView::Delegation(r@) == self@,
    {
        match self {
            Output::Delegation(o) => o,
            _ => vstd::pervasive::unreached(),
        }
    }

    /// The storage deposit that the output needs.
    pub fn rent_cost(&self, rent_structure: &RentStructure) -> (r: u64)
        ensures
            r == self@.rent_cost(*rent_structure),
    {
        match self {
            Output::Basic(o) => o.rent_cost(rent_structure),
            Output::Delegation(o) => o.rent_cost(rent_structure),
            Output::Foundry(o) => o.rent_cost(rent_structure),
        }
    }

    pub fn pack_to_vec(&self) -> (r: Vec<u8>)
        ensures
            r@ == self@.pack(),
    {
        let mut out: Vec<u8> = Vec::new();
        out.push(self.kind());
        let mut body = match self {
            Output::Basic(o) => o.pack_to_vec(),
            Output::Delegation(o) => o.pack_to_vec(),
            Output::Foundry(o) => o.pack_to_vec(),
        };
        out.append(&mut body);
        assert(out@ =~= self@.pack());
        out
    }

    /// Reads an output by its kind byte; with `verify_with` it is checked against that token
    /// supply and the rules of its variant.
    pub fn unpack(bytes: &[u8], verify_with: Option<u64>) -> (r: Result<Output, Error>)
        ensures
            match r {
                Ok(o) => o@.decodes_from(bytes@, verify_with),
                Err(_) => true,
            },
            forall|v: OutputView| #[trigger] v.decodes_from(bytes@, verify_with) ==> (r is Ok && r->Ok_0@ == v),
            bytes@.len() == 0 ==> r == Err::<Output, Error>(Error::UnexpectedEnd),
            bytes@.len() > 0 && bytes@[0] != BASIC_OUTPUT_KIND && bytes@[0] != DELEGATION_OUTPUT_KIND && bytes@[0]
                != FOUNDRY_OUTPUT_KIND ==> r == Err::<Output, Error>(Error::InvalidOutputKind(bytes@[0])),
    {
        if bytes.len() == 0 {
            return Err(Error::UnexpectedEnd);
        }
        let kind = bytes[0];
        let rest = slice_subrange(bytes, 1, bytes.len());
        assert(rest@ =~= bytes@.drop_first());
        if kind == BASIC_OUTPUT_KIND {
            let o = BasicOutput::unpack(rest, verify_with)?;
            Ok(Output::Basic(o))
        } else if kind == DELEGATION_OUTPUT_KIND {
            let o = DelegationOutput::unpack(rest, verify_with)?;
            Ok(Output::Delegation(o))
        } else if kind == FOUNDRY_OUTPUT_KIND {
            let o = FoundryOutput::unpack(rest, verify_with)?;
            Ok(Output::Foundry(o))
        } else {
            Err(Error::InvalidOutputKind(kind))
        }
    }
}

/// The kind byte and the fields, as `decodes_from` reads them, are the packed output.
pub proof fn lemma_output_pack_decodes(v: OutputView, verify_with: Option<u64>)
    requires
        match v {
            OutputView::Basic(o) => o.decodes_from(o.pack(), verify_with),
            OutputView::Delegation(o) => o.decodes_from(o.pack(), verify_with),
            OutputView::Foundry(o) => o.decodes_from(o.pack(), verify_with),
        },
    ensures
        v.decodes_from(v.pack(), verify_with),
{
    assert(v.pack().drop_first() =~= v.body());
}

} // verus!
