use vstd::prelude::*;
use vstd::string::StringSliceAdditionalSpecFns;

use crate::decimal::{decimal_value, is_u64_decimal, parse_u64, unsigned_digits};

verus! {

/// The balance of an account: its total, what it can spend now, what its storage deposits
/// take, and its native tokens, NFTs, foundries and aliases with their amounts.
#[derive(Debug, Clone)]
pub struct AccountBalance {
    pub total: u64,
    pub available: u64,
    pub byte_cost_deposit: u64,
    pub native_tokens: Vec<(String, u128)>,
    pub nfts: Vec<(String, u128)>,
    pub foundrys: Vec<(String, u128)>,
    pub alias_outputs: Vec<(String, u128)>,
}

impl AccountBalance {
    /// The empty balance.
    pub fn new() -> (r: AccountBalance)
        ensures
            r.total == 0 && r.available == 0 && r.byte_cost_deposit == 0,
            r.native_tokens@.len() == 0 && r.nfts@.len() == 0 && r.foundrys@.len() == 0 && r.alias_outputs@.len() == 0,
    {
        AccountBalance {
            total: 0,
            available: 0,
            byte_cost_deposit: 0,
            native_tokens: Vec::new(),
            nfts: Vec::new(),
            foundrys: Vec::new(),
            alias_outputs: Vec::new(),
        }
    }
}

/// Where a transaction stands.
#[derive(Debug, Clone, Copy, PartialEq, Eq, Hash)]
pub enum InclusionState {
    Pending,
    Confirmed,
    Conflicting,
}

/// The kinds of output an account holds.
#[derive(Debug, Clone, Copy, PartialEq, Eq, Hash)]
pub enum OutputKind {
    Alias,
    Basic,
    Foundry,
    Nft,
    Treasury,
}

/// The name of each kind, as bytes.
pub open spec fn output_kind_name(k: OutputKind) -> Seq<u8> {
    match k {
        OutputKind::Alias => seq![65u8, 108, 105, 97, 115],
        OutputKind::Basic => seq![66u8, 97, 115, 105, 99],
        OutputKind::Foundry => seq![70u8, 111, 117, 110, 100, 114, 121],
        OutputKind::Nft => seq![78u8, 102, 116],
        OutputKind::Treasury => seq![84u8, 114, 101, 97, 115, 117, 114, 121],
    }
}

fn bytes_equal(a: &[u8], b: &[u8]) -> (r: bool)
    ensures
        r == (a@ == b@),
{
    if a.len() != b.len() {
        return false;
    }
    let mut i: usize = 0;
    while i < a.len()
        invariant
            a@.len() == b@.len(),
            i <= a@.len(),
            forall|j: int| 0 <= j < i ==> a@[j] == b@[j],
        decreases a@.len() - i,
    {
        if a[i] != b[i] {
            return false;
        }
        i += 1;
    }
    assert(a@ =~= b@);
    true
}

impl OutputKind {
    /// The kind with this name, or `None`.
    pub fn from_str(s: &str) -> (r: Option<OutputKind>)
        ensures
            match r {
                Some(k) => output_kind_name(k) == s.spec_bytes(),
                None => forall|k: OutputKind| output_kind_name(k) != s.spec_bytes(),
            },
    {
        let b = s.as_bytes();
        let alias: [u8; 5] = [65, 108, 105, 97, 115];
        let basic: [u8; 5] = [66, 97, 115, 105, 99];
        let foundry: [u8; 7] = [70, 111, 117, 110, 100, 114, 121];
        let nft: [u8; 3] = [78, 102, 116];
        let treasury: [u8; 8] = [84, 114, 101, 97, 115, 117, 114, 121];
        assert(alias@ =~= output_kind_name(OutputKind::Alias));
        assert(basic@ =~= output_kind_name(OutputKind::Basic));
        assert(foundry@ =~= output_kind_name(OutputKind::Foundry));
        assert(nft@ =~= output_kind_name(OutputKind::Nft));
        assert(treasury@ =~= output_kind_name(OutputKind::Treasury));
        if bytes_equal(b, alias.as_slice()) {
            Some(OutputKind::Alias)
        } else if bytes_equal(b, basic.as_slice()) {
            Some(OutputKind::Basic)
        } else if bytes_equal(b, foundry.as_slice()) {
            Some(OutputKind::Foundry)
        } else if bytes_equal(b, nft.as_slice()) {
            Some(OutputKind::Nft)
        } else if bytes_equal(b, treasury.as_slice()) {
            Some(OutputKind::Treasury)
        } else {
            None
        }
    }
}

/// How an account is named: by its alias, or by its index.
#[derive(Debug, Clone, PartialEq, Eq)]
pub enum AccountIdentifier {
    Alias(String),
    Index(u32),
}

impl AccountIdentifier {
    /// An index where `value` writes one that fits in a `u32`, an alias otherwise.
    pub fn from_str(value: &str) -> (r: AccountIdentifier)
        ensures
            match r {
                AccountIdentifier::Index(i) => is_u64_decimal(value.spec_bytes()) && i == decimal_value(
                    unsigned_digits(value.spec_bytes()),
                ),
                AccountIdentifier::Alias(a) => a@ == value@ && !(is_u64_decimal(value.spec_bytes()) && decimal_value(
                    unsigned_digits(value.spec_bytes()),
                ) <= u32::MAX),
            },
    {
        match parse_u64(value) {
            Some(v) => {
                if v <= u32::MAX as u64 {
                    AccountIdentifier::Index(v as u32)
                } else {
                    AccountIdentifier::Alias(value.to_owned())
                }
            },
            None => AccountIdentifier::Alias(value.to_owned()),
        }
    }

    pub fn from_index(value: u32) -> (r: AccountIdentifier)
        ensures
            r == AccountIdentifier::Index(value),
    {
        AccountIdentifier::Index(value)
    }
}

} // verus!
