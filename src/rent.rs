use vstd::prelude::*;

verus! {

/// Bytes of the output identifier, weighted as key bytes.
pub const RENT_KEY_OFFSET: u64 = 34;

/// Bytes of the block identifier, the index and the timestamp of inclusion, weighted as data.
pub const RENT_DATA_OFFSET: u64 = 40;

/// The protocol's byte cost model: what one weighted byte costs, and how key and data bytes weigh.
#[derive(Debug, Clone, Copy, PartialEq, Eq, Hash, Structural)]
pub struct RentStructure {
    pub v_byte_cost: u32,
    pub v_byte_factor_key: u8,
    pub v_byte_factor_data: u8,
}

/// The storage deposit that an output of `len` packed bytes (its kind byte included) needs.
pub open spec fn rent_cost_of_len(rs: RentStructure, len: nat) -> nat {
    rs.v_byte_cost as nat * (rs.v_byte_factor_key as nat * RENT_KEY_OFFSET as nat + rs.v_byte_factor_data as nat * (
    RENT_DATA_OFFSET as nat + len))
}

/// The storage deposit, or the largest `u64` where it is larger.
pub open spec fn rent_cost_capped(rs: RentStructure, len: nat) -> u64 {
    if rent_cost_of_len(rs, len) > u64::MAX {
        u64::MAX
    } else {
        rent_cost_of_len(rs, len) as u64
    }
}

/// A longer encoding costs no less.
pub proof fn lemma_rent_monotonic(rs: RentStructure, a: nat, b: nat)
    requires
        a <= b,
    ensures
        rent_cost_capped(rs, a) <= rent_cost_capped(rs, b),
{
    let k = rs.v_byte_factor_key as nat * RENT_KEY_OFFSET as nat;
    let d = rs.v_byte_factor_data as nat;
    let c = rs.v_byte_cost as nat;
    assert(d * (RENT_DATA_OFFSET as nat + a) <= d * (RENT_DATA_OFFSET as nat + b)) by (nonlinear_arith)
        requires
            a <= b,
    ;
    assert(c * (k + d * (RENT_DATA_OFFSET as nat + a)) <= c * (k + d * (RENT_DATA_OFFSET as nat + b))) by (nonlinear_arith)
        requires
            d * (RENT_DATA_OFFSET as nat + a) <= d * (RENT_DATA_OFFSET as nat + b),
    ;
}

impl RentStructure {
    pub fn new(v_byte_cost: u32, v_byte_factor_key: u8, v_byte_factor_data: u8) -> (r: RentStructure)
        ensures
            r.v_byte_cost == v_byte_cost,
            r.v_byte_factor_key == v_byte_factor_key,
            r.v_byte_factor_data == v_byte_factor_data,
    {
        RentStructure { v_byte_cost, v_byte_factor_key, v_byte_factor_data }
    }

    /// The storage deposit of an output whose fields pack to `fields_len` bytes after its
    /// kind byte, capped at the largest `u64`.
    pub fn cost_of_output(&self, fields_len: usize) -> (r: u64)
        ensures
            r == rent_cost_capped(*self, 1 + fields_len as nat),
    {
        let key = self.v_byte_factor_key as u128 * RENT_KEY_OFFSET as u128;
        let f = self.v_byte_factor_data as u128;
        let n = RENT_DATA_OFFSET as u128 + 1 + fields_len as u128;
        assert(f * n <= 255 * (41 + 0x1_0000_0000_0000_0000)) by (nonlinear_arith)
            requires
                f <= 255,
                n <= 41 + 0x1_0000_0000_0000_0000,
        ;
        let weighted = key + f * n;
        let c = self.v_byte_cost as u128;
        assert(c * weighted <= 0xffff_ffff * (255 * 34 + 255 * (41 + 0x1_0000_0000_0000_0000))) by (nonlinear_arith)
            requires
                weighted <= 255 * 34 + 255 * (41 + 0x1_0000_0000_0000_0000),
                c <= 0xffff_ffff,
        ;
        let cost = c * weighted;
        if cost > u64::MAX as u128 {
            u64::MAX
        } else {
            cost as u64
        }
    }
}

/// What the amount of an output under construction will be.
#[derive(Debug, Clone, Copy, PartialEq, Eq, Hash, Structural)]
pub enum OutputBuilderAmount {
    /// This amount.
    Amount(u64),
    /// The storage deposit that the finished output needs under this cost model.
    MinimumStorageDeposit(RentStructure),
}

/// The parameters of the protocol that outputs are checked against.
#[derive(Debug, Clone, Copy, PartialEq, Eq, Hash, Structural)]
pub struct ProtocolParameters {
    pub token_supply: u64,
    pub rent_structure: RentStructure,
}

impl ProtocolParameters {
    pub fn new(token_supply: u64, rent_structure: RentStructure) -> (r: ProtocolParameters)
        ensures
            r.token_supply == token_supply,
            r.rent_structure == rent_structure,
    {
        ProtocolParameters { token_supply, rent_structure }
    }

    pub fn token_supply(&self) -> (r: u64)
        ensures
            r == self.token_supply,
    {
        self.token_supply
    }

    pub fn rent_structure(&self) -> (r: RentStructure)
        ensures
            r == self.rent_structure,
    {
        self.rent_structure
    }
}

/// What an output is checked against when finished: the token supply, where one is given.
#[derive(Debug, Clone, Copy, PartialEq, Eq, Hash, Structural)]
pub struct ValidationParams {
    pub token_supply: Option<u64>,
}

impl ValidationParams {
    /// No check of the amount.
    pub fn new() -> (r: ValidationParams)
        ensures
            r.token_supply is None,
    {
        ValidationParams { token_supply: None }
    }

    pub fn with_token_supply(token_supply: u64) -> (r: ValidationParams)
        ensures
            r.token_supply == Some(token_supply),
    {
        ValidationParams { token_supply: Some(token_supply) }
    }

    pub fn with_protocol_parameters(params: &ProtocolParameters) -> (r: ValidationParams)
        ensures
            r.token_supply == Some(params.token_supply),
    {
        ValidationParams { token_supply: Some(params.token_supply) }
    }

    pub fn token_supply(&self) -> (r: Option<u64>)
        ensures
            r == self.token_supply,
    {
        self.token_supply
    }
}

/// The amount does not exceed the token supply, where one is given.
pub open spec fn amount_within_supply(amount: u64, token_supply: Option<u64>) -> bool {
    match token_supply {
        Some(ts) => amount <= ts,
        None => true,
    }
}

} // verus!
