//! Markets and the pools under them: who they are, not what they hold.
//!
//! A market fixes a fee and an administrator; a pool pairs two distinct
//! assets under one market. Both are made once and never change. Reserves
//! and liquidity shares live in the ledger and are handed to the other
//! modules call by call.

use vstd::prelude::*;
use crate::constants::FEE_DENOMINATOR;
use crate::errors::TutorialError;

verus! {

/// The 32 bytes that name an account, a market or an asset.
#[derive(Clone, Copy, Debug, PartialEq, Eq)]
pub struct Address {
    /// The bytes of the name.
    pub bytes: [u8; 32],
}

impl View for Address {
    type V = Seq<u8>;

    open spec fn view(&self) -> Seq<u8> {
        self.bytes@
    }
}

impl Address {
    /// The address with the given bytes.
    pub fn new(bytes: [u8; 32]) -> (address: Address)
        ensures
            address.bytes == bytes,
    {
        Address { bytes }
    }

    /// Whether two addresses have the same bytes.
    pub fn same_as(&self, other: &Address) -> (same: bool)
        ensures
            same == (self@ == other@),
    {
        let mut i: usize = 0;
        while i < 32
            invariant
                i <= 32,
                forall|j: int| 0 <= j < i ==> self.bytes@[j] == other.bytes@[j],
            decreases 32 - i,
        {
            if self.bytes[i] != other.bytes[i] {
                return false;
            }
            i += 1;
        }
        assert(self@ =~= other@);
        true
    }
}

/// One market: its administrator, the id its creator chose and its fee.
#[derive(Clone, Copy, Debug, PartialEq, Eq)]
pub struct Amm {
    id: Address,
    admin: Address,
    fee: u16,
}

impl Amm {
    #[verifier::type_invariant]
    spec fn fee_below_whole(self) -> bool {
        self.fee < FEE_DENOMINATOR
    }

    /// The id of the market.
    pub closed spec fn spec_id(&self) -> Address {
        self.id
    }

    /// The administrator of the market.
    pub closed spec fn spec_admin(&self) -> Address {
        self.admin
    }

    /// The fee of the market, in basis points.
    pub closed spec fn spec_fee(&self) -> u16 {
        self.fee
    }

    /// The id that the creator chose for the market.
    #[verifier::when_used_as_spec(spec_id)]
    pub fn id(&self) -> (id: Address)
        ensures
            id == self.spec_id(),
    {
        self.id
    }

    /// The one who may configure the market.
    #[verifier::when_used_as_spec(spec_admin)]
    pub fn admin(&self) -> (admin: Address)
        ensures
            admin == self.spec_admin(),
    {
        self.admin
    }

    /// The fee taken from the input of every swap, in basis points: always
    /// less than a whole.
    #[verifier::when_used_as_spec(spec_fee)]
    pub fn fee(&self) -> (fee: u16)
        ensures
            fee == self.spec_fee(),
            fee < FEE_DENOMINATOR,
    {
        proof {
            use_type_invariant(self);
        }
        self.fee
    }
}

/// One pool: the market it belongs to and its two assets, which differ.
#[derive(Clone, Copy, Debug, PartialEq, Eq)]
pub struct Pool {
    amm: Address,
    mint_a: Address,
    mint_b: Address,
}

impl Pool {
    #[verifier::type_invariant]
    spec fn assets_differ(self) -> bool {
        self.mint_a@ != self.mint_b@
    }

    /// The market of the pool.
    pub closed spec fn spec_amm(&self) -> Address {
        self.amm
    }

    /// The first asset of the pool.
    pub closed spec fn spec_mint_a(&self) -> Address {
        self.mint_a
    }

    /// The second asset of the pool.
    pub closed spec fn spec_mint_b(&self) -> Address {
        self.mint_b
    }

    /// The address of the market that the pool belongs to.
    #[verifier::when_used_as_spec(spec_amm)]
    pub fn amm(&self) -> (amm: Address)
        ensures
            amm == self.spec_amm(),
    {
        self.amm
    }

    /// The asset held as reserve A. It is never the same as asset B.
    #[verifier::when_used_as_spec(spec_mint_a)]
    pub fn mint_a(&self) -> (mint: Address)
        ensures
            mint == self.spec_mint_a(),
            mint@ != self.spec_mint_b()@,
    {
        proof {
            use_type_invariant(self);
        }
        self.mint_a
    }

    /// The asset held as reserve B. It is never the same as asset A.
    #[verifier::when_used_as_spec(spec_mint_b)]
    pub fn mint_b(&self) -> (mint: Address)
        ensures
            mint == self.spec_mint_b(),
            mint@ != self.spec_mint_a()@,
    {
        proof {
            use_type_invariant(self);
        }
        self.mint_b
    }
}

/// Who creates a market.
#[derive(Clone, Copy, Debug, PartialEq, Eq)]
pub struct CreateAmm {
    /// The administrator of the market to be.
    pub admin: Address,
}

/// What a new pool is made of.
#[derive(Clone, Copy, Debug, PartialEq, Eq)]
pub struct CreatePool {
    /// The address of the market that the pool goes under.
    pub amm: Address,
    /// The asset to hold as reserve A.
    pub mint_a: Address,
    /// The asset to hold as reserve B.
    pub mint_b: Address,
}

/// Creates a market with the given id and fee. Any id and any
/// administrator will do; a fee of a whole or more is refused with
/// `InvalidFee`.
pub fn create_amm(ctx: &CreateAmm, id: Address, fee: u16) -> (r: Result<Amm, TutorialError>)
    ensures
        r is Ok <==> fee < FEE_DENOMINATOR,
        r matches Ok(amm) ==> amm.id() == id && amm.admin() == ctx.admin && amm.fee() == fee,
        r matches Err(e) ==> e == TutorialError::InvalidFee,
{
    if fee as u64 >= FEE_DENOMINATOR {
        return Err(TutorialError::InvalidFee);
    }
    Ok(Amm { id, admin: ctx.admin, fee })
}

/// Creates the pool of two assets under a market. The pool starts with no
/// reserves. Two assets that are the same are refused with `InvalidMint`.
pub fn create_pool(ctx: &CreatePool) -> (r: Result<Pool, TutorialError>)
    ensures
        r is Ok <==> ctx.mint_a@ != ctx.mint_b@,
        r matches Ok(pool) ==> pool.amm() == ctx.amm && pool.mint_a() == ctx.mint_a
            && pool.mint_b() == ctx.mint_b,
        r matches Err(e) ==> e == TutorialError::InvalidMint,
{
    if ctx.mint_a.same_as(&ctx.mint_b) {
        return Err(TutorialError::InvalidMint);
    }
    Ok(Pool { amm: ctx.amm, mint_a: ctx.mint_a, mint_b: ctx.mint_b })
}

} // verus!
