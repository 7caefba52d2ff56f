//! Constructors and conversions for [`NearToken`] and [`NearGas`]: yoctoNEAR
//! amounts as decimal text, gas as plain units, and both as the values of
//! the `near-token` and `near-gas` crates.

use vstd::prelude::*;
use vstd::std_specs::convert::FromSpecImpl;
use vstd::std_specs::convert::TryFromSpecImpl;
use crate::decimal::{
    decimal_text, format_u128, lemma_parse_of_decimal_text, parse_u128, parsed_u128,
};
use crate::types::{NearGas, NearToken};
use near_gas::NearGas as GasUnits;
use near_token::NearToken as YoctoAmount;

verus! {

/// 1 NEAR = 10^24 yoctoNEAR.
pub const YOCTO_PER_NEAR: u128 = 1_000_000_000_000_000_000_000_000;

/// 1 TGas = 10^12 gas units.
pub const GAS_PER_TGAS: u64 = 1_000_000_000_000;

/// `near_token::NearToken`, the token amount of the `near-token` crate. What
/// it holds is known through [`token_yocto`] alone.
#[verifier::external_type_specification]
#[verifier::external_body]
pub struct ExOutsideToken(YoctoAmount);

/// `near_gas::NearGas`, the gas amount of the `near-gas` crate. What it
/// holds is known through [`gas_units`] alone.
#[verifier::external_type_specification]
#[verifier::external_body]
pub struct ExOutsideGas(GasUnits);

/// The number of yoctoNEAR that a `near_token::NearToken` holds.
pub uninterp spec fn token_yocto(token: YoctoAmount) -> u128;

/// The number of gas units that a `near_gas::NearGas` holds.
pub uninterp spec fn gas_units(gas: GasUnits) -> u64;

/// `near_token::NearToken::from_yoctonear`: the amount that it makes holds
/// the given number of yoctoNEAR, unchanged.
pub assume_specification[ YoctoAmount::from_yoctonear ](inner: u128) -> (token: YoctoAmount)
    ensures
        token_yocto(token) == inner,
;

/// `near_token::NearToken::as_yoctonear`: it returns the number of yoctoNEAR
/// that the amount holds.
pub assume_specification[ YoctoAmount::as_yoctonear ](token: &YoctoAmount) -> (inner: u128)
    ensures
        inner == token_yocto(*token),
;

/// `near_gas::NearGas::from_gas`: the amount that it makes holds the given
/// number of gas units, unchanged.
pub assume_specification[ GasUnits::from_gas ](inner: u64) -> (gas: GasUnits)
    ensures
        gas_units(gas) == inner,
;

/// `near_gas::NearGas::as_gas`: it returns the number of gas units that the
/// amount holds.
pub assume_specification[ GasUnits::as_gas ](gas: GasUnits) -> (inner: u64)
    ensures
        inner == gas_units(gas),
;

/// A token amount whose text is not an unsigned 128-bit decimal number.
#[derive(Clone, Copy, Debug, PartialEq, Eq)]
pub struct InvalidAmount;

impl NearToken {
    /// The amount in yoctoNEAR that the text denotes, if it denotes one.
    pub open spec fn yocto(self) -> Option<u128> {
        parsed_u128(self.0@)
    }

    /// The amount in yoctoNEAR, or `None` where the text is not an unsigned
    /// 128-bit decimal number.
    pub fn checked_yoctonear(&self) -> (r: Option<u128>)
        ensures
            r == self.yocto(),
    {
        parse_u128(self.0.as_str())
    }

    /// The amount in yoctoNEAR. The text must denote one; see
    /// [`NearToken::checked_yoctonear`] for text of unknown origin.
    pub fn as_yoctonear(&self) -> (r: u128)
        requires
            self.yocto() is Some,
        ensures
            self.yocto() == Some(r),
    {
        match parse_u128(self.0.as_str()) {
            Some(amount) => amount,
            None => vstd::pervasive::unreached(),
        }
    }

    /// The token amount of `amount` yoctoNEAR.
    pub fn from_yoctonear(amount: u128) -> (r: Self)
        ensures
            r.0@ == decimal_text(amount as nat),
            r.yocto() == Some(amount),
    {
        proof {
            lemma_parse_of_decimal_text(amount);
        }
        NearToken(format_u128(amount))
    }

    /// The token amount of `amount` whole NEAR. The amount in yoctoNEAR must
    /// fit 128 bits.
    pub fn from_near(amount: u64) -> (r: Self)
        requires
            amount * YOCTO_PER_NEAR <= u128::MAX,
        ensures
            r.0@ == decimal_text((amount * YOCTO_PER_NEAR) as nat),
            r.yocto() == Some((amount * YOCTO_PER_NEAR) as u128),
    {
        Self::from_yoctonear((amount as u128) * YOCTO_PER_NEAR)
    }
}

impl NearGas {
    /// The amount in gas units.
    pub fn as_gas(&self) -> (r: u64)
        ensures
            r == self.0,
    {
        self.0
    }

    /// The gas amount of `gas` units.
    pub fn from_gas(gas: u64) -> (r: Self)
        ensures
            r.0 == gas,
    {
        NearGas(gas)
    }

    /// The gas amount of `tgas` TGas. The amount in gas units must fit 64
    /// bits.
    pub fn from_tgas(tgas: u64) -> (r: Self)
        requires
            tgas * GAS_PER_TGAS <= u64::MAX,
        ensures
            r.0 == tgas * GAS_PER_TGAS,
    {
        NearGas(tgas * GAS_PER_TGAS)
    }
}

impl From<YoctoAmount> for NearToken {
    /// The token amount with the decimal text of what `token` holds.
    fn from(token: YoctoAmount) -> (r: Self)
        ensures
            r.yocto() == Some(token_yocto(token)),
            r.0@ == decimal_text(token_yocto(token) as nat),
    {
        NearToken::from_yoctonear(token.as_yoctonear())
    }
}

/// The conversion is stated on `from` itself: a specification cannot write
/// down the string that the result holds, only its text.
impl FromSpecImpl<YoctoAmount> for NearToken {
    open spec fn obeys_from_spec() -> bool {
        false
    }

    open spec fn from_spec(token: YoctoAmount) -> Self {
        arbitrary()
    }
}

impl TryFrom<NearToken> for YoctoAmount {
    type Error = InvalidAmount;

    /// The amount of the `near-token` crate that holds what the text of
    /// `token` denotes; an error where the text denotes no amount.
    fn try_from(token: NearToken) -> (r: Result<Self, InvalidAmount>)
        ensures
            match r {
                Ok(outside) => token.yocto() == Some(token_yocto(outside)),
                Err(_) => token.yocto() is None,
            },
    {
        match token.checked_yoctonear() {
            Some(amount) => Ok(YoctoAmount::from_yoctonear(amount)),
            None => Err(InvalidAmount),
        }
    }
}

/// The conversion is stated on `try_from` itself, over what the result
/// holds.
impl TryFromSpecImpl<NearToken> for YoctoAmount {
    open spec fn obeys_try_from_spec() -> bool {
        false
    }

    open spec fn try_from_spec(token: NearToken) -> Result<Self, InvalidAmount> {
        arbitrary()
    }
}

impl From<GasUnits> for NearGas {
    /// The gas amount of the units that `gas` holds.
    fn from(gas: GasUnits) -> (r: Self)
        ensures
            r.0 == gas_units(gas),
    {
        NearGas::from_gas(gas.as_gas())
    }
}

impl FromSpecImpl<GasUnits> for NearGas {
    open spec fn obeys_from_spec() -> bool {
        true
    }

    open spec fn from_spec(gas: GasUnits) -> Self {
        NearGas(gas_units(gas))
    }
}

impl From<NearGas> for GasUnits {
    /// The amount of the `near-gas` crate that holds the units of `gas`.
    fn from(gas: NearGas) -> (r: Self)
        ensures
            gas_units(r) == gas.0,
    {
        GasUnits::from_gas(gas.as_gas())
    }
}

/// The conversion is stated on `from` itself, over what the result holds.
impl FromSpecImpl<NearGas> for GasUnits {
    open spec fn obeys_from_spec() -> bool {
        false
    }

    open spec fn from_spec(gas: NearGas) -> Self {
        arbitrary()
    }
}

} // verus!
