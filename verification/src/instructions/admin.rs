//! The pool authority's instructions: lock or unlock the pool, change its fee,
//! hand the authority over or renounce it.

use vstd::prelude::*;

use crate::constants::MAX_FEE_BPS;
use crate::error::AmmError;
use crate::state::{spec_require_authority, Address, Config};

verus! {

/// The signer of an admin instruction and the pool it acts on.
pub struct Admin {
    pub authority: Address,
    pub config: Config,
}

impl Admin {
    pub fn set_locked(&mut self, locked: bool) -> (r: Result<(), AmmError>)
        ensures
            final(self).authority == old(self).authority,
            match spec_require_authority(old(self).config.authority, old(self).authority) {
                Err(e) => r == Err::<(), AmmError>(e) && final(self).config == old(self).config,
                Ok(_) => r is Ok && final(self).config == (Config { locked, ..old(self).config }),
            },
    {
        self.config.require_authority(&self.authority)?;
        self.config.locked = locked;
        Ok(())
    }

    pub fn set_fee(&mut self, fee: u16) -> (r: Result<(), AmmError>)
        ensures
            final(self).authority == old(self).authority,
            match spec_require_authority(old(self).config.authority, old(self).authority) {
                Err(e) => r == Err::<(), AmmError>(e) && final(self).config == old(self).config,
                Ok(_) => if fee < MAX_FEE_BPS {
                    r is Ok && final(self).config == (Config { fee, ..old(self).config })
                } else {
                    r == Err::<(), AmmError>(AmmError::InvalidFee) && final(self).config == old(
                        self,
                    ).config
                },
            },
    {
        self.config.require_authority(&self.authority)?;
        if !(fee < MAX_FEE_BPS) {
            return Err(AmmError::InvalidFee);
        }
        self.config.fee = fee;
        Ok(())
    }

    pub fn set_authority(&mut self, authority: Option<Address>) -> (r: Result<(), AmmError>)
        ensures
            final(self).authority == old(self).authority,
            match spec_require_authority(old(self).config.authority, old(self).authority) {
                Err(e) => r == Err::<(), AmmError>(e) && final(self).config == old(self).config,
                Ok(_) => r is Ok && final(self).config == (Config { authority, ..old(self).config }),
            },
    {
        self.config.require_authority(&self.authority)?;
        self.config.authority = authority;
        Ok(())
    }
}

} // verus!
