//! Stubs that bridge the calling convention of a target and the convention
//! that the dispatcher uses, in both directions, and the cache that hands out
//! one stub per address and direction.

use crate::error::HookError;
use std::collections::HashMap;
use vstd::prelude::*;

verus! {

/// The convention of the dispatcher itself.
pub const CONVENTION_DEFAULT: u32 = 0;

/// The C convention: arguments on the stack, removed by the caller. It is
/// the convention of the dispatcher under its own name.
pub const CONVENTION_CDECL: u32 = 1;

/// Whether a stub can bridge `convention`. The conventions that need no
/// re-marshalling are bridged; every other one is refused.
pub open spec fn supported_convention(convention: u32) -> bool {
    convention == CONVENTION_DEFAULT || convention == CONVENTION_CDECL
}

/// Whether a stub can bridge `convention`.
pub fn is_supported_convention(convention: u32) -> (supported: bool)
    ensures
        supported == supported_convention(convention),
{
    convention == CONVENTION_DEFAULT || convention == CONVENTION_CDECL
}

/// What a cache of stubs answers when it is asked for the stub of
/// `address`: the stub it holds, or else a new one, which for a supported
/// convention is the address itself.
pub open spec fn stub_for(cache: Map<u64, u64>, address: u64, convention: u32) -> Result<
    u64,
    HookError,
> {
    if cache.contains_key(address) {
        Ok(cache[address])
    } else if supported_convention(convention) {
        Ok(address)
    } else {
        Err(HookError::UnsupportedConvention)
    }
}

/// A cache of stubs after it was asked for the stub of `address`: a stub
/// that had to be generated is kept.
pub open spec fn cache_after(cache: Map<u64, u64>, address: u64, convention: u32) -> Map<
    u64,
    u64,
> {
    if !cache.contains_key(address) && supported_convention(convention) {
        cache.insert(address, address)
    } else {
        cache
    }
}

/// How the function behind a stub expects to be called.
#[derive(Clone, Copy, Debug, PartialEq, Eq, Structural)]
pub struct WrapperMetadata {
    pub convention: u32,
    pub abstractd: u32,
}

/// The platform that stubs are generated for.
pub struct Target;

impl Target {
    pub fn get() -> Target {
        Target {  }
    }

    /// The generator of the stubs for the function at `address`.
    pub fn get_wrapper_generator(&self, address: u64, metadata: &WrapperMetadata) -> (generator:
        WrapperGenerator)
        ensures
            generator.address == address,
            generator.metadata == *metadata,
    {
        WrapperGenerator { address, metadata: *metadata }
    }
}

/// Generates the stubs for one function.
pub struct WrapperGenerator {
    pub address: u64,
    pub metadata: WrapperMetadata,
}

impl WrapperGenerator {
    /// The address of a stub that takes a call in the function's convention
    /// and hands it on in the dispatcher's. A convention that needs no
    /// re-marshalling needs no code: the stub is the function itself. Any
    /// other convention is refused.
    pub fn generate_wrapper(&self) -> (result: Result<u64, HookError>)
        ensures
            result == if supported_convention(self.metadata.convention) {
                Ok::<u64, HookError>(self.address)
            } else {
                Err::<u64, HookError>(HookError::UnsupportedConvention)
            },
    {
        if is_supported_convention(self.metadata.convention) {
            Ok(self.address)
        } else {
            Err(HookError::UnsupportedConvention)
        }
    }

    /// The address of a stub that takes a call in the dispatcher's
    /// convention and hands it on in the function's. A convention that needs
    /// no re-marshalling needs no code: the stub is the function itself. Any
    /// other convention is refused.
    pub fn generate_reverse_wrapper(&self) -> (result: Result<u64, HookError>)
        ensures
            result == if supported_convention(self.metadata.convention) {
                Ok::<u64, HookError>(self.address)
            } else {
                Err::<u64, HookError>(HookError::UnsupportedConvention)
            },
    {
        if is_supported_convention(self.metadata.convention) {
            Ok(self.address)
        } else {
            Err(HookError::UnsupportedConvention)
        }
    }
}

/// The stubs generated so far: for each address at most one in each direction.
pub struct Wrapper {
    wrappers: HashMap<u64, u64>,
    reverse_wrappers: HashMap<u64, u64>,
}

impl Wrapper {
    /// The stubs that lead into the dispatcher, by the address they stand for.
    pub closed spec fn forward(&self) -> Map<u64, u64> {
        self.wrappers@
    }

    /// The stubs that lead out of the dispatcher, by the address they stand for.
    pub closed spec fn reverse(&self) -> Map<u64, u64> {
        self.reverse_wrappers@
    }

    /// A cache without stubs.
    pub fn get() -> (wrapper: Wrapper)
        ensures
            wrapper.forward() == Map::<u64, u64>::empty(),
            wrapper.reverse() == Map::<u64, u64>::empty(),
    {
        Wrapper { wrappers: HashMap::new(), reverse_wrappers: HashMap::new() }
    }

    /// The stub that leads from the convention of the function at `address`
    /// into the dispatcher. The stub of an earlier call for the same
    /// address is handed out again; otherwise one is generated and kept.
    pub fn create_wrapper(&mut self, address: u64, metadata: &WrapperMetadata) -> (result: Result<
        u64,
        HookError,
    >)
        ensures
            result == stub_for(old(self).forward(), address, metadata.convention),
            final(self).forward() == cache_after(
                old(self).forward(),
                address,
                metadata.convention,
            ),
            final(self).reverse() == old(self).reverse(),
    {
        broadcast use vstd::std_specs::hash::group_hash_axioms;

        match self.wrappers.get(&address) {
            Some(stub) => Ok(*stub),
            None => {
                let generator = Target::get().get_wrapper_generator(address, metadata);
                match generator.generate_wrapper() {
                    Ok(stub) => {
                        self.wrappers.insert(address, stub);
                        Ok(stub)
                    },
                    Err(e) => Err(e),
                }
            },
        }
    }

    /// The stub that leads from the dispatcher into the convention of the
    /// function at `address`. The stub of an earlier call for the same
    /// address is handed out again; otherwise one is generated and kept.
    pub fn create_reverse_wrapper(&mut self, address: u64, metadata: &WrapperMetadata) -> (result:
        Result<u64, HookError>)
        ensures
            result == stub_for(old(self).reverse(), address, metadata.convention),
            final(self).reverse() == cache_after(
                old(self).reverse(),
                address,
                metadata.convention,
            ),
            final(self).forward() == old(self).forward(),
    {
        broadcast use vstd::std_specs::hash::group_hash_axioms;

        match self.reverse_wrappers.get(&address) {
            Some(stub) => Ok(*stub),
            None => {
                let generator = Target::get().get_wrapper_generator(address, metadata);
                match generator.generate_reverse_wrapper() {
                    Ok(stub) => {
                        self.reverse_wrappers.insert(address, stub);
                        Ok(stub)
                    },
                    Err(e) => Err(e),
                }
            },
        }
    }
}

} // verus!
