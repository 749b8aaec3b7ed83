//! The host types of the soroban SDK that the draw logic handles, and the
//! operations on them that it calls.
use vstd::prelude::*;

verus! {

/// The host environment, carried through to host calls.
#[verifier::external_type_specification]
#[verifier::external_body]
pub struct ExEnv(soroban_sdk::Env);

/// A host vector.
#[verifier::external_type_specification]
#[verifier::external_body]
#[verifier::reject_recursive_types(T)]
pub struct ExSdkVec<T>(soroban_sdk::Vec<T>);

/// The items of a host vector of `u32`, in order.
pub uninterp spec fn sdk_u32_items(v: soroban_sdk::Vec<u32>) -> Seq<u32>;

/// Calls `soroban_sdk::Vec::<u32>::new`: an empty vector.
#[verifier::external_body]
pub(crate) fn sdk_vec_new(env: &soroban_sdk::Env) -> (v: soroban_sdk::Vec<u32>)
    ensures
        sdk_u32_items(v) == Seq::<u32>::empty(),
{
    soroban_sdk::Vec::new(env)
}

/// Calls `soroban_sdk::Vec::<u32>::push_back`: appends `x`.
#[verifier::external_body]
pub(crate) fn sdk_vec_push_back(v: &mut soroban_sdk::Vec<u32>, x: u32)
    requires
        sdk_u32_items(*old(v)).len() < u32::MAX,
    ensures
        sdk_u32_items(*final(v)) == sdk_u32_items(*old(v)).push(x),
{
    v.push_back(x)
}

} // verus!
