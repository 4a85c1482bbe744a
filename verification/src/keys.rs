//! Multicast keys, derived by the `lrwn` crate.
//!
//! A key is 16 bytes long.  An address is 4 bytes long, most significant byte first.  The names
//! below stand for the derivations of the `lrwn` crate, which encrypt or decrypt one block with
//! AES-128.

use lrwn::applayer::multicastsetup::v1;
use lrwn::{AES128Key, DevAddr};
use vstd::prelude::*;

verus! {

/// What `lrwn::applayer::multicastsetup::v1::get_mc_root_key_for_gen_app_key` returns.
pub uninterp spec fn mc_root_key_for_gen_app_key(gen_app_key: Seq<u8>) -> Seq<u8>;

/// What `lrwn::applayer::multicastsetup::v1::get_mc_root_key_for_app_key` returns.
pub uninterp spec fn mc_root_key_for_app_key(app_key: Seq<u8>) -> Seq<u8>;

/// What `lrwn::applayer::multicastsetup::v1::get_mc_ke_key` returns.
pub uninterp spec fn mc_ke_key(mc_root_key: Seq<u8>) -> Seq<u8>;

/// What `lrwn::applayer::multicastsetup::v1::get_mc_app_s_key` returns.
pub uninterp spec fn mc_app_s_key(mc_key: Seq<u8>, mc_addr: Seq<u8>) -> Seq<u8>;

/// What `lrwn::applayer::multicastsetup::v1::get_mc_net_s_key` returns.
pub uninterp spec fn mc_net_s_key(mc_key: Seq<u8>, mc_addr: Seq<u8>) -> Seq<u8>;

/// What `lrwn::applayer::multicastsetup::v1::encrypt_mc_key` returns.
pub uninterp spec fn encrypted_mc_key(mc_ke_key: Seq<u8>, mc_key: Seq<u8>) -> Seq<u8>;

/// Calls `lrwn::applayer::multicastsetup::v1::get_mc_root_key_for_gen_app_key`.
///
/// The call succeeds for every key, and the derived key depends on that key alone.
#[verifier::external_body]
pub(crate) fn get_mc_root_key_for_gen_app_key(gen_app_key: [u8; 16]) -> (key: Result<
    [u8; 16],
    String,
>)
    ensures
        key is Ok,
        key matches Ok(k) ==> k@ == mc_root_key_for_gen_app_key(gen_app_key@),
{
    match v1::get_mc_root_key_for_gen_app_key(AES128Key::from_bytes(gen_app_key)) {
        Ok(key) => Ok(key.to_bytes()),
        Err(e) => Err(e.to_string()),
    }
}

/// Calls `lrwn::applayer::multicastsetup::v1::get_mc_root_key_for_app_key`.
///
/// The call succeeds for every key, and the derived key depends on that key alone.
#[verifier::external_body]
pub(crate) fn get_mc_root_key_for_app_key(app_key: [u8; 16]) -> (key: Result<[u8; 16], String>)
    ensures
        key is Ok,
        key matches Ok(k) ==> k@ == mc_root_key_for_app_key(app_key@),
{
    match v1::get_mc_root_key_for_app_key(AES128Key::from_bytes(app_key)) {
        Ok(key) => Ok(key.to_bytes()),
        Err(e) => Err(e.to_string()),
    }
}

/// Calls `lrwn::applayer::multicastsetup::v1::get_mc_ke_key`.
///
/// The call succeeds for every key, and the derived key depends on that key alone.
#[verifier::external_body]
pub(crate) fn get_mc_ke_key(mc_root_key: [u8; 16]) -> (key: Result<[u8; 16], String>)
    ensures
        key is Ok,
        key matches Ok(k) ==> k@ == mc_ke_key(mc_root_key@),
{
    match v1::get_mc_ke_key(AES128Key::from_bytes(mc_root_key)) {
        Ok(key) => Ok(key.to_bytes()),
        Err(e) => Err(e.to_string()),
    }
}

/// Calls `lrwn::applayer::multicastsetup::v1::get_mc_app_s_key`.
///
/// The call succeeds for every key and address, and the derived key depends on these two alone.
#[verifier::external_body]
pub(crate) fn get_mc_app_s_key(mc_key: [u8; 16], mc_addr: [u8; 4]) -> (key: Result<
    [u8; 16],
    String,
>)
    ensures
        key is Ok,
        key matches Ok(k) ==> k@ == mc_app_s_key(mc_key@, mc_addr@),
{
    match v1::get_mc_app_s_key(AES128Key::from_bytes(mc_key), DevAddr::from_be_bytes(mc_addr)) {
        Ok(key) => Ok(key.to_bytes()),
        Err(e) => Err(e.to_string()),
    }
}

/// Calls `lrwn::applayer::multicastsetup::v1::get_mc_net_s_key`.
///
/// The call succeeds for every key and address, and the derived key depends on these two alone.
#[verifier::external_body]
pub(crate) fn get_mc_net_s_key(mc_key: [u8; 16], mc_addr: [u8; 4]) -> (key: Result<
    [u8; 16],
    String,
>)
    ensures
        key is Ok,
        key matches Ok(k) ==> k@ == mc_net_s_key(mc_key@, mc_addr@),
{
    match v1::get_mc_net_s_key(AES128Key::from_bytes(mc_key), DevAddr::from_be_bytes(mc_addr)) {
        Ok(key) => Ok(key.to_bytes()),
        Err(e) => Err(e.to_string()),
    }
}

/// Calls `lrwn::applayer::multicastsetup::v1::encrypt_mc_key`.
///
/// The encrypted key depends on the two keys alone.
#[verifier::external_body]
pub(crate) fn encrypt_mc_key(mc_ke_key: [u8; 16], mc_key: [u8; 16]) -> (encrypted: [u8; 16])
    ensures
        encrypted@ == encrypted_mc_key(mc_ke_key@, mc_key@),
{
    v1::encrypt_mc_key(AES128Key::from_bytes(mc_ke_key), AES128Key::from_bytes(mc_key))
}

}
