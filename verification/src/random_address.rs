//! Addresses of keys drawn at random, for trying things out.

use vstd::prelude::*;

use crate::address::AddressError;
use crate::resolve::needs_lookup;

verus! {

/// The length of an uncompressed secp256k1 public key.
pub const SECP_PUB_LEN: usize = 65;

/// The length of the text of a key address: the two tags and 39 characters
/// of base32.
pub const KEY_ADDRESS_TEXT_LEN: usize = 41;

/// Why `fvm_shared` refused to make an address.
#[verifier::external_type_specification]
#[verifier::external_body]
pub struct ExAddressError(fvm_shared::address::Error);

/// `rand::Rng::fill` on the generator of the thread: `SECP_PUB_LEN` bytes,
/// whatever they are.
#[verifier::external_body]
fn random_key_bytes() -> (key: Vec<u8>)
    ensures
        key@.len() == SECP_PUB_LEN,
{
    let mut rng = ethers::prelude::rand::thread_rng();
    let mut bytes = [0u8; SECP_PUB_LEN];
    ethers::prelude::rand::Rng::fill(&mut rng, &mut bytes[..]);
    bytes.to_vec()
}

/// `fvm_shared::address::set_current_network` with the test network: from
/// here on the process writes addresses with the tag `t`.
#[verifier::external_body]
fn use_test_network() {
    fvm_shared::address::set_current_network(fvm_shared::address::Network::Testnet);
}

/// `fvm_shared::address::Address::new_secp256k1`, and the address as text.
/// The address is made exactly when the key has `SECP_PUB_LEN` bytes. Its
/// text has `KEY_ADDRESS_TEXT_LEN` characters: the tag of the network that
/// the process writes addresses for, the tag `1`, and base32.
#[verifier::external_body]
fn key_address_text(pubkey: &[u8]) -> (res: Result<String, fvm_shared::address::Error>)
    ensures
        res is Ok <==> pubkey@.len() == SECP_PUB_LEN,
        match res {
            Ok(text) => {
                &&& text@.len() == KEY_ADDRESS_TEXT_LEN
                &&& (text@[0] == 'f' || text@[0] == 't')
                &&& text@[1] == '1'
            },
            Err(_) => true,
        },
{
    let address = fvm_shared::address::Address::new_secp256k1(pubkey)?;
    Ok(address.to_string())
}

/// The address of a key drawn at random, as text. With `testnet` the
/// process is first switched to the test network, and stays there.
///
/// Every call gives an address, and every such address is one that is
/// decoded by a lookup.
pub fn random_filecoin_address(testnet: bool) -> (res: Result<String, AddressError>)
    ensures
        match res {
            Ok(text) => text@.len() == KEY_ADDRESS_TEXT_LEN && needs_lookup(text@),
            Err(_) => false,
        },
{
    let key: Vec<u8> = random_key_bytes();
    if testnet {
        use_test_network();
    }
    match key_address_text(key.as_slice()) {
        Ok(text) => Ok(text),
        Err(_) => Err(AddressError::InvalidAddress),
    }
}

} // verus!
