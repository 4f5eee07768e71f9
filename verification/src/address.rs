//! The address codec: protocol-tagged address text to a parsed address, and a
//! parsed address to the 20-byte form that contracts use.

use vstd::prelude::*;
use vstd::string::StringExecFns;

use crate::base32_text::{base32_decode, base32_decoded};
use crate::digest::{blake2b_checksum, checksum, CHECKSUM_LEN};
use crate::hexfmt::{hex_encode, hex_lower};
use crate::leb128::{leb128, septets_value};
use crate::text::{chars_of, is_numeral, numeral_value, parse_numeral, MAX_NUMERAL_LEN};

verus! {

/// The network that an address text names with its first character.
#[derive(Clone, Copy, Debug, PartialEq, Eq, Structural)]
pub enum Network {
    /// `f`
    Main,
    /// `t`
    Test,
}

/// The protocol that an address text names with its second character.
#[derive(Clone, Copy, Debug, PartialEq, Eq, Structural)]
pub enum Protocol {
    /// `0`: a short numeric identifier.
    Id,
    /// `1`: the hash of a secp256k1 public key.
    Secp256k1,
    /// `2`: the hash of an actor's creation data.
    Actor,
    /// `3`: a BLS public key.
    Bls,
    /// `4`: a namespace and a sub-address.
    Delegated,
}

/// Why an address was refused.
#[derive(Clone, Copy, Debug, PartialEq, Eq, Structural)]
pub enum AddressError {
    /// The first character names no network.
    InvalidCointype,
    /// The second character names no protocol.
    InvalidProtocol,
    /// The text or the payload is malformed for its protocol.
    InvalidAddress,
    /// The sub-address part is not base32.
    InvalidBase32,
    /// A number does not have the LEB128 form that is asked of it.
    InvalidLeb128,
    /// The checksum in the text is not the checksum of the address.
    InvalidChecksum,
    /// The address needs a lookup, and the lookup failed or is not at hand.
    RPCFailure,
    /// The address has no 20-byte form.
    UnsupportedProtocolConversion,
}

/// The number of bytes of a namespace in a delegated payload.
pub const NAMESPACE_LEN: usize = 8;

/// The longest sub-address of a delegated address.
pub const MAX_SUBADDRESS_LEN: usize = 54;

/// The largest namespace whose LEB128 encoding is a single byte.
pub const MAX_NAMESPACE: u64 = 127;

/// The length of the 20-byte form.
pub const ETH_ADDRESS_LEN: usize = 20;

/// The first byte of the 20-byte form of an ID address.
pub const ID_MASK_PREFIX: u8 = 0xff;

/// A parsed address as a mathematical value.
pub struct AddressView {
    pub network: Network,
    pub protocol: Protocol,
    pub payload: Seq<u8>,
}

/// A parsed address. Its payload always satisfies `payload_ok` for its
/// protocol.
#[derive(Debug, PartialEq, Eq)]
pub struct Address {
    network: Network,
    protocol: Protocol,
    payload: Vec<u8>,
}

impl View for Address {
    type V = AddressView;

    closed spec fn view(&self) -> AddressView {
        AddressView { network: self.network, protocol: self.protocol, payload: self.payload@ }
    }
}

impl Clone for Address {
    fn clone(&self) -> (res: Address)
        ensures
            res@ == self@,
    {
        proof {
            use_type_invariant(self);
        }
        let payload: Vec<u8> = self.payload.clone();
        proof {
            assert(payload@ =~= self.payload@);
        }
        Address { network: self.network, protocol: self.protocol, payload }
    }
}

/// The eight bytes of `n`, most significant first.
pub open spec fn be8(n: nat) -> Seq<u8> {
    seq![
        (n / 0x100_0000_0000_0000 % 256) as u8,
        (n / 0x1_0000_0000_0000 % 256) as u8,
        (n / 0x100_0000_0000 % 256) as u8,
        (n / 0x1_0000_0000 % 256) as u8,
        (n / 0x100_0000 % 256) as u8,
        (n / 0x1_0000 % 256) as u8,
        (n / 0x100 % 256) as u8,
        (n % 256) as u8,
    ]
}

/// What a payload must satisfy under its protocol: an ID payload is the
/// LEB128 encoding of a 64-bit number; a delegated payload is a namespace of
/// eight bytes and a sub-address of at most `MAX_SUBADDRESS_LEN` bytes. The
/// other protocols set no bound here.
pub open spec fn payload_ok(protocol: Protocol, payload: Seq<u8>) -> bool {
    match protocol {
        Protocol::Id => exists|n: u64| payload == leb128(n as nat),
        Protocol::Delegated => NAMESPACE_LEN <= payload.len() <= NAMESPACE_LEN
            + MAX_SUBADDRESS_LEN,
        _ => true,
    }
}

/// The network that `c` names.
pub open spec fn network_of(c: char) -> Option<Network> {
    if c == 'f' {
        Some(Network::Main)
    } else if c == 't' {
        Some(Network::Test)
    } else {
        None
    }
}

/// The protocol that `c` names.
pub open spec fn protocol_of(c: char) -> Option<Protocol> {
    if c == '0' {
        Some(Protocol::Id)
    } else if c == '1' {
        Some(Protocol::Secp256k1)
    } else if c == '2' {
        Some(Protocol::Actor)
    } else if c == '3' {
        Some(Protocol::Bls)
    } else if c == '4' {
        Some(Protocol::Delegated)
    } else {
        None
    }
}

/// The one-byte tag of a protocol.
pub open spec fn protocol_tag(protocol: Protocol) -> u8 {
    match protocol {
        Protocol::Id => 0,
        Protocol::Secp256k1 => 1,
        Protocol::Actor => 2,
        Protocol::Bls => 3,
        Protocol::Delegated => 4,
    }
}

/// The bytes of `n`, most significant first.
pub fn be8_bytes(n: u64) -> (out: Vec<u8>)
    ensures
        out@ == be8(n as nat),
{
    let mut out: Vec<u8> = Vec::new();
    out.push((n / 0x100_0000_0000_0000 % 256) as u8);
    out.push((n / 0x1_0000_0000_0000 % 256) as u8);
    out.push((n / 0x100_0000_0000 % 256) as u8);
    out.push((n / 0x1_0000_0000 % 256) as u8);
    out.push((n / 0x100_0000 % 256) as u8);
    out.push((n / 0x1_0000 % 256) as u8);
    out.push((n / 0x100 % 256) as u8);
    out.push((n % 256) as u8);
    proof {
        assert(out@ =~= be8(n as nat));
    }
    out
}

impl Address {
    #[verifier::type_invariant]
    closed spec fn wf(self) -> bool {
        payload_ok(self.protocol, self.payload@)
    }

    /// An address from its parts, refused where the payload breaks the
    /// bounds of its protocol: `InvalidLeb128` for an ID payload that is not
    /// the LEB128 encoding of a 64-bit number, `InvalidAddress` for a
    /// delegated payload of a wrong length.
    pub fn new(network: Network, protocol: Protocol, payload: Vec<u8>) -> (res: Result<
        Address,
        AddressError,
    >)
        ensures
            match res {
                Ok(a) => payload_ok(protocol, payload@) && a@ == (AddressView {
                    network,
                    protocol,
                    payload: payload@,
                }),
                Err(e) => !payload_ok(protocol, payload@) && e == (match protocol {
                    Protocol::Id => AddressError::InvalidLeb128,
                    _ => AddressError::InvalidAddress,
                }),
            },
    {
        match protocol {
            Protocol::Id => {
                if crate::leb128::decode(payload.as_slice()).is_none() {
                    return Err(AddressError::InvalidLeb128);
                }
            },
            Protocol::Delegated => {
                if payload.len() < NAMESPACE_LEN || payload.len() > NAMESPACE_LEN
                    + MAX_SUBADDRESS_LEN {
                    return Err(AddressError::InvalidAddress);
                }
            },
            _ => {},
        }
        Ok(Address { network, protocol, payload })
    }

    /// The network of the address.
    pub fn network(&self) -> (res: Network)
        ensures
            res == self@.network,
    {
        self.network
    }

    /// The protocol of the address.
    pub fn protocol(&self) -> (res: Protocol)
        ensures
            res == self@.protocol,
    {
        self.protocol
    }

    /// The payload of the address.
    pub fn payload(&self) -> (res: &[u8])
        ensures
            res@ == self@.payload,
            payload_ok(self@.protocol, self@.payload),
    {
        proof {
            use_type_invariant(self);
        }
        self.payload.as_slice()
    }
}

/// Whether a result of the codec is the one that the model gives.
pub open spec fn agrees(
    res: Result<Address, AddressError>,
    model: Result<AddressView, AddressError>,
) -> bool {
    match res {
        Ok(a) => model == Ok::<AddressView, AddressError>(a@),
        Err(e) => model == Err::<AddressView, AddressError>(e),
    }
}

/// The bytes that were decoded, if any, as a mathematical value.
pub open spec fn bytes_view(decoded: Option<Vec<u8>>) -> Option<Seq<u8>> {
    match decoded {
        Some(bytes) => Some(bytes@),
        None => None,
    }
}

/// The number of characters of `raw` that stand before its first `f`; the
/// length of `raw` where it holds no `f`.
pub open spec fn namespace_len(raw: Seq<char>) -> nat
    decreases raw.len(),
{
    if raw.len() == 0 || raw[0] == 'f' {
        0
    } else {
        1 + namespace_len(raw.drop_first())
    }
}

/// `namespace_len` is the first position of an `f`.
pub proof fn lemma_namespace_len(raw: Seq<char>, k: int)
    requires
        0 <= k <= raw.len(),
        forall|j: int| 0 <= j < k ==> raw[j] != 'f',
        k == raw.len() || raw[k] == 'f',
    ensures
        namespace_len(raw) == k,
    decreases raw.len(),
{
    if k > 0 {
        let rest = raw.drop_first();
        assert forall|j: int| 0 <= j < k - 1 implies rest[j] != 'f' by {
            assert(rest[j] == raw[j + 1]);
        }
        lemma_namespace_len(rest, k - 1);
    }
}

/// The namespace of the body of a delegated address and the position at
/// which its sub-address text starts. The body is split at its first `f`; the
/// part before it must be a numeral of at most `MAX_NUMERAL_LEN` digits.
pub open spec fn namespace_spec(raw: Seq<char>) -> Result<(nat, int), AddressError> {
    let k = namespace_len(raw) as int;
    if k >= raw.len() {
        Err(AddressError::InvalidAddress)
    } else if !(is_numeral(raw.take(k)) && k <= MAX_NUMERAL_LEN) {
        Err(AddressError::InvalidAddress)
    } else {
        Ok((numeral_value(raw.take(k)), k + 1))
    }
}

/// The sub-address and the checksum in what the base32 text decoded to: the
/// last `CHECKSUM_LEN` bytes are the checksum, the bytes before them the
/// sub-address, of at most `MAX_SUBADDRESS_LEN` bytes.
pub open spec fn sub_address_spec(decoded: Option<Seq<u8>>) -> Result<
    (Seq<u8>, Seq<u8>),
    AddressError,
> {
    match decoded {
        None => Err(AddressError::InvalidBase32),
        Some(bytes) => if bytes.len() < CHECKSUM_LEN {
            Err(AddressError::InvalidAddress)
        } else if bytes.len() - CHECKSUM_LEN > MAX_SUBADDRESS_LEN {
            Err(AddressError::InvalidAddress)
        } else {
            Ok((bytes.take(bytes.len() - CHECKSUM_LEN), bytes.skip(bytes.len() - CHECKSUM_LEN)))
        },
    }
}

/// The bytes that the checksum of a delegated address is taken of: the
/// protocol tag, the namespace in LEB128, which must be a single byte, and
/// the sub-address.
pub open spec fn checksum_input_spec(namespace: nat, sub: Seq<u8>) -> Result<
    Seq<u8>,
    AddressError,
> {
    if namespace > MAX_NAMESPACE {
        Err(AddressError::InvalidLeb128)
    } else {
        Ok(seq![protocol_tag(Protocol::Delegated)] + leb128(namespace) + sub)
    }
}

/// The delegated address of a namespace and a sub-address, given the
/// checksum that its text carried and the digest that was computed.
pub open spec fn sealed_spec(
    network: Network,
    namespace: nat,
    sub: Seq<u8>,
    sum: Seq<u8>,
    digest: Seq<u8>,
) -> Result<AddressView, AddressError> {
    if sub.len() > MAX_SUBADDRESS_LEN {
        Err(AddressError::InvalidAddress)
    } else if digest != sum {
        Err(AddressError::InvalidChecksum)
    } else {
        Ok(AddressView { network, protocol: Protocol::Delegated, payload: be8(namespace) + sub })
    }
}

/// The address that the bytes of a decoded sub-address text stand for under
/// a namespace.
pub open spec fn delegated_from_bytes_spec(
    network: Network,
    namespace: nat,
    decoded: Option<Seq<u8>>,
) -> Result<AddressView, AddressError> {
    match sub_address_spec(decoded) {
        Err(e) => Err(e),
        Ok((sub, sum)) => match checksum_input_spec(namespace, sub) {
            Err(e) => Err(e),
            Ok(input) => sealed_spec(network, namespace, sub, sum, blake2b_checksum(input)),
        },
    }
}

/// The address that the body of a delegated address text stands for.
pub open spec fn delegated_spec(network: Network, raw: Seq<char>) -> Result<
    AddressView,
    AddressError,
> {
    match namespace_spec(raw) {
        Err(e) => Err(e),
        Ok((namespace, start)) => delegated_from_bytes_spec(
            network,
            namespace,
            base32_decoded(raw.skip(start)),
        ),
    }
}

/// The address that the body of an ID address text stands for: the body must
/// be a numeral of at most `MAX_NUMERAL_LEN` digits, and the payload is its
/// value in LEB128.
pub open spec fn id_spec(network: Network, raw: Seq<char>) -> Result<AddressView, AddressError> {
    if is_numeral(raw) && raw.len() <= MAX_NUMERAL_LEN {
        Ok(AddressView { network, protocol: Protocol::Id, payload: leb128(numeral_value(raw)) })
    } else {
        Err(AddressError::InvalidAddress)
    }
}

/// What a protocol and the body of an address text decode to. The key and
/// actor protocols are not decoded here: they need a lookup.
pub open spec fn body_spec(network: Network, protocol: Protocol, raw: Seq<char>) -> Result<
    AddressView,
    AddressError,
> {
    match protocol {
        Protocol::Id => id_spec(network, raw),
        Protocol::Delegated => delegated_spec(network, raw),
        _ => Err(AddressError::RPCFailure),
    }
}

/// What an address text decodes to.
pub open spec fn decode_spec(text: Seq<char>) -> Result<AddressView, AddressError> {
    if text.len() < 3 {
        Err(AddressError::InvalidAddress)
    } else {
        match network_of(text[0]) {
            None => Err(AddressError::InvalidCointype),
            Some(network) => match protocol_of(text[1]) {
                None => Err(AddressError::InvalidProtocol),
                Some(protocol) => body_spec(network, protocol, text.skip(2)),
            },
        }
    }
}

/// The network that `c` names.
pub fn read_network(c: char) -> (res: Option<Network>)
    ensures
        res == network_of(c),
{
    if c == 'f' {
        Some(Network::Main)
    } else if c == 't' {
        Some(Network::Test)
    } else {
        None
    }
}

/// The protocol that `c` names.
pub fn read_protocol(c: char) -> (res: Option<Protocol>)
    ensures
        res == protocol_of(c),
{
    if c == '0' {
        Some(Protocol::Id)
    } else if c == '1' {
        Some(Protocol::Secp256k1)
    } else if c == '2' {
        Some(Protocol::Actor)
    } else if c == '3' {
        Some(Protocol::Bls)
    } else if c == '4' {
        Some(Protocol::Delegated)
    } else {
        None
    }
}

/// Reads the namespace of the body of a delegated address, and says where
/// its sub-address text starts.
pub fn parse_namespace(raw: &[char]) -> (res: Result<(u64, usize), AddressError>)
    ensures
        match res {
            Ok((namespace, start)) => namespace_spec(raw@) == Ok::<(nat, int), AddressError>(
                (namespace as nat, start as int),
            ) && start <= raw@.len(),
            Err(e) => namespace_spec(raw@) == Err::<(nat, int), AddressError>(e),
        },
{
    let len: usize = raw.len();
    let mut k: usize = 0;
    while k < len && raw[k] != 'f'
        invariant
            k <= len,
            len == raw@.len(),
            forall|j: int| 0 <= j < k ==> raw@[j] != 'f',
        decreases len - k,
    {
        k = k + 1;
    }
    proof {
        lemma_namespace_len(raw@, k as int);
    }
    if k >= len {
        return Err(AddressError::InvalidAddress);
    }
    let digits: &[char] = vstd::slice::slice_subrange(raw, 0, k);
    proof {
        assert(digits@ =~= raw@.take(k as int));
    }
    match parse_numeral(digits) {
        None => Err(AddressError::InvalidAddress),
        Some(namespace) => Ok((namespace, k + 1)),
    }
}

/// Splits what the base32 text decoded to into the sub-address and the
/// checksum. `decoded` is `None` where the text was not base32.
pub fn split_checksum(decoded: Option<Vec<u8>>) -> (res: Result<(Vec<u8>, Vec<u8>), AddressError>)
    ensures
        match res {
            Ok((sub, sum)) => sub_address_spec(bytes_view(decoded)) == Ok::<
                (Seq<u8>, Seq<u8>),
                AddressError,
            >((sub@, sum@)),
            Err(e) => sub_address_spec(bytes_view(decoded)) == Err::<
                (Seq<u8>, Seq<u8>),
                AddressError,
            >(e),
        },
{
    match decoded {
        None => Err(AddressError::InvalidBase32),
        Some(bytes) => {
            let len: usize = bytes.len();
            if len < CHECKSUM_LEN {
                return Err(AddressError::InvalidAddress);
            }
            if len - CHECKSUM_LEN > MAX_SUBADDRESS_LEN {
                return Err(AddressError::InvalidAddress);
            }
            let sub: Vec<u8> = copy_range(bytes.as_slice(), 0, len - CHECKSUM_LEN);
            let sum: Vec<u8> = copy_range(bytes.as_slice(), len - CHECKSUM_LEN, len);
            proof {
                assert(sub@ =~= bytes@.take(len - CHECKSUM_LEN));
                assert(sum@ =~= bytes@.skip(len - CHECKSUM_LEN));
            }
            Ok((sub, sum))
        },
    }
}

/// The bytes of `bytes` from `from` up to `to`.
fn copy_range(bytes: &[u8], from: usize, to: usize) -> (out: Vec<u8>)
    requires
        from <= to <= bytes@.len(),
    ensures
        out@ == bytes@.subrange(from as int, to as int),
{
    let mut out: Vec<u8> = Vec::new();
    let mut i: usize = from;
    while i < to
        invariant
            from <= i <= to,
            to <= bytes@.len(),
            out@ == bytes@.subrange(from as int, i as int),
        decreases to - i,
    {
        out.push(bytes[i]);
        proof {
            assert(out@ =~= bytes@.subrange(from as int, i + 1));
        }
        i = i + 1;
    }
    out
}

/// The bytes that the checksum of a delegated address is taken of, refused
/// with `InvalidLeb128` where the namespace does not fit in one LEB128 byte.
pub fn checksum_input(namespace: u64, sub: &[u8]) -> (res: Result<Vec<u8>, AddressError>)
    ensures
        match res {
            Ok(input) => checksum_input_spec(namespace as nat, sub@) == Ok::<
                Seq<u8>,
                AddressError,
            >(input@),
            Err(e) => checksum_input_spec(namespace as nat, sub@) == Err::<Seq<u8>, AddressError>(
                e,
            ),
        },
{
    if namespace > MAX_NAMESPACE {
        return Err(AddressError::InvalidLeb128);
    }
    let mut input: Vec<u8> = Vec::new();
    input.push(4u8);
    let mut head: Vec<u8> = crate::leb128::encode(namespace);
    input.append(&mut head);
    let mut i: usize = 0;
    let ghost prefix = input@;
    while i < sub.len()
        invariant
            i <= sub@.len(),
            input@ == prefix + sub@.take(i as int),
        decreases sub@.len() - i,
    {
        input.push(sub[i]);
        proof {
            assert(input@ =~= prefix + sub@.take(i + 1));
        }
        i = i + 1;
    }
    proof {
        assert(sub@.take(sub@.len() as int) =~= sub@);
        assert(prefix =~= seq![protocol_tag(Protocol::Delegated)] + leb128(namespace as nat));
    }
    Ok(input)
}

/// The delegated address of a namespace and a sub-address, accepted where
/// the digest computed for it is the checksum that its text carried.
pub fn seal_delegated(
    network: Network,
    namespace: u64,
    sub: &[u8],
    sum: &[u8],
    digest: &[u8],
) -> (res: Result<Address, AddressError>)
    ensures
        agrees(res, sealed_spec(network, namespace as nat, sub@, sum@, digest@)),
{
    if sub.len() > MAX_SUBADDRESS_LEN {
        return Err(AddressError::InvalidAddress);
    }
    if !crate::leb128::same_bytes(digest, sum) {
        return Err(AddressError::InvalidChecksum);
    }
    let mut payload: Vec<u8> = be8_bytes(namespace);
    let mut i: usize = 0;
    while i < sub.len()
        invariant
            i <= sub@.len(),
            payload@ == be8(namespace as nat) + sub@.take(i as int),
        decreases sub@.len() - i,
    {
        payload.push(sub[i]);
        proof {
            assert(payload@ =~= be8(namespace as nat) + sub@.take(i + 1));
        }
        i = i + 1;
    }
    proof {
        assert(sub@.take(sub@.len() as int) =~= sub@);
    }
    Ok(Address { network, protocol: Protocol::Delegated, payload })
}

/// The address that the bytes of a decoded sub-address text stand for under
/// a namespace. `decoded` is `None` where the text was not base32.
pub fn delegated_from_bytes(network: Network, namespace: u64, decoded: Option<Vec<u8>>) -> (res:
    Result<Address, AddressError>)
    ensures
        agrees(
            res,
            delegated_from_bytes_spec(network, namespace as nat, bytes_view(decoded)),
        ),
{
    let (sub, sum) = match split_checksum(decoded) {
        Ok(parts) => parts,
        Err(e) => {
            return Err(e);
        },
    };
    let input: Vec<u8> = match checksum_input(namespace, sub.as_slice()) {
        Ok(input) => input,
        Err(e) => {
            return Err(e);
        },
    };
    let digest: Vec<u8> = checksum(input.as_slice());
    seal_delegated(network, namespace, sub.as_slice(), sum.as_slice(), digest.as_slice())
}

/// Decodes the body of an ID address.
pub fn decode_id(network: Network, raw: &[char]) -> (res: Result<Address, AddressError>)
    ensures
        agrees(res, id_spec(network, raw@)),
{
    match parse_numeral(raw) {
        None => Err(AddressError::InvalidAddress),
        Some(id) => {
            let payload: Vec<u8> = crate::leb128::encode(id);
            Ok(Address { network, protocol: Protocol::Id, payload })
        },
    }
}

/// Decodes the body of a delegated address.
pub fn decode_delegated(network: Network, raw: &[char]) -> (res: Result<Address, AddressError>)
    ensures
        agrees(res, delegated_spec(network, raw@)),
{
    let (namespace, start) = match parse_namespace(raw) {
        Ok(parts) => parts,
        Err(e) => {
            return Err(e);
        },
    };
    let sub_text: &[char] = vstd::slice::slice_subrange(raw, start, raw.len());
    proof {
        assert(sub_text@ =~= raw@.skip(start as int));
    }
    let decoded: Option<Vec<u8>> = base32_decode(sub_text);
    delegated_from_bytes(network, namespace, decoded)
}

/// Decodes the characters of an address text.
pub fn decode_chars(text: &[char]) -> (res: Result<Address, AddressError>)
    ensures
        agrees(res, decode_spec(text@)),
{
    if text.len() < 3 {
        return Err(AddressError::InvalidAddress);
    }
    let network: Network = match read_network(text[0]) {
        Some(network) => network,
        None => {
            return Err(AddressError::InvalidCointype);
        },
    };
    let protocol: Protocol = match read_protocol(text[1]) {
        Some(protocol) => protocol,
        None => {
            return Err(AddressError::InvalidProtocol);
        },
    };
    let raw: &[char] = vstd::slice::slice_subrange(text, 2, text.len());
    proof {
        assert(raw@ =~= text@.skip(2));
    }
    match protocol {
        Protocol::Id => decode_id(network, raw),
        Protocol::Delegated => decode_delegated(network, raw),
        _ => Err(AddressError::RPCFailure),
    }
}

/// Decodes an address text. The result depends on the text alone: the same
/// text always decodes to the same address or to the same error. Addresses
/// of the key and actor protocols are refused with `RPCFailure`: they are
/// decoded by a lookup, which `crate::resolve` drives.
pub fn decode(text: &str) -> (res: Result<Address, AddressError>)
    ensures
        agrees(res, decode_spec(text@)),
{
    let chars: Vec<char> = chars_of(text);
    decode_chars(chars.as_slice())
}

/// The 20-byte form of an address. An ID address gives the prefix byte,
/// eleven zero bytes and the identifier in eight bytes, most significant
/// first. A delegated address gives the last twenty bytes of its payload.
pub open spec fn eth_bytes_spec(a: AddressView) -> Result<Seq<u8>, AddressError> {
    match a.protocol {
        Protocol::Id => Ok(
            seq![ID_MASK_PREFIX] + Seq::new(11, |i: int| 0u8) + be8(septets_value(a.payload)),
        ),
        Protocol::Delegated => if a.payload.len() >= ETH_ADDRESS_LEN {
            Ok(a.payload.skip(a.payload.len() - ETH_ADDRESS_LEN))
        } else {
            Err(AddressError::InvalidAddress)
        },
        _ => Err(AddressError::UnsupportedProtocolConversion),
    }
}

/// The 20-byte form of an address as text: `0x` and forty lower-case
/// hexadecimal digits.
pub open spec fn encode_eth_spec(a: AddressView) -> Result<Seq<char>, AddressError> {
    match eth_bytes_spec(a) {
        Ok(bytes) => Ok(seq!['0', 'x'] + hex_lower(bytes)),
        Err(e) => Err(e),
    }
}

/// The 20-byte form of an address: `InvalidAddress` for a delegated address
/// whose payload is shorter than twenty bytes,
/// `UnsupportedProtocolConversion` for the key and actor protocols.
pub fn eth_bytes(addr: &Address) -> (res: Result<Vec<u8>, AddressError>)
    ensures
        match res {
            Ok(bytes) => eth_bytes_spec(addr@) == Ok::<Seq<u8>, AddressError>(bytes@)
                && bytes@.len() == ETH_ADDRESS_LEN,
            Err(e) => eth_bytes_spec(addr@) == Err::<Seq<u8>, AddressError>(e),
        },
{
    proof {
        use_type_invariant(addr);
    }
    match addr.protocol {
        Protocol::Id => {
            let id: u64 = match crate::leb128::decode(addr.payload.as_slice()) {
                Some(id) => id,
                None => {
                    return Err(AddressError::InvalidLeb128);
                },
            };
            proof {
                crate::leb128::lemma_septets_of_leb128(id as nat);
            }
            let mut out: Vec<u8> = Vec::new();
            out.push(ID_MASK_PREFIX);
            let mut i: usize = 0;
            while i < 11
                invariant
                    i <= 11,
                    out@ == seq![ID_MASK_PREFIX] + Seq::new(i as nat, |k: int| 0u8),
                decreases 11 - i,
            {
                out.push(0u8);
                proof {
                    assert(out@ =~= seq![ID_MASK_PREFIX] + Seq::new((i + 1) as nat, |k: int| 0u8));
                }
                i = i + 1;
            }
            let mut tail: Vec<u8> = be8_bytes(id);
            out.append(&mut tail);
            Ok(out)
        },
        Protocol::Delegated => {
            let len: usize = addr.payload.len();
            if len < ETH_ADDRESS_LEN {
                return Err(AddressError::InvalidAddress);
            }
            let out: Vec<u8> = copy_range(addr.payload.as_slice(), len - ETH_ADDRESS_LEN, len);
            proof {
                assert(out@ =~= addr.payload@.skip(len - ETH_ADDRESS_LEN));
            }
            Ok(out)
        },
        _ => Err(AddressError::UnsupportedProtocolConversion),
    }
}

/// The 20-byte form of an address as text.
pub fn encode_eth(addr: &Address) -> (res: Result<String, AddressError>)
    ensures
        match res {
            Ok(text) => encode_eth_spec(addr@) == Ok::<Seq<char>, AddressError>(text@)
                && text@.len() == 2 + 2 * ETH_ADDRESS_LEN,
            Err(e) => encode_eth_spec(addr@) == Err::<Seq<char>, AddressError>(e),
        },
{
    let bytes: Vec<u8> = match eth_bytes(addr) {
        Ok(bytes) => bytes,
        Err(e) => {
            return Err(e);
        },
    };
    let digits: String = hex_encode(bytes.as_slice());
    let mut text: String = "0x".to_owned();
    proof {
        reveal_strlit("0x");
        assert("0x"@ =~= seq!['0', 'x']);
    }
    text.append(digits.as_str());
    Ok(text)
}

/// Decodes an address text and gives its 20-byte form as text.
pub fn filecoin_to_eth_address(text: &str) -> (res: Result<String, AddressError>)
    ensures
        match res {
            Ok(eth) => decode_spec(text@) is Ok && encode_eth_spec(decode_spec(text@).unwrap())
                == Ok::<Seq<char>, AddressError>(eth@),
            Err(e) => decode_spec(text@) == Err::<AddressView, AddressError>(e) || (decode_spec(
                text@,
            ) is Ok && encode_eth_spec(decode_spec(text@).unwrap()) == Err::<
                Seq<char>,
                AddressError,
            >(e)),
        },
{
    match decode(text) {
        Ok(addr) => encode_eth(&addr),
        Err(e) => Err(e),
    }
}

/// Every ID address text of a numeral of at most `MAX_NUMERAL_LEN` digits
/// decodes, whatever its network, and its 20-byte form is the prefix byte,
/// eleven zero bytes and the number in the last eight bytes.
pub proof fn lemma_id_round_trip(tag: char, digits: Seq<char>)
    requires
        network_of(tag) is Some,
        is_numeral(digits),
        digits.len() <= MAX_NUMERAL_LEN,
    ensures
        numeral_value(digits) <= u64::MAX,
        decode_spec(seq![tag, '0'] + digits) == Ok::<AddressView, AddressError>(
            AddressView {
                network: network_of(tag).unwrap(),
                protocol: Protocol::Id,
                payload: leb128(numeral_value(digits)),
            },
        ),
        encode_eth_spec(decode_spec(seq![tag, '0'] + digits).unwrap()) == Ok::<
            Seq<char>,
            AddressError,
        >(
            seq!['0', 'x'] + hex_lower(
                seq![ID_MASK_PREFIX] + Seq::new(11, |i: int| 0u8) + be8(numeral_value(digits)),
            ),
        ),
{
    let text = seq![tag, '0'] + digits;
    crate::text::lemma_numeral_fits(digits);
    crate::leb128::lemma_septets_of_leb128(numeral_value(digits));
    assert(text.skip(2) =~= digits);
    assert(text[0] == tag && text[1] == '0');
}

/// The 20-byte form of an accepted delegated address with a sub-address of
/// twenty bytes is that sub-address.
pub proof fn lemma_delegated_round_trip(
    network: Network,
    namespace: nat,
    sub: Seq<u8>,
    sum: Seq<u8>,
    digest: Seq<u8>,
)
    requires
        sealed_spec(network, namespace, sub, sum, digest) is Ok,
        sub.len() == ETH_ADDRESS_LEN,
    ensures
        eth_bytes_spec(sealed_spec(network, namespace, sub, sum, digest).unwrap()) == Ok::<
            Seq<u8>,
            AddressError,
        >(sub),
{
    let payload = be8(namespace) + sub;
    assert(payload.skip(payload.len() - ETH_ADDRESS_LEN) =~= sub);
}

/// An accepted delegated address carries the checksum of its contents: the
/// last four decoded bytes are the digest of the protocol tag, the namespace
/// byte and the sub-address.
pub proof fn lemma_accepted_checksum(network: Network, namespace: nat, decoded: Seq<u8>)
    requires
        delegated_from_bytes_spec(network, namespace, Some(decoded)) is Ok,
    ensures
        decoded.len() >= CHECKSUM_LEN,
        namespace <= MAX_NAMESPACE,
        decoded.skip(decoded.len() - CHECKSUM_LEN) == blake2b_checksum(
            seq![protocol_tag(Protocol::Delegated)] + leb128(namespace) + decoded.take(
                decoded.len() - CHECKSUM_LEN,
            ),
        ),
{
}

/// Where a delegated address is accepted, the same sub-address under any
/// other checksum is refused with `InvalidChecksum`.
pub proof fn lemma_altered_checksum_refused(
    network: Network,
    namespace: nat,
    accepted: Seq<u8>,
    altered: Seq<u8>,
)
    requires
        delegated_from_bytes_spec(network, namespace, Some(accepted)) is Ok,
        altered.len() == accepted.len(),
        altered.take(altered.len() - CHECKSUM_LEN) == accepted.take(
            accepted.len() - CHECKSUM_LEN,
        ),
        altered != accepted,
    ensures
        delegated_from_bytes_spec(network, namespace, Some(altered)) == Err::<
            AddressView,
            AddressError,
        >(AddressError::InvalidChecksum),
{
    let cut = accepted.len() - CHECKSUM_LEN;
    if altered.skip(cut) == accepted.skip(cut) {
        assert(altered =~= altered.take(cut) + altered.skip(cut));
        assert(accepted =~= accepted.take(cut) + accepted.skip(cut));
    }
}

/// Where the body of a delegated address text is accepted, a body with the
/// same namespace and another sub-address text is refused with
/// `InvalidBase32` if that text is not base32, and with `InvalidChecksum` if
/// it decodes to the same sub-address under another checksum.
pub proof fn lemma_altered_text_refused(network: Network, accepted: Seq<char>, altered: Seq<char>)
    requires
        delegated_spec(network, accepted) is Ok,
        namespace_spec(altered) is Ok,
        namespace_spec(altered).unwrap().0 == namespace_spec(accepted).unwrap().0,
    ensures
        ({
            let before = base32_decoded(accepted.skip(namespace_spec(accepted).unwrap().1));
            let after = base32_decoded(altered.skip(namespace_spec(altered).unwrap().1));
            &&& before is Some
            &&& after is None ==> delegated_spec(network, altered) == Err::<
                AddressView,
                AddressError,
            >(AddressError::InvalidBase32)
            &&& (after is Some && after.unwrap().len() == before.unwrap().len()
                && after.unwrap().take(after.unwrap().len() - CHECKSUM_LEN)
                == before.unwrap().take(before.unwrap().len() - CHECKSUM_LEN) && after.unwrap()
                != before.unwrap()) ==> delegated_spec(network, altered) == Err::<
                AddressView,
                AddressError,
            >(AddressError::InvalidChecksum)
        }),
{
    let namespace = namespace_spec(accepted).unwrap().0;
    let before = base32_decoded(accepted.skip(namespace_spec(accepted).unwrap().1));
    let after = base32_decoded(altered.skip(namespace_spec(altered).unwrap().1));
    if after is Some && after.unwrap().len() == before.unwrap().len() && after.unwrap().take(
        after.unwrap().len() - CHECKSUM_LEN,
    ) == before.unwrap().take(before.unwrap().len() - CHECKSUM_LEN) && after.unwrap()
        != before.unwrap() {
        lemma_altered_checksum_refused(network, namespace, before.unwrap(), after.unwrap());
    }
}

/// Whatever decodes, decodes to an address whose payload satisfies
/// `payload_ok` for its protocol.
pub proof fn lemma_decoded_payload_ok(text: Seq<char>)
    requires
        decode_spec(text) is Ok,
    ensures
        payload_ok(decode_spec(text).unwrap().protocol, decode_spec(text).unwrap().payload),
{
    let raw = text.skip(2);
    match protocol_of(text[1]) {
        Some(Protocol::Id) => {
            crate::text::lemma_numeral_fits(raw);
            let n = numeral_value(raw) as u64;
            assert(decode_spec(text).unwrap().payload == leb128(n as nat));
        },
        _ => {},
    }
}

/// Two results of decoding the same text are the same address or the same
/// error.
pub proof fn lemma_decode_idempotent(
    text: Seq<char>,
    first: Result<Address, AddressError>,
    second: Result<Address, AddressError>,
)
    requires
        agrees(first, decode_spec(text)),
        agrees(second, decode_spec(text)),
    ensures
        match (first, second) {
            (Ok(a), Ok(b)) => a@ == b@,
            (Err(e), Err(f)) => e == f,
            _ => false,
        },
{
}

/// The number that the first eight bytes of `bytes` spell, most significant
/// first.
pub open spec fn namespace_value(bytes: Seq<u8>) -> nat {
    (bytes[0] as nat * 0x100_0000_0000_0000 + bytes[1] as nat * 0x1_0000_0000_0000 + bytes[2] as nat
        * 0x100_0000_0000 + bytes[3] as nat * 0x1_0000_0000 + bytes[4] as nat * 0x100_0000
        + bytes[5] as nat * 0x1_0000 + bytes[6] as nat * 0x100 + bytes[7] as nat) as nat
}

/// The eight bytes of a 64-bit number spell that number.
pub proof fn lemma_namespace_of_be8(n: u64, rest: Seq<u8>)
    ensures
        namespace_value(be8(n as nat) + rest) == n,
{
    let b = be8(n as nat) + rest;
    let v = n as int;
    let q1 = v / 0x100;
    let q2 = v / 0x1_0000;
    let q3 = v / 0x100_0000;
    let q4 = v / 0x1_0000_0000;
    let q5 = v / 0x100_0000_0000;
    let q6 = v / 0x1_0000_0000_0000;
    let q7 = v / 0x100_0000_0000_0000;
    assert(q2 == q1 / 256);
    assert(q3 == q2 / 256);
    assert(q4 == q3 / 256);
    assert(q5 == q4 / 256);
    assert(q6 == q5 / 256);
    assert(q7 == q6 / 256);
    assert(q7 < 256);
    assert(b[7] == v % 256 && b[6] == q1 % 256 && b[5] == q2 % 256 && b[4] == q3 % 256);
    assert(b[3] == q4 % 256 && b[2] == q5 % 256 && b[1] == q6 % 256 && b[0] == q7 % 256);
    assert(v == q1 * 256 + v % 256);
    assert(q1 == q2 * 256 + q1 % 256);
    assert(q2 == q3 * 256 + q2 % 256);
    assert(q3 == q4 * 256 + q3 % 256);
    assert(q4 == q5 * 256 + q4 % 256);
    assert(q5 == q6 * 256 + q5 % 256);
    assert(q6 == q7 * 256 + q6 % 256);
}

/// The binary form of an address, as actors and contracts take it: the
/// protocol tag and the payload, where the namespace of a delegated address
/// is written in LEB128 in place of its eight bytes.
pub open spec fn bytes_spec(a: AddressView) -> Seq<u8> {
    match a.protocol {
        Protocol::Delegated => seq![protocol_tag(Protocol::Delegated)] + leb128(
            namespace_value(a.payload),
        ) + a.payload.skip(NAMESPACE_LEN as int),
        _ => seq![protocol_tag(a.protocol)] + a.payload,
    }
}

/// The number that the first eight bytes of `bytes` spell, most significant
/// first.
fn namespace_of(bytes: &[u8]) -> (n: u64)
    requires
        bytes@.len() >= NAMESPACE_LEN,
    ensures
        n == namespace_value(bytes@),
{
    bytes[0] as u64 * 0x100_0000_0000_0000 + bytes[1] as u64 * 0x1_0000_0000_0000 + bytes[2] as u64
        * 0x100_0000_0000 + bytes[3] as u64 * 0x1_0000_0000 + bytes[4] as u64 * 0x100_0000
        + bytes[5] as u64 * 0x1_0000 + bytes[6] as u64 * 0x100 + bytes[7] as u64
}

impl Address {
    /// The binary form of the address.
    pub fn to_bytes(&self) -> (bytes: Vec<u8>)
        ensures
            bytes@ == bytes_spec(self@),
    {
        proof {
            use_type_invariant(self);
        }
        let mut bytes: Vec<u8> = Vec::new();
        let from: usize = match self.protocol {
            Protocol::Id => {
                bytes.push(0u8);
                0
            },
            Protocol::Secp256k1 => {
                bytes.push(1u8);
                0
            },
            Protocol::Actor => {
                bytes.push(2u8);
                0
            },
            Protocol::Bls => {
                bytes.push(3u8);
                0
            },
            Protocol::Delegated => {
                bytes.push(4u8);
                let mut namespace: Vec<u8> = crate::leb128::encode(
                    namespace_of(self.payload.as_slice()),
                );
                bytes.append(&mut namespace);
                NAMESPACE_LEN
            },
        };
        let ghost head = bytes@;
        let mut i: usize = from;
        while i < self.payload.len()
            invariant
                from <= i <= self.payload@.len(),
                bytes@ == head + self.payload@.subrange(from as int, i as int),
            decreases self.payload@.len() - i,
        {
            bytes.push(self.payload[i]);
            proof {
                assert(bytes@ =~= head + self.payload@.subrange(from as int, i + 1));
            }
            i = i + 1;
        }
        proof {
            assert(self.payload@.subrange(from as int, self.payload@.len() as int)
                =~= self.payload@.skip(from as int));
            assert(self.payload@.skip(0) =~= self.payload@);
        }
        bytes
    }
}

/// The checksum of an accepted delegated address is taken of its binary
/// form.
pub proof fn lemma_checksum_of_binary_form(
    network: Network,
    namespace: u64,
    sub: Seq<u8>,
    sum: Seq<u8>,
    digest: Seq<u8>,
)
    requires
        sealed_spec(network, namespace as nat, sub, sum, digest) is Ok,
        namespace <= MAX_NAMESPACE,
    ensures
        checksum_input_spec(namespace as nat, sub) == Ok::<Seq<u8>, AddressError>(
            bytes_spec(sealed_spec(network, namespace as nat, sub, sum, digest).unwrap()),
        ),
{
    let payload = be8(namespace as nat) + sub;
    lemma_namespace_of_be8(namespace, sub);
    assert(payload.skip(NAMESPACE_LEN as int) =~= sub);
}

} // verus!
