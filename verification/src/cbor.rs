//! CBOR, as far as the two ends of a connection describe themselves to each other with it.
//!
//! The functions that write CBOR say which bytes they give. The functions that read it give a name
//! to what they make of arbitrary bytes, and say that they read back what was written.

use crate::bytes::{
    big_endian, big_endian_value, byte_capacity, law_big_endian_digits, lemma_big_endian_len,
    lemma_big_endian_round_trip,
};
use crate::ipc::stream_socket::address::SocketAddress;
use remote_trait_object::raw_exchange::HandleToExchange;
use vstd::arithmetic::power::pow;
use vstd::prelude::*;
use vstd::utf8::encode_utf8;

verus! {

/// The error of `serde_cbor`.
#[verifier::external_type_specification]
#[verifier::external_body]
pub struct ExError(serde_cbor::Error);

/// A handle to an exported service.
#[verifier::external_type_specification]
#[verifier::external_body]
pub struct ExHandleToExchange(remote_trait_object::raw_exchange::HandleToExchange);

/// The first bytes of a data item: its major type and a number, in as few bytes as possible.
pub open spec fn cbor_head(major: nat, n: nat) -> Seq<u8> {
    let first = (32 * major) as nat;
    if n < 24 {
        seq![(first + n) as u8]
    } else if n < 0x100 {
        seq![(first + 24) as u8] + big_endian(n, 1)
    } else if n < 0x1_0000 {
        seq![(first + 25) as u8] + big_endian(n, 2)
    } else if n < 0x1_0000_0000 {
        seq![(first + 26) as u8] + big_endian(n, 4)
    } else {
        seq![(first + 27) as u8] + big_endian(n, 8)
    }
}

/// An unsigned number.
pub open spec fn cbor_uint(n: nat) -> Seq<u8> {
    cbor_head(0, n)
}

/// Different numbers are written differently.
pub proof fn lemma_cbor_uint_is_unique(a: u32, b: u32)
    requires
        cbor_uint(a as nat) == cbor_uint(b as nat),
    ensures
        a == b,
{
    let (x, y) = (a as nat, b as nat);
    lemma_cbor_uint_value(x);
    lemma_cbor_uint_value(y);
}

/// The first byte of a small number is the number; behind that of a larger one stands the number,
/// and the first byte tells in how many bytes.
proof fn lemma_cbor_uint_value(n: nat)
    requires
        n < 0x1_0000_0000,
    ensures
        cbor_uint(n).len() > 0,
        n < 24 ==> cbor_uint(n)[0] == n,
        n >= 24 ==> cbor_uint(n)[0] >= 24 && big_endian_value(cbor_uint(n).skip(1)) == n,
{
    reveal_with_fuel(byte_capacity, 5);
    lemma_big_endian_round_trip(n % 0x100, 1);
    lemma_big_endian_round_trip(n % 0x1_0000, 2);
    lemma_big_endian_round_trip(n, 4);
    if n >= 24 {
        let len: nat = if n < 0x100 {
            1
        } else if n < 0x1_0000 {
            2
        } else {
            4
        };
        assert(cbor_uint(n).skip(1) =~= big_endian(n, len));
    }
}

/// A text.
pub open spec fn cbor_text(text: Seq<char>) -> Seq<u8> {
    cbor_head(3, encode_utf8(text).len()) + encode_utf8(text)
}

/// A truth value.
pub open spec fn cbor_bool(b: bool) -> Seq<u8> {
    if b {
        seq![0xf5u8]
    } else {
        seq![0xf4u8]
    }
}

/// A pair of two data items.
pub open spec fn cbor_pair(first: Seq<u8>, second: Seq<u8>) -> Seq<u8> {
    cbor_head(4, 2) + first + second
}

/// Two ports.
pub open spec fn cbor_ports(local: u16, remote: u16) -> Seq<u8> {
    cbor_pair(cbor_uint(local as nat), cbor_uint(remote as nat))
}

/// The numbers of a list of octets, one after the other.
pub open spec fn cbor_octets(octets: Seq<u8>) -> Seq<u8>
    decreases octets.len(),
{
    if octets.len() == 0 {
        Seq::empty()
    } else {
        cbor_octets(octets.drop_last()) + cbor_uint(octets.last() as nat)
    }
}

/// A network address: a table with one entry, from the family to the octets and the port.
pub open spec fn cbor_endpoint(family: Seq<char>, octets: Seq<u8>, port: u16) -> Seq<u8> {
    cbor_head(5, 1) + cbor_text(family) + cbor_pair(
        cbor_head(4, octets.len()) + cbor_octets(octets),
        cbor_uint(port as nat),
    )
}

/// The network address of a socket.
pub open spec fn cbor_address(address: SocketAddress) -> Seq<u8> {
    match address {
        SocketAddress::V4 { ip, port } => cbor_endpoint("V4"@, big_endian(ip as nat, 4), port),
        SocketAddress::V6 { ip, port } => cbor_endpoint("V6"@, big_endian(ip as nat, 16), port),
    }
}

/// What bytes stand for when they are read as a text.
pub uninterp spec fn decoded_text(data: Seq<u8>) -> Option<Seq<char>>;

/// What bytes stand for when they are read as two ports.
pub uninterp spec fn decoded_ports(data: Seq<u8>) -> Option<(u16, u16)>;

/// What bytes stand for when they are read as a truth value and a path.
pub uninterp spec fn decoded_path(data: Seq<u8>) -> Option<(bool, Seq<char>)>;

/// What bytes stand for when they are read as a truth value and a network address.
pub uninterp spec fn decoded_address(data: Seq<u8>) -> Option<(bool, SocketAddress)>;

/// What bytes stand for when they are read as the number of a handle.
pub uninterp spec fn decoded_handle(data: Seq<u8>) -> Option<u32>;

/// The number of a handle.
pub uninterp spec fn handle_number(handle: HandleToExchange) -> u32;

/// `serde_cbor::to_vec` of a text.
#[verifier::external_body]
pub(crate) fn text_to_cbor(text: &str) -> (result: Result<Vec<u8>, serde_cbor::Error>)
    ensures
        result is Ok,
        result->Ok_0@ == cbor_text(text@),
{
    serde_cbor::to_vec(&text)
}

/// `serde_cbor::from_slice` into a text: it reads back what `serde_cbor::to_vec` wrote.
#[verifier::external_body]
pub(crate) fn text_from_cbor(data: &[u8]) -> (result: Result<String, serde_cbor::Error>)
    ensures
        result is Ok <==> decoded_text(data@) is Some,
        result is Ok ==> decoded_text(data@) == Some(result->Ok_0@),
        forall|t: Seq<char>| data@ == #[trigger] cbor_text(t) ==> result is Ok && result->Ok_0@ == t,
{
    serde_cbor::from_slice(data)
}

/// `serde_cbor::to_vec` of two ports.
#[verifier::external_body]
pub(crate) fn ports_to_cbor(local: u16, remote: u16) -> (result: Result<Vec<u8>, serde_cbor::Error>)
    ensures
        result is Ok,
        result->Ok_0@ == cbor_ports(local, remote),
{
    serde_cbor::to_vec(&(local, remote))
}

/// `serde_cbor::from_slice` into two ports: it reads back what `serde_cbor::to_vec` wrote.
#[verifier::external_body]
pub(crate) fn ports_from_cbor(data: &[u8]) -> (result: Result<(u16, u16), serde_cbor::Error>)
    ensures
        result is Ok <==> decoded_ports(data@) is Some,
        result is Ok ==> decoded_ports(data@) == Some(result->Ok_0),
        forall|local: u16, remote: u16|
            data@ == #[trigger] cbor_ports(local, remote) ==> result is Ok && result->Ok_0 == (
                local,
                remote,
            ),
{
    serde_cbor::from_slice(data)
}

/// `serde_cbor::to_vec` of a truth value and a path.
#[verifier::external_body]
pub(crate) fn path_to_cbor(server: bool, path: &str) -> (result: Result<
    Vec<u8>,
    serde_cbor::Error,
>)
    ensures
        result is Ok,
        result->Ok_0@ == cbor_pair(cbor_bool(server), cbor_text(path@)),
{
    serde_cbor::to_vec(&(server, path))
}

/// `serde_cbor::from_slice` into a truth value and a path: it reads back what
/// `serde_cbor::to_vec` wrote.
#[verifier::external_body]
pub(crate) fn path_from_cbor(data: &[u8]) -> (result: Result<(bool, String), serde_cbor::Error>)
    ensures
        result is Ok <==> decoded_path(data@) is Some,
        result is Ok ==> decoded_path(data@) == Some((result->Ok_0.0, result->Ok_0.1@)),
        forall|s: bool, p: Seq<char>|
            data@ == cbor_pair(#[trigger] cbor_bool(s), #[trigger] cbor_text(p)) ==> result is Ok
                && result->Ok_0.0 == s && result->Ok_0.1@ == p,
{
    serde_cbor::from_slice(data)
}

/// `serde_cbor::to_vec` of a truth value and a network address.
#[verifier::external_body]
pub(crate) fn address_to_cbor(server: bool, address: SocketAddress) -> (result: Result<
    Vec<u8>,
    serde_cbor::Error,
>)
    ensures
        result is Ok,
        result->Ok_0@ == cbor_pair(cbor_bool(server), cbor_address(address)),
{
    let address: core::net::SocketAddr = match address {
        SocketAddress::V4 { ip, port } => (core::net::Ipv4Addr::from(ip), port).into(),
        SocketAddress::V6 { ip, port } => (core::net::Ipv6Addr::from(ip), port).into(),
    };
    serde_cbor::to_vec(&(server, address))
}

/// `serde_cbor::from_slice` into a truth value and a network address: it reads back what
/// `serde_cbor::to_vec` wrote.
#[verifier::external_body]
pub(crate) fn address_from_cbor(data: &[u8]) -> (result: Result<
    (bool, SocketAddress),
    serde_cbor::Error,
>)
    ensures
        result is Ok <==> decoded_address(data@) is Some,
        result is Ok ==> decoded_address(data@) == Some(result->Ok_0),
        forall|s: bool, a: SocketAddress|
            data@ == cbor_pair(#[trigger] cbor_bool(s), #[trigger] cbor_address(a)) ==> result is Ok
                && result->Ok_0 == (s, a),
{
    let (server, address): (bool, core::net::SocketAddr) = serde_cbor::from_slice(data)?;
    let address = match address {
        core::net::SocketAddr::V4(a) => SocketAddress::V4 { ip: (*a.ip()).into(), port: a.port() },
        core::net::SocketAddr::V6(a) => SocketAddress::V6 { ip: (*a.ip()).into(), port: a.port() },
    };
    Ok((server, address))
}

/// `serde_cbor::to_vec` of a handle, which is written as its number.
#[verifier::external_body]
pub(crate) fn handle_to_cbor(handle: &HandleToExchange) -> (result: Result<
    Vec<u8>,
    serde_cbor::Error,
>)
    ensures
        result is Ok,
        result->Ok_0@ == cbor_uint(handle_number(*handle) as nat),
{
    serde_cbor::to_vec(handle)
}

/// `serde_cbor::from_slice` into a handle: it reads back what `serde_cbor::to_vec` wrote.
#[verifier::external_body]
pub(crate) fn handle_from_cbor(data: &[u8]) -> (result: Result<
    HandleToExchange,
    serde_cbor::Error,
>)
    ensures
        result is Ok <==> decoded_handle(data@) is Some,
        result is Ok ==> decoded_handle(data@) == Some(handle_number(result->Ok_0)),
        forall|n: u32|
            data@ == #[trigger] cbor_uint(n as nat) ==> result is Ok && handle_number(result->Ok_0)
                == n,
{
    serde_cbor::from_slice(data)
}

/// The head of a data item: the major type is in the upper three bits of the first byte. A number
/// below 24 is in the lower five; for a larger one these say in how many bytes it follows, as few
/// of 1, 2, 4 and 8 as it needs, the most significant first.
pub proof fn law_head_layout(major: nat, n: nat)
    requires
        major < 8,
        n <= u64::MAX,
    ensures
        ({
            let head = cbor_head(major, n);
            let len: nat = if n < 24 {
                0
            } else if n < 256 {
                1
            } else if n < 65536 {
                2
            } else if n < 0x1_0000_0000 {
                4
            } else {
                8
            };
            &&& head.len() == 1 + len
            &&& head[0] as int / 32 == major
            &&& head[0] as int % 32 == if n < 24 {
                n as int
            } else if n < 256 {
                24
            } else if n < 65536 {
                25
            } else if n < 0x1_0000_0000 {
                26
            } else {
                27
            }
            &&& n >= 24 ==> big_endian_value(head.skip(1)) == n
        }),
{
    let head = cbor_head(major, n);
    if n >= 24 {
        let len: nat = if n < 256 {
            1
        } else if n < 65536 {
            2
        } else if n < 0x1_0000_0000 {
            4
        } else {
            8
        };
        reveal_with_fuel(byte_capacity, 9);
        lemma_big_endian_len(n, len);
        lemma_big_endian_round_trip(n, len);
        assert(head.skip(1) =~= big_endian(n, len));
    }
}

/// How data items are put together: a number is a head of type 0; a text is a head of type 3 with
/// its length in UTF-8, and then the UTF-8; and a pair is a head of type 4 with the number 2, and
/// then the two items.
pub proof fn law_item_layout(n: nat, text: Seq<char>, first: Seq<u8>, second: Seq<u8>)
    ensures
        cbor_uint(n) == cbor_head(0, n),
        cbor_text(text) == cbor_head(3, encode_utf8(text).len()) + encode_utf8(text),
        cbor_bool(true) == seq![0xf5u8],
        cbor_bool(false) == seq![0xf4u8],
        cbor_pair(first, second) == seq![0x82u8] + first + second,
{
    assert(cbor_pair(first, second) =~= seq![0x82u8] + first + second);
}

/// Octets are written one behind the other, each as a number.
pub proof fn law_octets_layout(octets: Seq<u8>, octet: u8)
    ensures
        cbor_octets(Seq::empty()).len() == 0,
        cbor_octets(octets.push(octet)) == cbor_octets(octets) + cbor_uint(octet as nat),
{
    assert(octets.push(octet).drop_last() =~= octets);
}

/// A network address is a table with one entry, from the name of the family to the pair of the
/// octets of the address, the most significant first, and the port.
pub proof fn law_address_layout(address: SocketAddress, octets: Seq<u8>)
    requires
        octets.len() == if address is V4 {
            4nat
        } else {
            16nat
        },
        forall|i: int|
            0 <= i < octets.len() ==> #[trigger] octets[i] as int == (match address {
                SocketAddress::V4 { ip, .. } => ip as int,
                SocketAddress::V6 { ip, .. } => ip as int,
            } / pow(256, (octets.len() - 1 - i) as nat)) % 256,
    ensures
        cbor_address(address) == seq![0xa1u8] + cbor_text(
            if address is V4 {
                "V4"@
            } else {
                "V6"@
            },
        ) + (seq![0x82u8] + (cbor_head(4, octets.len()) + cbor_octets(octets)) + cbor_uint(
            match address {
                SocketAddress::V4 { port, .. } => port as nat,
                SocketAddress::V6 { port, .. } => port as nat,
            },
        )),
{
    let (n, len): (nat, nat) = match address {
        SocketAddress::V4 { ip, .. } => (ip as nat, 4),
        SocketAddress::V6 { ip, .. } => (ip as nat, 16),
    };
    lemma_big_endian_len(n, len);
    assert forall|i: int| 0 <= i < octets.len() implies octets[i] == #[trigger] big_endian(
        n,
        len,
    )[i] by {
        law_big_endian_digits(n, len, i);
    }
    assert(octets =~= big_endian(n, len));
    assert(cbor_head(5, 1) =~= seq![0xa1u8]);
    assert(cbor_head(4, 2) =~= seq![0x82u8]);
}

} // verus!
