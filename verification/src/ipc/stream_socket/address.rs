//! The addresses at which sockets meet.

use crate::cbor::{
    address_from_cbor, address_to_cbor, cbor_address, cbor_bool, cbor_pair, cbor_text,
    decoded_address, decoded_path, path_from_cbor, path_to_cbor,
};
use vstd::prelude::*;
use vstd::utf8::encode_utf8;

verus! {

/// An address at which a server and a client meet.
pub trait Address: Sized + View {
    /// What a new address is made from.
    type Seed;

    /// The address that is made from a seed.
    spec fn generated(seed: Self::Seed) -> Self::V;

    /// The bytes that describe an end of a connection through an address to that end.
    spec fn description(is_server: bool, address: Self::V) -> Seq<u8>;

    /// The role and the address that bytes describe.
    spec fn described(data: Seq<u8>) -> Option<(bool, Self::V)>;

    /// Makes a new address.
    fn generate(seed: Self::Seed) -> (address: Self)
        ensures
            address@ == Self::generated(seed),
    ;

    /// Describes an end of a connection.
    fn describe(is_server: bool, address: &Self) -> (data: Vec<u8>)
        ensures
            data@ == Self::description(is_server, address@),
    ;

    /// Reads a description, if it is one: what `describe` was given comes back.
    fn recognize(data: &[u8]) -> (end: Option<(bool, Self)>)
        ensures
            match end {
                Some((is_server, address)) => Self::described(data@) == Some((is_server, address@)),
                None => Self::described(data@) is None,
            },
            forall|is_server: bool, a: Self::V|
                data@ == #[trigger] Self::description(is_server, a) ==> (end matches Some(e) && e.0
                    == is_server && e.1@ == a),
    ;
}

/// The path of a Unix domain socket.
#[derive(Clone, Debug)]
pub struct PathAddress {
    pub path: String,
}

impl View for PathAddress {
    type V = Seq<char>;

    open spec fn view(&self) -> Seq<char> {
        self.path@
    }
}

impl Address for PathAddress {
    /// A directory, and a name that is not in use there.
    type Seed = (String, String);

    open spec fn generated(seed: (String, String)) -> Seq<char> {
        seed.0@ + "/"@ + seed.1@
    }

    open spec fn description(is_server: bool, address: Seq<char>) -> Seq<u8> {
        cbor_pair(cbor_bool(is_server), cbor_text(address))
    }

    open spec fn described(data: Seq<u8>) -> Option<(bool, Seq<char>)> {
        decoded_path(data)
    }

    fn generate(seed: (String, String)) -> (address: PathAddress) {
        let (directory, name) = seed;
        let path = directory.concat("/").concat(name.as_str());
        PathAddress { path }
    }

    fn describe(is_server: bool, address: &PathAddress) -> (data: Vec<u8>) {
        path_to_cbor(is_server, address.path.as_str()).unwrap()
    }

    fn recognize(data: &[u8]) -> (end: Option<(bool, PathAddress)>) {
        match path_from_cbor(data) {
            Ok((is_server, path)) => Some((is_server, PathAddress { path })),
            Err(_) => None,
        }
    }
}

/// The address of an Internet socket.
#[derive(Clone, Copy, Debug, PartialEq, Eq, Structural)]
pub enum SocketAddress {
    V4 { ip: u32, port: u16 },
    V6 { ip: u128, port: u16 },
}

/// 127.0.0.1.
pub const LOOPBACK: u32 = 0x7f00_0001;

impl View for SocketAddress {
    type V = SocketAddress;

    open spec fn view(&self) -> SocketAddress {
        *self
    }
}

impl SocketAddress {
    /// A port of this machine.
    pub open spec fn loopback_spec(port: u16) -> SocketAddress {
        SocketAddress::V4 { ip: LOOPBACK, port }
    }

    /// A port of this machine.
    pub fn loopback(port: u16) -> (address: SocketAddress)
        ensures
            address == SocketAddress::loopback_spec(port),
    {
        SocketAddress::V4 { ip: LOOPBACK, port }
    }
}

impl Address for SocketAddress {
    /// A port that is not in use.
    type Seed = u16;

    open spec fn generated(seed: u16) -> SocketAddress {
        SocketAddress::loopback_spec(seed)
    }

    open spec fn description(is_server: bool, address: SocketAddress) -> Seq<u8> {
        cbor_pair(cbor_bool(is_server), cbor_address(address))
    }

    open spec fn described(data: Seq<u8>) -> Option<(bool, SocketAddress)> {
        decoded_address(data)
    }

    fn generate(seed: u16) -> (address: SocketAddress) {
        SocketAddress::loopback(seed)
    }

    fn describe(is_server: bool, address: &SocketAddress) -> (data: Vec<u8>) {
        address_to_cbor(is_server, *address).unwrap()
    }

    fn recognize(data: &[u8]) -> (end: Option<(bool, SocketAddress)>) {
        match address_from_cbor(data) {
            Ok(end) => Some(end),
            Err(_) => None,
        }
    }
}

/// A generated path is the directory, a slash and the name, each as it is.
pub proof fn law_generated_path(directory: String, name: String)
    ensures
        ({
            let path = PathAddress::generated((directory, name));
            let n = directory@.len() as int;
            &&& path.len() == directory@.len() + 1 + name@.len()
            &&& path.take(n) == directory@
            &&& path[n] == '/'
            &&& path.skip(n + 1) == name@
        }),
{
    reveal_strlit("/");
    let path = PathAddress::generated((directory, name));
    let n = directory@.len() as int;
    assert(path.take(n) =~= directory@);
    assert(path.skip(n + 1) =~= name@);
}

/// In one directory, different names give different addresses.
pub proof fn law_generated_paths_differ(directory: String, name: String, other: String)
    requires
        name@ != other@,
    ensures
        PathAddress::generated((directory, name)) != PathAddress::generated((directory, other)),
{
    law_generated_path(directory, name);
    law_generated_path(directory, other);
}

/// The address of a port of this machine is the IPv4 address 127.0.0.1 with this very port, and so
/// is an address that is generated for it; different ports have different addresses.
pub proof fn law_loopback_addresses(port: u16, other: u16)
    ensures
        SocketAddress::loopback_spec(port) == (SocketAddress::V4 { ip: 0x7f00_0001, port }),
        SocketAddress::generated(port) == (SocketAddress::V4 { ip: 0x7f00_0001, port }),
        port != other ==> SocketAddress::loopback_spec(port) != SocketAddress::loopback_spec(other),
{
}

/// The description of an end is a pair: whether the end is the server, and then the address, which
/// for a path stands there as it is, in UTF-8. The two ends of a connection have descriptions that
/// differ in nothing but the role.
pub proof fn law_path_description(is_server: bool, path: Seq<char>)
    ensures
        ({
            let data = PathAddress::description(is_server, path);
            let text = encode_utf8(path);
            &&& data.len() >= 3 + text.len()
            &&& data[0] == 0x82
            &&& data[1] == if is_server {
                0xf5u8
            } else {
                0xf4u8
            }
            &&& data.skip(data.len() - text.len()) == text
            &&& data.skip(2) == PathAddress::description(!is_server, path).skip(2)
            &&& data != PathAddress::description(!is_server, path)
        }),
{
    let data = PathAddress::description(is_server, path);
    let text = encode_utf8(path);
    assert(cbor_text(path).len() >= 1 + text.len());
    assert(data.skip(2) =~= cbor_text(path));
    assert(PathAddress::description(!is_server, path).skip(2) =~= cbor_text(path));
    assert(data.skip(data.len() - text.len()) =~= text);
}

/// The description of an end is a pair: whether the end is the server, and then the address. The two
/// ends of a connection have descriptions that differ in nothing but the role.
pub proof fn law_socket_description(is_server: bool, address: SocketAddress)
    ensures
        ({
            let data = SocketAddress::description(is_server, address);
            &&& data.len() > 2
            &&& data[0] == 0x82
            &&& data[1] == if is_server {
                0xf5u8
            } else {
                0xf4u8
            }
            &&& data.skip(2) == cbor_address(address)
            &&& data.skip(2) == SocketAddress::description(!is_server, address).skip(2)
            &&& data != SocketAddress::description(!is_server, address)
        }),
{
    let data = SocketAddress::description(is_server, address);
    assert(cbor_address(address).len() > 0);
    assert(data.skip(2) =~= cbor_address(address));
    assert(SocketAddress::description(!is_server, address).skip(2) =~= cbor_address(address));
}

/// An address is seen as what it is.
pub proof fn law_address_is_seen_as_it_is(path: PathAddress, address: SocketAddress)
    ensures
        path@ == path.path@,
        address@ == address,
{
}

/// What bytes describe is what `serde_cbor` reads them as.
pub proof fn law_described_is_what_is_read(data: Seq<u8>)
    ensures
        PathAddress::described(data) == decoded_path(data),
        SocketAddress::described(data) == decoded_address(data),
{
}

} // verus!
