//! The messages exchanged with the scanning workers, and their conversion
//! to and from the library's own types.

pub mod scanner;

use crate::data_core::api::server_data as api;
use crate::data_core::manager_api::{DiscoverRequest, PortRange};
use crate::mc_protocol::dialog::server_data::{ForgeMod, ResourcePack as DialogResourcePack};
use crate::mc_protocol::types::difficulty::Difficulty as McDifficulty;
use crate::mc_protocol::types::gamemode::GameMode as McGameMode;
use crate::mc_protocol::dialog::ConnectionMethod;
use crate::net::{be_value, IpAddr, IpNetwork};
use scanner::{IpVersion, ScanMethod};
use vstd::prelude::*;

verus! {

/// A wire enumeration held its unknown value where a known one was due.
#[derive(Clone, Copy, Debug, PartialEq, Eq, Structural)]
pub struct UnexpectedUnknown;

/// Why a message from a worker was refused as an invalid argument.
#[derive(Clone, Copy, Debug, PartialEq, Eq, Structural)]
pub enum InvalidArgument {
    /// The address family is none the wire knows.
    InvalidIpVersion(i32),
    /// The address has not the length of its family.
    InvalidIpBytes,
    /// The prefix length does not fit in a byte.
    PrefixLengthTooLong,
    /// A network came without its address.
    MissingIp,
    /// The prefix is longer than the address.
    InvalidPrefix,
}

/// `256^n`.
pub open spec fn pow256(n: nat) -> nat
    decreases n,
{
    if n == 0 {
        1
    } else {
        256 * pow256((n - 1) as nat)
    }
}

proof fn lemma_be_value_bound(s: Seq<u8>)
    ensures
        be_value(s) < pow256(s.len()),
    decreases s.len(),
{
    if s.len() > 0 {
        lemma_be_value_bound(s.drop_last());
    }
}

/// The number that `bytes` spell in big-endian order; they are at most
/// sixteen.
fn be_number(bytes: &Vec<u8>) -> (r: u128)
    requires
        bytes@.len() <= 16,
    ensures
        r == be_value(bytes@),
{
    let mut acc: u128 = 0;
    let mut i: usize = 0;
    proof {
        reveal_with_fuel(pow256, 17);
    }
    assert(pow256(16) == 0x1_0000_0000_0000_0000_0000_0000_0000_0000);
    while i < bytes.len()
        invariant
            i <= bytes@.len() <= 16,
            acc == be_value(bytes@.take(i as int)),
            pow256(16) == 0x1_0000_0000_0000_0000_0000_0000_0000_0000,
        decreases bytes@.len() - i,
    {
        proof {
            lemma_be_value_bound(bytes@.take(i as int));
            lemma_pow256_mono(i as nat + 1, 16);
            assert(bytes@.take(i + 1).drop_last() =~= bytes@.take(i as int));
        }
        acc = acc * 256 + bytes[i] as u128;
        i = i + 1;
    }
    assert(bytes@.take(bytes@.len() as int) =~= bytes@);
    acc
}

proof fn lemma_pow256_mono(a: nat, b: nat)
    requires
        a <= b,
    ensures
        pow256(a) <= pow256(b),
    decreases b,
{
    if a < b {
        lemma_pow256_mono(a, (b - 1) as nat);
    }
}

/// The `n` bytes that spell `x` in big-endian order.
fn be_bytes(x: u128, n: usize) -> (r: Vec<u8>)
    requires
        x < pow256(n as nat),
    ensures
        r@.len() == n,
        be_value(r@) == x,
    decreases n,
{
    if n == 0 {
        Vec::new()
    } else {
        proof {
            assert(pow256(n as nat) == 256 * pow256((n - 1) as nat));
            assert(x / 256 < pow256((n - 1) as nat)) by (nonlinear_arith)
                requires
                    x < 256 * pow256((n - 1) as nat),
            ;
        }
        let mut v = be_bytes(x / 256, n - 1);
        let b = (x % 256) as u8;
        let ghost before = v@;
        v.push(b);
        proof {
            assert(v@.drop_last() =~= before);
        }
        v
    }
}

/// Reads an address off the wire: its family, and as many bytes as the
/// family has, read in network order.
pub fn ip_addr_try_from(value: scanner::IpAddr) -> (r: Result<IpAddr, InvalidArgument>)
    ensures
        match value.ip_version {
            0 => if value.address@.len() == 4 {
                r == Ok::<IpAddr, InvalidArgument>(IpAddr::V4(be_value(value.address@) as u32))
            } else {
                r == Err::<IpAddr, InvalidArgument>(InvalidArgument::InvalidIpBytes)
            },
            1 => if value.address@.len() == 16 {
                r == Ok::<IpAddr, InvalidArgument>(IpAddr::V6(be_value(value.address@) as u128))
            } else {
                r == Err::<IpAddr, InvalidArgument>(InvalidArgument::InvalidIpBytes)
            },
            v => r == Err::<IpAddr, InvalidArgument>(InvalidArgument::InvalidIpVersion(v)),
        },
{
    let scanner::IpAddr { ip_version, address } = value;
    let version = match IpVersion::try_from_i32(ip_version) {
        Ok(v) => v,
        Err(e) => {
            return Err(InvalidArgument::InvalidIpVersion(e.0));
        },
    };
    match version {
        IpVersion::V4 => {
            if address.len() != 4 {
                return Err(InvalidArgument::InvalidIpBytes);
            }
            proof {
                lemma_be_value_bound(address@);
                reveal_with_fuel(pow256, 5);
            }
            let n = be_number(&address);
            Ok(IpAddr::V4(n as u32))
        },
        IpVersion::V6 => {
            if address.len() != 16 {
                return Err(InvalidArgument::InvalidIpBytes);
            }
            let n = be_number(&address);
            Ok(IpAddr::V6(n))
        },
    }
}

/// Writes an address for the wire: its family, and its bytes in network
/// order.
pub fn ip_addr_from(value: IpAddr) -> (r: scanner::IpAddr)
    ensures
        match value {
            IpAddr::V4(a) => r.ip_version == 0 && r.address@.len() == 4 && be_value(r.address@) == a,
            IpAddr::V6(a) => r.ip_version == 1 && r.address@.len() == 16 && be_value(r.address@)
                == a,
        },
{
    match value {
        IpAddr::V4(a) => {
            proof {
                reveal_with_fuel(pow256, 5);
            }
            scanner::IpAddr { ip_version: IpVersion::V4.to_i32(), address: be_bytes(a as u128, 4) }
        },
        IpAddr::V6(a) => {
            proof {
                reveal_with_fuel(pow256, 17);
            }
            scanner::IpAddr { ip_version: IpVersion::V6.to_i32(), address: be_bytes(a, 16) }
        },
    }
}

/// An address written for the wire reads back as itself.
pub proof fn lemma_ip_addr_roundtrip(a: IpAddr, w: scanner::IpAddr, r: Result<IpAddr, InvalidArgument>)
    requires
        match a {
            IpAddr::V4(x) => w.ip_version == 0 && w.address@.len() == 4 && be_value(w.address@) == x,
            IpAddr::V6(x) => w.ip_version == 1 && w.address@.len() == 16 && be_value(w.address@) == x,
        },
        match w.ip_version {
            0 => if w.address@.len() == 4 {
                r == Ok::<IpAddr, InvalidArgument>(IpAddr::V4(be_value(w.address@) as u32))
            } else {
                r == Err::<IpAddr, InvalidArgument>(InvalidArgument::InvalidIpBytes)
            },
            1 => if w.address@.len() == 16 {
                r == Ok::<IpAddr, InvalidArgument>(IpAddr::V6(be_value(w.address@) as u128))
            } else {
                r == Err::<IpAddr, InvalidArgument>(InvalidArgument::InvalidIpBytes)
            },
            v => r == Err::<IpAddr, InvalidArgument>(InvalidArgument::InvalidIpVersion(v)),
        },
    ensures
        r == Ok::<IpAddr, InvalidArgument>(a),
{
}

/// Reads a network off the wire: the prefix length must fit in a byte, the
/// address must be there and valid, and the prefix no longer than it.
pub fn ip_network_try_from(prefix: scanner::IpPrefix) -> (r: Result<IpNetwork, InvalidArgument>)
    ensures
        prefix.prefix_length > 255 ==> r == Err::<IpNetwork, InvalidArgument>(
            InvalidArgument::PrefixLengthTooLong,
        ),
        prefix.prefix_length <= 255 && prefix.ip_addr is None ==> r == Err::<
            IpNetwork,
            InvalidArgument,
        >(InvalidArgument::MissingIp),
        prefix.prefix_length <= 255 && prefix.ip_addr is Some ==> match ip_from_wire(
            prefix.ip_addr->0,
        ) {
            Err(e) => r == Err::<IpNetwork, InvalidArgument>(e),
            Ok(ip) => if prefix.prefix_length <= ip.family_bits() {
                r matches Ok(n) && n.spec_ip() == ip && n.spec_prefix() == prefix.prefix_length
                    && n.wf()
            } else {
                r == Err::<IpNetwork, InvalidArgument>(InvalidArgument::InvalidPrefix)
            },
        },
{
    if prefix.prefix_length > 255 {
        return Err(InvalidArgument::PrefixLengthTooLong);
    }
    let prefix_len = prefix.prefix_length as u8;
    let ip = match prefix.ip_addr {
        None => {
            return Err(InvalidArgument::MissingIp);
        },
        Some(a) => match ip_addr_try_from(a) {
            Ok(ip) => ip,
            Err(e) => {
                return Err(e);
            },
        },
    };
    match IpNetwork::new(ip, prefix_len) {
        Ok(n) => Ok(n),
        Err(_) => Err(InvalidArgument::InvalidPrefix),
    }
}

/// What [`ip_addr_try_from`] gives for an address on the wire.
pub open spec fn ip_from_wire(value: scanner::IpAddr) -> Result<IpAddr, InvalidArgument> {
    if value.ip_version == 0 {
        if value.address@.len() == 4 {
            Ok(IpAddr::V4(be_value(value.address@) as u32))
        } else {
            Err(InvalidArgument::InvalidIpBytes)
        }
    } else if value.ip_version == 1 {
        if value.address@.len() == 16 {
            Ok(IpAddr::V6(be_value(value.address@) as u128))
        } else {
            Err(InvalidArgument::InvalidIpBytes)
        }
    } else {
        Err(InvalidArgument::InvalidIpVersion(value.ip_version))
    }
}

/// Writes a network for the wire: its address and prefix length.
pub fn ip_prefix_from(value: IpNetwork) -> (r: scanner::IpPrefix)
    ensures
        r.prefix_length == value.spec_prefix(),
        r.ip_addr matches Some(a) && ip_from_wire(a) == Ok::<IpAddr, InvalidArgument>(
            value.spec_ip(),
        ),
{
    let ip = value.ip();
    let a = ip_addr_from(ip);
    proof {
        lemma_ip_addr_roundtrip(ip, a, ip_from_wire(a));
    }
    scanner::IpPrefix { ip_addr: Some(a), prefix_length: value.prefix() as u32 }
}

/// A network written for the wire reads back as itself: whatever
/// [`ip_network_try_from`] gives for what [`ip_prefix_from`] wrote is the
/// network.
pub proof fn lemma_ip_network_roundtrip(n: IpNetwork, w: scanner::IpPrefix, r: Result<IpNetwork, InvalidArgument>)
    requires
        n.wf(),
        w.prefix_length == n.spec_prefix(),
        w.ip_addr matches Some(a) && ip_from_wire(a) == Ok::<IpAddr, InvalidArgument>(n.spec_ip()),
        w.prefix_length > 255 ==> r == Err::<IpNetwork, InvalidArgument>(
            InvalidArgument::PrefixLengthTooLong,
        ),
        w.prefix_length <= 255 && w.ip_addr is None ==> r == Err::<IpNetwork, InvalidArgument>(
            InvalidArgument::MissingIp,
        ),
        w.prefix_length <= 255 && w.ip_addr is Some ==> match ip_from_wire(w.ip_addr->0) {
            Err(e) => r == Err::<IpNetwork, InvalidArgument>(e),
            Ok(ip) => if w.prefix_length <= ip.family_bits() {
                r matches Ok(m) && m.spec_ip() == ip && m.spec_prefix() == w.prefix_length && m.wf()
            } else {
                r == Err::<IpNetwork, InvalidArgument>(InvalidArgument::InvalidPrefix)
            },
        },
    ensures
        r == Ok::<IpNetwork, InvalidArgument>(n),
{
}

impl From<ScanMethod> for ConnectionMethod {
    fn from(value: ScanMethod) -> (r: ConnectionMethod)
        ensures
            r == scan_method_to_connection(value),
    {
        match value {
            ScanMethod::OnlyHandshake => ConnectionMethod::OnlyHandshake,
            ScanMethod::LoginIfNoMsg => ConnectionMethod::LoginIfNoMsg,
            ScanMethod::JoinIfEmpty => ConnectionMethod::JoinIfEmpty,
            ScanMethod::Join => ConnectionMethod::Join,
        }
    }
}

/// The dialog method a scan method names.
pub open spec fn scan_method_to_connection(value: ScanMethod) -> ConnectionMethod {
    match value {
        ScanMethod::OnlyHandshake => ConnectionMethod::OnlyHandshake,
        ScanMethod::LoginIfNoMsg => ConnectionMethod::LoginIfNoMsg,
        ScanMethod::JoinIfEmpty => ConnectionMethod::JoinIfEmpty,
        ScanMethod::Join => ConnectionMethod::Join,
    }
}

impl vstd::std_specs::convert::FromSpecImpl<ScanMethod> for ConnectionMethod {
    open spec fn obeys_from_spec() -> bool {
        true
    }

    open spec fn from_spec(v: ScanMethod) -> ConnectionMethod {
        scan_method_to_connection(v)
    }
}

impl From<ConnectionMethod> for ScanMethod {
    fn from(value: ConnectionMethod) -> (r: ScanMethod)
        ensures
            scan_method_to_connection(r) == value,
    {
        match value {
            ConnectionMethod::OnlyHandshake => ScanMethod::OnlyHandshake,
            ConnectionMethod::LoginIfNoMsg => ScanMethod::LoginIfNoMsg,
            ConnectionMethod::JoinIfEmpty => ScanMethod::JoinIfEmpty,
            ConnectionMethod::Join => ScanMethod::Join,
        }
    }
}

impl vstd::std_specs::convert::FromSpecImpl<ConnectionMethod> for ScanMethod {
    open spec fn obeys_from_spec() -> bool {
        true
    }

    open spec fn from_spec(v: ConnectionMethod) -> ScanMethod {
        match v {
            ConnectionMethod::OnlyHandshake => ScanMethod::OnlyHandshake,
            ConnectionMethod::LoginIfNoMsg => ScanMethod::LoginIfNoMsg,
            ConnectionMethod::JoinIfEmpty => ScanMethod::JoinIfEmpty,
            ConnectionMethod::Join => ScanMethod::Join,
        }
    }
}

impl From<scanner::GameMode> for Option<api::GameMode> {
    fn from(value: scanner::GameMode) -> (r: Option<api::GameMode>)
        ensures
            r == api::gamemode_num(value.spec_to_i32()),
    {
        match value {
            scanner::GameMode::Survival => Some(api::GameMode::Survival),
            scanner::GameMode::Creative => Some(api::GameMode::Creative),
            scanner::GameMode::Adventure => Some(api::GameMode::Adventure),
            scanner::GameMode::Spectator => Some(api::GameMode::Spectator),
            scanner::GameMode::UnknownGameMode => None,
        }
    }
}

impl vstd::std_specs::convert::FromSpecImpl<scanner::GameMode> for Option<api::GameMode> {
    open spec fn obeys_from_spec() -> bool {
        true
    }

    open spec fn from_spec(v: scanner::GameMode) -> Option<api::GameMode> {
        api::gamemode_num(v.spec_to_i32())
    }
}

impl From<scanner::Difficulty> for Option<api::Difficulty> {
    fn from(value: scanner::Difficulty) -> (r: Option<api::Difficulty>)
        ensures
            r == api::difficulty_num(value.spec_to_i32()),
    {
        match value {
            scanner::Difficulty::Peaceful => Some(api::Difficulty::Peaceful),
            scanner::Difficulty::Easy => Some(api::Difficulty::Easy),
            scanner::Difficulty::Normal => Some(api::Difficulty::Normal),
            scanner::Difficulty::Hard => Some(api::Difficulty::Hard),
            scanner::Difficulty::UnknownDifficulty => None,
        }
    }
}

impl vstd::std_specs::convert::FromSpecImpl<scanner::Difficulty> for Option<api::Difficulty> {
    open spec fn obeys_from_spec() -> bool {
        true
    }

    open spec fn from_spec(v: scanner::Difficulty) -> Option<api::Difficulty> {
        api::difficulty_num(v.spec_to_i32())
    }
}

impl From<scanner::ConnectionResult> for Option<api::ConnectionResult> {
    fn from(value: scanner::ConnectionResult) -> (r: Option<api::ConnectionResult>)
        ensures
            r == wire_conn_result(value),
    {
        match value {
            scanner::ConnectionResult::LoginDisconnect => Some(api::ConnectionResult::LoginDisconnect),
            scanner::ConnectionResult::ConfigurationDisconnect => Some(
                api::ConnectionResult::ConfigurationDisconnect,
            ),
            scanner::ConnectionResult::PlayDisconnect => Some(api::ConnectionResult::PlayDisconnect),
            scanner::ConnectionResult::Successful => Some(api::ConnectionResult::Successful),
            scanner::ConnectionResult::UnknownConnectionResult => None,
        }
    }
}

/// How a scan ended, as the API names it: none for the unknown value.
pub open spec fn wire_conn_result(v: scanner::ConnectionResult) -> Option<api::ConnectionResult> {
    match v {
        scanner::ConnectionResult::LoginDisconnect => Some(api::ConnectionResult::LoginDisconnect),
        scanner::ConnectionResult::ConfigurationDisconnect => Some(
            api::ConnectionResult::ConfigurationDisconnect,
        ),
        scanner::ConnectionResult::PlayDisconnect => Some(api::ConnectionResult::PlayDisconnect),
        scanner::ConnectionResult::Successful => Some(api::ConnectionResult::Successful),
        scanner::ConnectionResult::UnknownConnectionResult => None,
    }
}

impl vstd::std_specs::convert::FromSpecImpl<scanner::ConnectionResult> for Option<api::ConnectionResult> {
    open spec fn obeys_from_spec() -> bool {
        true
    }

    open spec fn from_spec(v: scanner::ConnectionResult) -> Option<api::ConnectionResult> {
        wire_conn_result(v)
    }
}

/// The wire game mode of a game mode.
pub open spec fn gamemode_to_wire(v: McGameMode) -> scanner::GameMode {
    match v {
        McGameMode::Survival => scanner::GameMode::Survival,
        McGameMode::Creative => scanner::GameMode::Creative,
        McGameMode::Adventure => scanner::GameMode::Adventure,
        McGameMode::Spectator => scanner::GameMode::Spectator,
    }
}

impl From<McGameMode> for scanner::GameMode {
    fn from(value: McGameMode) -> (r: scanner::GameMode)
        ensures
            r == gamemode_to_wire(value),
    {
        match value {
            McGameMode::Survival => scanner::GameMode::Survival,
            McGameMode::Creative => scanner::GameMode::Creative,
            McGameMode::Adventure => scanner::GameMode::Adventure,
            McGameMode::Spectator => scanner::GameMode::Spectator,
        }
    }
}

impl vstd::std_specs::convert::FromSpecImpl<McGameMode> for scanner::GameMode {
    open spec fn obeys_from_spec() -> bool {
        true
    }

    open spec fn from_spec(v: McGameMode) -> scanner::GameMode {
        gamemode_to_wire(v)
    }
}

/// The wire difficulty of a difficulty.
pub open spec fn difficulty_to_wire(v: McDifficulty) -> scanner::Difficulty {
    match v {
        McDifficulty::Peaceful => scanner::Difficulty::Peaceful,
        McDifficulty::Easy => scanner::Difficulty::Easy,
        McDifficulty::Normal => scanner::Difficulty::Normal,
        McDifficulty::Hard => scanner::Difficulty::Hard,
    }
}

impl From<McDifficulty> for scanner::Difficulty {
    fn from(value: McDifficulty) -> (r: scanner::Difficulty)
        ensures
            r == difficulty_to_wire(value),
    {
        match value {
            McDifficulty::Peaceful => scanner::Difficulty::Peaceful,
            McDifficulty::Easy => scanner::Difficulty::Easy,
            McDifficulty::Normal => scanner::Difficulty::Normal,
            McDifficulty::Hard => scanner::Difficulty::Hard,
        }
    }
}

impl vstd::std_specs::convert::FromSpecImpl<McDifficulty> for scanner::Difficulty {
    open spec fn obeys_from_spec() -> bool {
        true
    }

    open spec fn from_spec(v: McDifficulty) -> scanner::Difficulty {
        difficulty_to_wire(v)
    }
}

/// A difficulty sent to the manager and read back is the same difficulty.
pub proof fn lemma_difficulty_wire_roundtrip(d: McDifficulty)
    ensures
        api::difficulty_num(difficulty_to_wire(d).spec_to_i32()) matches Some(a) && match d {
            McDifficulty::Peaceful => a == api::Difficulty::Peaceful,
            McDifficulty::Easy => a == api::Difficulty::Easy,
            McDifficulty::Normal => a == api::Difficulty::Normal,
            McDifficulty::Hard => a == api::Difficulty::Hard,
        },
{
}

/// Converting how a scan ended agrees with reading its wire number: every
/// result the wire names converts to what its number reads as, and the
/// unknown one, which reading refuses, converts to none.
pub proof fn lemma_conn_result_conversions_agree(x: scanner::ConnectionResult)
    ensures
        x != scanner::ConnectionResult::UnknownConnectionResult ==> wire_conn_result(x) == Some(
            api::conn_result_result(x.spec_to_i32())->Ok_0,
        ) && api::conn_result_result(x.spec_to_i32()) is Ok,
        x == scanner::ConnectionResult::UnknownConnectionResult ==> wire_conn_result(x) is None
            && api::conn_result_result(x.spec_to_i32()) is Err,
{
}

/// A game mode sent to the manager and read back is the same game mode.
pub proof fn lemma_gamemode_wire_roundtrip(g: McGameMode)
    ensures
        api::gamemode_num(gamemode_to_wire(g).spec_to_i32()) matches Some(a) && match g {
            McGameMode::Survival => a == api::GameMode::Survival,
            McGameMode::Creative => a == api::GameMode::Creative,
            McGameMode::Adventure => a == api::GameMode::Adventure,
            McGameMode::Spectator => a == api::GameMode::Spectator,
        },
{
}

impl From<scanner::ResourcePack> for api::ResourcePack {
    fn from(value: scanner::ResourcePack) -> (r: api::ResourcePack)
        ensures
            r == (api::ResourcePack { url: value.url, hash: value.hash, forced: value.forced }),
    {
        api::ResourcePack { url: value.url, hash: value.hash, forced: value.forced }
    }
}

impl vstd::std_specs::convert::FromSpecImpl<scanner::ResourcePack> for api::ResourcePack {
    open spec fn obeys_from_spec() -> bool {
        true
    }

    open spec fn from_spec(v: scanner::ResourcePack) -> api::ResourcePack {
        api::ResourcePack { url: v.url, hash: v.hash, forced: v.forced }
    }
}

impl From<DialogResourcePack> for scanner::ResourcePack {
    fn from(value: DialogResourcePack) -> (r: scanner::ResourcePack)
        ensures
            r == (scanner::ResourcePack { url: value.url, hash: value.hash, forced: value.forced }),
    {
        scanner::ResourcePack { url: value.url, hash: value.hash, forced: value.forced }
    }
}

impl vstd::std_specs::convert::FromSpecImpl<DialogResourcePack> for scanner::ResourcePack {
    open spec fn obeys_from_spec() -> bool {
        true
    }

    open spec fn from_spec(v: DialogResourcePack) -> scanner::ResourcePack {
        scanner::ResourcePack { url: v.url, hash: v.hash, forced: v.forced }
    }
}

impl From<scanner::McMod> for api::McMod {
    fn from(value: scanner::McMod) -> (r: api::McMod)
        ensures
            r == (api::McMod { mod_id: value.mod_id, version: value.version }),
    {
        api::McMod { mod_id: value.mod_id, version: value.version }
    }
}

impl vstd::std_specs::convert::FromSpecImpl<scanner::McMod> for api::McMod {
    open spec fn obeys_from_spec() -> bool {
        true
    }

    open spec fn from_spec(v: scanner::McMod) -> api::McMod {
        api::McMod { mod_id: v.mod_id, version: v.version }
    }
}

impl From<ForgeMod> for scanner::McMod {
    fn from(value: ForgeMod) -> (r: scanner::McMod)
        ensures
            r == (scanner::McMod { mod_id: value.mod_id, version: value.version }),
    {
        scanner::McMod { mod_id: value.mod_id, version: value.version }
    }
}

impl vstd::std_specs::convert::FromSpecImpl<ForgeMod> for scanner::McMod {
    open spec fn obeys_from_spec() -> bool {
        true
    }

    open spec fn from_spec(v: ForgeMod) -> scanner::McMod {
        scanner::McMod { mod_id: v.mod_id, version: v.version }
    }
}

/// A port range written for the wire.
pub fn port_range_to_wire(value: PortRange) -> (r: scanner::PortRange)
    ensures
        r.min == value.min,
        r.max == value.max,
{
    scanner::PortRange { min: value.min as u32, max: value.max as u32 }
}

/// A port range read off the wire: each bound keeps its low sixteen bits.
pub fn port_range_from_wire(value: scanner::PortRange) -> (r: PortRange)
    ensures
        r.min == value.min as u16,
        r.max == value.max as u16,
{
    PortRange { min: value.min as u16, max: value.max as u16 }
}

/// A discovery job written for the wire.
pub fn discover_request_to_wire(value: DiscoverRequest) -> (r: scanner::DiscoverRequest)
    ensures
        r.targets@.len() == value.targets@.len(),
        forall|i: int|
            0 <= i < value.targets@.len() ==> (#[trigger] r.targets@[i]).prefix_length
                == value.targets@[i].spec_prefix() && (r.targets@[i].ip_addr matches Some(a)
                && ip_from_wire(a) == Ok::<IpAddr, InvalidArgument>(value.targets@[i].spec_ip())),
        r.excludes@.len() == value.excludes@.len(),
        forall|i: int|
            0 <= i < value.excludes@.len() ==> (#[trigger] r.excludes@[i]).prefix_length
                == value.excludes@[i].spec_prefix() && (r.excludes@[i].ip_addr matches Some(a)
                && ip_from_wire(a) == Ok::<IpAddr, InvalidArgument>(value.excludes@[i].spec_ip())),
        r.ports@.len() == value.ports@.len(),
        forall|i: int| 0 <= i < value.ports@.len() ==> #[trigger] r.ports@[i] == value.ports@[i],
        r.port_ranges@.len() == value.port_ranges@.len(),
        forall|i: int|
            0 <= i < value.port_ranges@.len() ==> (#[trigger] r.port_ranges@[i]).min
                == value.port_ranges@[i].min && r.port_ranges@[i].max == value.port_ranges@[i].max,
        r.rate == value.rate,
        r.method == value.method.spec_to_i32(),
{
    let targets = prefixes_to_wire(&value.targets);
    let excludes = prefixes_to_wire(&value.excludes);
    let mut ports: Vec<u32> = Vec::new();
    let mut i: usize = 0;
    while i < value.ports.len()
        invariant
            i <= value.ports@.len(),
            ports@.len() == i,
            forall|j: int| 0 <= j < i ==> #[trigger] ports@[j] == value.ports@[j],
        decreases value.ports@.len() - i,
    {
        ports.push(value.ports[i] as u32);
        i = i + 1;
    }
    let mut port_ranges: Vec<scanner::PortRange> = Vec::new();
    let mut i: usize = 0;
    while i < value.port_ranges.len()
        invariant
            i <= value.port_ranges@.len(),
            port_ranges@.len() == i,
            forall|j: int|
                0 <= j < i ==> (#[trigger] port_ranges@[j]).min == value.port_ranges@[j].min
                    && port_ranges@[j].max == value.port_ranges@[j].max,
        decreases value.port_ranges@.len() - i,
    {
        port_ranges.push(port_range_to_wire(value.port_ranges[i]));
        i = i + 1;
    }
    scanner::DiscoverRequest {
        targets,
        excludes,
        ports,
        port_ranges,
        rate: value.rate,
        method: value.method.to_i32(),
    }
}

/// Networks written for the wire.
fn prefixes_to_wire(nets: &Vec<IpNetwork>) -> (r: Vec<scanner::IpPrefix>)
    ensures
        r@.len() == nets@.len(),
        forall|i: int|
            0 <= i < nets@.len() ==> (#[trigger] r@[i]).prefix_length == nets@[i].spec_prefix() && (
            r@[i].ip_addr matches Some(a) && ip_from_wire(a) == Ok::<IpAddr, InvalidArgument>(
                nets@[i].spec_ip(),
            )),
{
    let mut out: Vec<scanner::IpPrefix> = Vec::new();
    let mut i: usize = 0;
    while i < nets.len()
        invariant
            i <= nets@.len(),
            out@.len() == i,
            forall|j: int|
                0 <= j < i ==> (#[trigger] out@[j]).prefix_length == nets@[j].spec_prefix() && (
                out@[j].ip_addr matches Some(a) && ip_from_wire(a) == Ok::<IpAddr, InvalidArgument>(
                    nets@[j].spec_ip(),
                )),
        decreases nets@.len() - i,
    {
        out.push(ip_prefix_from(nets[i]));
        i = i + 1;
    }
    out
}

} // verus!
