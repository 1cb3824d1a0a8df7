//! Calls into outside crates. What is claimed of them is not proved here.

use crate::listener::{Header, PacketType};
use itertools::Itertools;
use ring::rand::SecureRandom;
use slab::Slab;
use vstd::prelude::*;

verus! {

/// The opaque error of `ring`.
#[verifier::external_type_specification]
#[verifier::external_body]
pub struct ExUnspecified(ring::error::Unspecified);

/// `slab::Slab`, which hands out a key for each value that is put into it.
#[verifier::external_type_specification]
#[verifier::external_body]
#[verifier::reject_recursive_types(T)]
pub struct ExSlab<T>(slab::Slab<T>);

/// The values of a slab by their keys.
pub uninterp spec fn slab_entries(slab: Slab<usize>) -> Map<usize, usize>;

/// The keys of removed values, in the order in which they are handed out
/// again.
pub uninterp spec fn slab_freed(slab: Slab<usize>) -> Seq<usize>;

/// `Slab::new`: there is no value in the slab and no key to hand out again.
#[verifier::external_body]
pub(crate) fn slab_new() -> (r: Slab<usize>)
    ensures
        (slab_entries(r) == Map::<usize, usize>::empty()),
        slab_freed(r) == Seq::<usize>::empty(),
{
    Slab::new()
}

/// `Slab::insert`: the value is stored under a key that was not in use. That
/// is the next key to hand out again or, where there is none, the number of
/// values in the slab.
#[verifier::external_body]
pub(crate) fn slab_insert(slab: &mut Slab<usize>, value: usize) -> (key: usize)
    ensures
        !slab_entries(*old(slab)).contains_key(key),
        slab_entries(*final(slab)) == slab_entries(*old(slab)).insert(key, value),
        slab_freed(*old(slab)).len() == 0 ==> key == slab_entries(*old(slab)).len(),
        slab_freed(*old(slab)).len() == 0 ==> slab_freed(*final(slab)).len() == 0,
        slab_freed(*old(slab)).len() > 0 ==> key == slab_freed(*old(slab))[0],
        slab_freed(*old(slab)).len() > 0 ==> slab_freed(*final(slab)) == slab_freed(
            *old(slab),
        ).skip(1),
{
    slab.insert(value)
}

/// `Slab::get`: the value under `key`, if there is one.
#[verifier::external_body]
pub(crate) fn slab_get(slab: &Slab<usize>, key: usize) -> (r: Option<usize>)
    ensures
        r == (if slab_entries(*slab).contains_key(key) {
            Some(slab_entries(*slab)[key])
        } else {
            None
        }),
{
    slab.get(key).copied()
}

/// The keys are in ascending order.
pub open spec fn ascending(items: Seq<(u128, usize)>) -> bool {
    forall|i: int, j: int| 0 <= i < j < items.len() ==> items[i].0 <= items[j].0
}

/// The items of one key, in order.
pub open spec fn of_key(items: Seq<(u128, usize)>, key: u128) -> Seq<(u128, usize)> {
    items.filter(|item: (u128, usize)| item.0 == key)
}

/// `Itertools::sorted_by_key` on the first component. It sorts with
/// `slice::sort_by_key`, which is stable: the items end up in ascending order
/// of their keys, and those of one key keep their order.
#[verifier::external_body]
pub(crate) fn sort_by_first(items: Vec<(u128, usize)>) -> (r: Vec<(u128, usize)>)
    ensures
        ascending(r@),
        forall|key: u128| #[trigger] of_key(r@, key) == of_key(items@, key),
{
    items.into_iter().sorted_by_key(|item| item.0).collect()
}

/// `ring::rand::SystemRandom::fill` on a buffer of `len` bytes. Which bytes
/// come, and whether the system provides any, is left open: both are up to the
/// system.
#[verifier::external_body]
pub(crate) fn fill_random(len: usize) -> (r: Result<Vec<u8>, ring::error::Unspecified>)
    requires
        len <= 64,
    ensures
        r matches Ok(bytes) ==> bytes@.len() == len,
{
    let mut bytes = vec![0u8; len];
    ring::rand::SystemRandom::new().fill(&mut bytes)?;
    Ok(bytes)
}

/// `ring` counts the bits of what it digests, and panics when the count does not
/// fit 64 bits. Data of up to this length is well within that.
pub const MAX_SIGNED_LEN: u64 = 0x0fff_ffff_ffff_ffff;

/// The HMAC-SHA256 tag of `data` under `key`.
pub uninterp spec fn hmac_sha256(key: Seq<u8>, data: Seq<u8>) -> Seq<u8>;

/// `ring::hmac::sign` with a key of `HMAC_SHA256` that `ring::hmac::Key::new`
/// makes of `key`: the tag depends on the bytes of the key and the data alone,
/// and is as long as a SHA-256 digest.
#[verifier::external_body]
pub(crate) fn hmac_sign(key: &Vec<u8>, data: &Vec<u8>) -> (r: Vec<u8>)
    requires
        key@.len() <= MAX_SIGNED_LEN,
        data@.len() <= MAX_SIGNED_LEN,
    ensures
        r@ == hmac_sha256(key@, data@),
        r@.len() == 32,
{
    let key = ring::hmac::Key::new(ring::hmac::HMAC_SHA256, key);
    ring::hmac::sign(&key, data).as_ref().to_vec()
}

/// The errors of `quiche`.
#[verifier::external_type_specification]
#[verifier::external_body]
pub struct ExQuicheError(quiche::Error);

/// Version 1 of QUIC and the drafts 27, 28 and 29.
pub open spec fn supported_version(version: u32) -> bool {
    version == 1 || 0xff00_001b <= version <= 0xff00_001d
}

/// `quiche::version_is_supported` knows the final version and three drafts.
pub assume_specification [quiche::version_is_supported](version: u32) -> (r: bool)
    ensures
        r == supported_version(version),
;

/// The header of a packet, if it can be read. `dcid_len` is the length of the
/// destination identifier in packets of the short form.
pub uninterp spec fn wire_header(
    packet: Seq<u8>,
    dcid_len: usize,
) -> Option<crate::listener::HeaderView>;

/// `quiche::Header::from_slice` reads a header off the bytes of a packet, and
/// leaves the bytes as they are. Initial packets have a token, if only an empty
/// one. The identifiers of a long form have lengths of one byte.
#[verifier::external_body]
pub(crate) fn parse_header(packet: &Vec<u8>, dcid_len: usize) -> (r: Result<Header, quiche::Error>)
    ensures
        r is Ok <==> wire_header(packet@, dcid_len) is Some,
        r matches Ok(hdr) ==> wire_header(packet@, dcid_len) == Some(hdr@),
        r matches Ok(hdr) ==> (hdr.ty == PacketType::Initial ==> hdr.token is Some),
        r matches Ok(hdr) ==> (hdr.ty != PacketType::Short ==> hdr.dcid@.len() <= 255),
        r matches Ok(hdr) ==> (hdr.ty != PacketType::Short ==> hdr.scid@.len() <= 255),
        r matches Ok(hdr) ==> (hdr.ty == PacketType::Short ==> hdr.dcid@.len() == dcid_len),
{
    let mut bytes = packet.clone();
    let hdr = quiche::Header::from_slice(&mut bytes, dcid_len)?;
    let ty = match hdr.ty {
        quiche::Type::Initial => PacketType::Initial,
        quiche::Type::Retry => PacketType::Retry,
        quiche::Type::Handshake => PacketType::Handshake,
        quiche::Type::ZeroRTT => PacketType::ZeroRtt,
        quiche::Type::VersionNegotiation => PacketType::VersionNegotiation,
        quiche::Type::Short => PacketType::Short,
    };
    let (scid, dcid) = (hdr.scid.to_vec(), hdr.dcid.to_vec());
    Ok(Header { ty, version: hdr.version, scid, dcid, token: hdr.token })
}

/// What a retry packet takes besides the two identifiers and the token: the
/// first byte, the version, two lengths and the integrity tag.
pub const RETRY_OVERHEAD: usize = 23;

pub open spec fn retry_len(scid: Seq<u8>, new_scid: Seq<u8>, token: Seq<u8>) -> int {
    RETRY_OVERHEAD + scid.len() + new_scid.len() + token.len()
}

/// The four bytes of a version, the highest first.
pub open spec fn version_bytes(version: u32) -> Seq<u8> {
    seq![
        (version / 0x100_0000) as u8,
        (version / 0x1_0000 % 0x100) as u8,
        (version / 0x100 % 0x100) as u8,
        (version % 0x100) as u8,
    ]
}

/// What a retry packet holds before its tag: the first byte of its type, the
/// version, the identifier of the client and the one that it is to come back to,
/// each behind the low byte of its length, and the token.
pub open spec fn retry_start(
    scid: Seq<u8>,
    new_scid: Seq<u8>,
    token: Seq<u8>,
    version: u32,
) -> Seq<u8> {
    seq![0xf0u8] + version_bytes(version) + seq![(scid.len() % 256) as u8] + scid + seq![
        (new_scid.len() % 256) as u8,
    ] + new_scid + token
}

/// The integrity tag of the retry packet for a client that chose the identifiers
/// `scid` and `dcid`.
pub uninterp spec fn retry_tag(
    scid: Seq<u8>,
    dcid: Seq<u8>,
    new_scid: Seq<u8>,
    token: Seq<u8>,
    version: u32,
) -> Seq<u8>;

/// The retry packet for a client that chose the identifiers `scid` and `dcid`.
pub open spec fn retry_packet(
    scid: Seq<u8>,
    dcid: Seq<u8>,
    new_scid: Seq<u8>,
    token: Seq<u8>,
    version: u32,
) -> Seq<u8> {
    retry_start(scid, new_scid, token, version) + retry_tag(scid, dcid, new_scid, token, version)
}

/// `quiche::retry` into a buffer of `capacity` bytes. It writes the packet if it
/// supports the version and the packet fits, and else fails. The packet ends in a
/// tag of 16 bytes, which depends on the arguments alone.
#[verifier::external_body]
pub(crate) fn write_retry(
    scid: &Vec<u8>,
    dcid: &Vec<u8>,
    new_scid: &Vec<u8>,
    token: &Vec<u8>,
    version: u32,
    capacity: usize,
) -> (r: Result<Vec<u8>, quiche::Error>)
    requires
        dcid@.len() <= 0xffff,
        capacity <= 0xffff,
    ensures
        r is Ok <==> (supported_version(version) && retry_len(scid@, new_scid@, token@) <= capacity),
        r matches Ok(packet) ==> (packet@ == retry_start(scid@, new_scid@, token@, version)
            + retry_tag(scid@, dcid@, new_scid@, token@, version)),
        r matches Ok(packet) ==> (packet@.len() == retry_len(scid@, new_scid@, token@)),
{
    let mut out = vec![0u8; capacity];
    let scid = quiche::ConnectionId::from_ref(scid);
    let dcid = quiche::ConnectionId::from_ref(dcid);
    let new_scid = quiche::ConnectionId::from_ref(new_scid);
    let len = quiche::retry(&scid, &dcid, &new_scid, token, version, &mut out)?;
    out.truncate(len);
    Ok(out)
}

/// What a version negotiation packet holds after its first byte: version zero,
/// the two identifiers, each behind the low byte of its length, and the supported
/// versions.
pub open spec fn negotiation_body(scid: Seq<u8>, dcid: Seq<u8>) -> Seq<u8> {
    seq![0u8, 0, 0, 0, (scid.len() % 256) as u8] + scid + seq![(dcid.len() % 256) as u8] + dcid
        + seq![
        0u8, 0, 0, 1, 0xff, 0, 0, 0x1d, 0xff, 0, 0, 0x1c, 0xff, 0, 0, 0x1b,
    ]
}

/// The packet tells the client of these identifiers the supported versions. Its
/// first byte sets the bit of the long form.
pub open spec fn is_negotiation(packet: Seq<u8>, scid: Seq<u8>, dcid: Seq<u8>) -> bool {
    packet.len() > 0 && packet[0] >= 0x80 && packet.skip(1) == negotiation_body(scid, dcid)
}

/// `quiche::negotiate_version` into a buffer of `capacity` bytes. It writes the
/// packet if it fits, and else fails. The other bits of the first byte are
/// random.
#[verifier::external_body]
pub(crate) fn write_negotiation(scid: &Vec<u8>, dcid: &Vec<u8>, capacity: usize) -> (r: Result<
    Vec<u8>,
    quiche::Error,
>)
    requires
        capacity <= 0xffff,
    ensures
        r is Ok <==> (1 + negotiation_body(scid@, dcid@).len() <= capacity),
        r matches Ok(packet) ==> is_negotiation(packet@, scid@, dcid@),
{
    let mut out = vec![0u8; capacity];
    let scid = quiche::ConnectionId::from_ref(scid);
    let dcid = quiche::ConnectionId::from_ref(dcid);
    let len = quiche::negotiate_version(&scid, &dcid, &mut out)?;
    out.truncate(len);
    Ok(out)
}

} // verus!
