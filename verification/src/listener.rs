//! What a server does with the packets of unknown connections.

use crate::addr::SocketAddr;
use crate::external::{
    hmac_sign, parse_header, write_negotiation, write_retry, MAX_SIGNED_LEN,
};
use crate::machine::Machine;
use crate::transport::{SocketSend, MAX_BUF_SIZE, MAX_CONN_ID_LEN};
use vstd::prelude::*;

verus! {

/// The bytes of "quiche", which a retry token starts with.
pub open spec fn token_tag() -> Seq<u8> {
    seq![113u8, 117, 105, 99, 104, 101]
}

/// What the token of every connection from the IP address of `src` starts
/// with.
pub open spec fn token_prefix(src: SocketAddr) -> Seq<u8> {
    token_tag() + src.octets()
}

/// The retry token for a client at `src` that chose the identifier `dcid`.
pub open spec fn minted(dcid: Seq<u8>, src: SocketAddr) -> Seq<u8> {
    token_prefix(src) + dcid
}

/// The identifier that a token holds, if the token is for the address `src`.
pub open spec fn validated(src: SocketAddr, token: Seq<u8>) -> Option<Seq<u8>> {
    if token_prefix(src).is_prefix_of(token) {
        Some(token.skip(token_prefix(src).len() as int))
    } else {
        None
    }
}

fn token_start(src: &SocketAddr) -> (r: Vec<u8>)
    ensures
        r@ == token_prefix(*src),
        r@.len() <= 22,
{
    let mut start: Vec<u8> = vec![113, 117, 105, 99, 104, 101];
    assert(start@ =~= token_tag());
    let mut octets = src.ip_octets();
    start.append(&mut octets);
    start
}

/// Generates a stateless retry token.
///
/// The token is the string `"quiche"`, the IP address of the client and the
/// identifier that the client chose. It is not authenticated.
pub fn mint_token(dcid: &Vec<u8>, src: &SocketAddr) -> (r: Vec<u8>)
    ensures
        r@ == minted(dcid@, *src),
{
    let mut token = token_start(src);
    for i in 0..dcid.len()
        invariant
            token@ =~= token_prefix(*src) + dcid@.take(i as int),
    {
        token.push(dcid[i]);
    }
    assert(dcid@.take(dcid@.len() as int) =~= dcid@);
    token
}

/// Validates a stateless retry token.
///
/// The token must start with the string `"quiche"` and the IP address of the
/// client. The rest is the identifier that the client chose.
pub fn validate_token(src: &SocketAddr, token: &Vec<u8>) -> (r: Option<Vec<u8>>)
    ensures
        match r {
            Some(cid) => validated(*src, token@) == Some(cid@),
            None => validated(*src, token@) is None,
        },
{
    let start = token_start(src);
    if token.len() < start.len() {
        return None;
    }
    for i in 0..start.len()
        invariant
            start@ == token_prefix(*src),
            start@.len() <= token@.len(),
            forall|j: int| 0 <= j < i ==> start@[j] == token@[j],
    {
        if token[i] != start[i] {
            return None;
        }
    }
    assert(start@.is_prefix_of(token@)) by {
        assert(start@ =~= token@.subrange(0, start@.len() as int));
    }
    let mut cid: Vec<u8> = Vec::new();
    for i in start.len()..token.len()
        invariant
            start@.len() <= token@.len(),
            cid@ =~= token@.subrange(start@.len() as int, i as int),
    {
        cid.push(token[i]);
    }
    assert(cid@ =~= token@.skip(start@.len() as int));
    Some(cid)
}

/// A token is valid for the address that it was minted for, and gives back the
/// identifier that it was minted with.
pub proof fn minted_tokens_are_valid(dcid: Seq<u8>, src: SocketAddr)
    ensures
        validated(src, minted(dcid, src)) == Some(dcid),
{
    let token = minted(dcid, src);
    let start = token_prefix(src);
    assert(start =~= token.subrange(0, start.len() as int));
    assert(token.skip(start.len() as int) =~= dcid);
}

/// Only minted tokens are valid.
pub proof fn valid_tokens_are_minted(src: SocketAddr, token: Seq<u8>)
    requires
        validated(src, token) is Some,
    ensures
        token == minted(validated(src, token)->0, src),
{
    let start = token_prefix(src);
    assert(start =~= token.subrange(0, start.len() as int));
    assert(token =~= start + token.skip(start.len() as int));
}

/// A token is of no use to a client at another IP address of the same version.
pub proof fn tokens_are_bound_to_addresses(dcid: Seq<u8>, src: SocketAddr, other: SocketAddr)
    requires
        crate::addr::same_family(src, other),
        src.octets() != other.octets(),
    ensures
        validated(other, minted(dcid, src)) is None,
{
    let token = minted(dcid, src);
    if validated(other, token) is Some {
        let n = src.octets().len() as int;
        assert(other.octets().len() == n);
        assert(token.subrange(0, token_prefix(other).len() as int) =~= token_prefix(other));
        assert forall|i: int| 0 <= i < n implies src.octets()[i] == other.octets()[i] by {
            assert(token[6 + i] == src.octets()[i]);
            assert(token_prefix(other)[6 + i] == other.octets()[i]);
            assert(token.subrange(0, token_prefix(other).len() as int)[6 + i] == token[6 + i]);
        }
        assert(src.octets() =~= other.octets());
    }
}

/// The type of a packet.
#[derive(Clone, Copy, Debug, PartialEq, Eq, Structural)]
pub enum PacketType {
    Initial,
    Retry,
    Handshake,
    ZeroRtt,
    VersionNegotiation,
    Short,
}

/// What a listener reads of the header of a packet.
#[derive(Debug)]
pub struct Header {
    pub ty: PacketType,
    pub version: u32,
    /// The identifier that the client goes by.
    pub scid: Vec<u8>,
    /// The identifier that the packet is addressed to.
    pub dcid: Vec<u8>,
    pub token: Option<Vec<u8>>,
}

/// A header, in terms of sequences.
pub struct HeaderView {
    pub ty: PacketType,
    pub version: u32,
    pub scid: Seq<u8>,
    pub dcid: Seq<u8>,
    pub token: Option<Seq<u8>>,
}

impl View for Header {
    type V = HeaderView;

    open spec fn view(&self) -> HeaderView {
        HeaderView {
            ty: self.ty,
            version: self.version,
            scid: self.scid@,
            dcid: self.dcid@,
            token: match self.token {
                Some(token) => Some(token@),
                None => None,
            },
        }
    }
}

/// What a listener does with a packet.
#[derive(Debug)]
pub enum PacketAction {
    /// Ignore the packet.
    Drop,
    /// Tell the client which versions are supported.
    NegotiateVersion,
    /// Have the client come back with `token` to the identifier `scid`.
    Retry { scid: Vec<u8>, token: Vec<u8> },
    /// Accept a connection with the identifier `scid`. The client first chose
    /// `odcid`, if it was sent a retry.
    Accept { scid: Vec<u8>, odcid: Option<Vec<u8>> },
}

/// An action, in terms of sequences.
pub enum PacketActionView {
    Drop,
    NegotiateVersion,
    Retry { scid: Seq<u8>, token: Seq<u8> },
    Accept { scid: Seq<u8>, odcid: Option<Seq<u8>> },
}

impl View for PacketAction {
    type V = PacketActionView;

    open spec fn view(&self) -> PacketActionView {
        match *self {
            PacketAction::Drop => PacketActionView::Drop,
            PacketAction::NegotiateVersion => PacketActionView::NegotiateVersion,
            PacketAction::Retry { scid, token } => PacketActionView::Retry {
                scid: scid@,
                token: token@,
            },
            PacketAction::Accept { scid, odcid } => PacketActionView::Accept {
                scid: scid@,
                odcid: match odcid {
                    Some(cid) => Some(cid@),
                    None => None,
                },
            },
        }
    }
}

/// What is done with a packet from `from`, where `conn_id` is the identifier
/// for a connection that is new.
///
/// Unless retries are off, a client without a token is sent one. With a valid
/// one it is accepted under the identifier that it was told to come back to.
pub open spec fn packet_action(
    conn_id: Seq<u8>,
    hdr: HeaderView,
    no_retry: bool,
    from: SocketAddr,
) -> PacketActionView {
    let token = hdr.token->0;
    if hdr.ty != PacketType::Initial {
        PacketActionView::Drop
    } else if !crate::external::supported_version(hdr.version) {
        PacketActionView::NegotiateVersion
    } else if no_retry {
        PacketActionView::Accept { scid: conn_id, odcid: None }
    } else if token.len() == 0 {
        PacketActionView::Retry { scid: conn_id, token: minted(hdr.dcid, from) }
    } else if validated(from, token) is Some && hdr.dcid.len() == conn_id.len() {
        PacketActionView::Accept { scid: hdr.dcid, odcid: validated(from, token) }
    } else {
        PacketActionView::Drop
    }
}

/// Initial packets of supported versions come with a token, if only an empty
/// one.
pub open spec fn has_token(hdr: HeaderView) -> bool {
    hdr.ty == PacketType::Initial && crate::external::supported_version(hdr.version)
        ==> hdr.token is Some
}

fn copy_bytes(bytes: &Vec<u8>) -> (r: Vec<u8>)
    ensures
        r@ == bytes@,
{
    let mut copy: Vec<u8> = Vec::new();
    for i in 0..bytes.len()
        invariant
            copy@ =~= bytes@.take(i as int),
    {
        copy.push(bytes[i]);
    }
    assert(bytes@.take(bytes@.len() as int) =~= bytes@);
    copy
}

/// Decides what to do with a packet, given the identifier for a connection
/// that is new.
pub fn decide_packet(conn_id: Vec<u8>, hdr: &Header, no_retry: bool, from: &SocketAddr) -> (r:
    PacketAction)
    requires
        no_retry || has_token(hdr@),
    ensures
        r@ == packet_action(conn_id@, hdr@, no_retry, *from),
{
    if hdr.ty != PacketType::Initial {
        return PacketAction::Drop;
    }
    if !quiche::version_is_supported(hdr.version) {
        return PacketAction::NegotiateVersion;
    }
    if no_retry {
        return PacketAction::Accept { scid: conn_id, odcid: None };
    }
    match &hdr.token {
        None => PacketAction::Drop,
        Some(token) => {
            if token.len() == 0 {
                return PacketAction::Retry { scid: conn_id, token: mint_token(&hdr.dcid, from) };
            }
            match validate_token(from, token) {
                None => PacketAction::Drop,
                Some(odcid) => {
                    if hdr.dcid.len() != conn_id.len() {
                        PacketAction::Drop
                    } else {
                        PacketAction::Accept { scid: copy_bytes(&hdr.dcid), odcid: Some(odcid) }
                    }
                },
            }
        },
    }
}

/// The identifier that a listener gives to a connection that is new: the start
/// of a keyed digest of the one that the client chose.
pub open spec fn derived_id(seed: Seq<u8>, dcid: Seq<u8>) -> Seq<u8> {
    crate::external::hmac_sha256(seed, dcid).take(MAX_CONN_ID_LEN as int)
}

/// Derives the identifier of a connection that is new.
pub fn derive_connection_id(seed: &Vec<u8>, dcid: &Vec<u8>) -> (r: Vec<u8>)
    requires
        seed@.len() <= MAX_SIGNED_LEN,
        dcid@.len() <= MAX_SIGNED_LEN,
    ensures
        r@ == derived_id(seed@, dcid@),
        r@.len() == MAX_CONN_ID_LEN,
{
    let mut tag = hmac_sign(seed, dcid);
    tag.truncate(MAX_CONN_ID_LEN);
    assert(tag@ =~= derived_id(seed@, dcid@));
    tag
}

/// Decides what to do with a packet of an unknown connection.
pub fn handle_packet(seed: &Vec<u8>, hdr: &Header, no_retry: bool, from: &SocketAddr) -> (r:
    PacketAction)
    requires
        seed@.len() <= MAX_SIGNED_LEN,
        hdr.dcid@.len() <= MAX_SIGNED_LEN,
        no_retry || has_token(hdr@),
    ensures
        r@ == packet_action(derived_id(seed@, hdr.dcid@), hdr@, no_retry, *from),
        derived_id(seed@, hdr.dcid@).len() == MAX_CONN_ID_LEN,
        r matches PacketAction::Retry { scid, .. } ==> scid@.len() == MAX_CONN_ID_LEN,
        r matches PacketAction::Accept { scid, .. } ==> scid@.len() == MAX_CONN_ID_LEN,
{
    let conn_id = derive_connection_id(seed, &hdr.dcid);
    decide_packet(conn_id, hdr, no_retry, from)
}

/// Tells whether an Initial packet that needs a token has one.
pub fn token_present(hdr: &Header) -> (r: bool)
    ensures
        r == has_token(hdr@),
{
    let needed = hdr.ty == PacketType::Initial && quiche::version_is_supported(hdr.version);
    !needed || hdr.token.is_some()
}

/// What a listener does with a datagram.
#[derive(Debug)]
pub enum DatagramAction {
    /// Ignore the datagram.
    Drop,
    /// Tell the client of these identifiers which versions are supported.
    NegotiateVersion { scid: Vec<u8>, dcid: Vec<u8> },
    /// Have the client come back, with this packet.
    Retry { packet: Vec<u8> },
    /// Accept a connection with the identifier `scid`. The client first chose
    /// `odcid`, if it was sent a retry.
    Accept { scid: Vec<u8>, odcid: Option<Vec<u8>> },
}

/// An action, in terms of sequences.
pub enum DatagramActionView {
    Drop,
    NegotiateVersion { scid: Seq<u8>, dcid: Seq<u8> },
    Retry { packet: Seq<u8> },
    Accept { scid: Seq<u8>, odcid: Option<Seq<u8>> },
}

impl View for DatagramAction {
    type V = DatagramActionView;

    open spec fn view(&self) -> DatagramActionView {
        match *self {
            DatagramAction::Drop => DatagramActionView::Drop,
            DatagramAction::NegotiateVersion { scid, dcid } => DatagramActionView::NegotiateVersion {
                scid: scid@,
                dcid: dcid@,
            },
            DatagramAction::Retry { packet } => DatagramActionView::Retry { packet: packet@ },
            DatagramAction::Accept { scid, odcid } => DatagramActionView::Accept {
                scid: scid@,
                odcid: match odcid {
                    Some(cid) => Some(cid@),
                    None => None,
                },
            },
        }
    }
}

/// What is done with a datagram of the given header, if it has one.
pub open spec fn datagram_action(
    seed: Seq<u8>,
    header: Option<HeaderView>,
    no_retry: bool,
    from: SocketAddr,
) -> DatagramActionView {
    match header {
        None => DatagramActionView::Drop,
        Some(hdr) => match packet_action(derived_id(seed, hdr.dcid), hdr, no_retry, from) {
            PacketActionView::Drop => DatagramActionView::Drop,
            PacketActionView::NegotiateVersion => DatagramActionView::NegotiateVersion {
                scid: hdr.scid,
                dcid: hdr.dcid,
            },
            PacketActionView::Retry { scid, token } => DatagramActionView::Retry {
                packet: crate::external::retry_packet(
                    hdr.scid,
                    hdr.dcid,
                    scid,
                    token,
                    hdr.version,
                ),
            },
            PacketActionView::Accept { scid, odcid } => DatagramActionView::Accept { scid, odcid },
        },
    }
}

/// Decides what to do with a datagram of an unknown connection, and writes the
/// retry packet if there is to be one.
pub fn handle_datagram(seed: &Vec<u8>, datagram: &Vec<u8>, no_retry: bool, from: &SocketAddr) -> (r:
    DatagramAction)
    requires
        seed@.len() <= MAX_SIGNED_LEN,
    ensures
        r@ == datagram_action(
            seed@,
            crate::external::wire_header(datagram@, MAX_CONN_ID_LEN),
            no_retry,
            *from,
        ),
        crate::external::wire_header(datagram@, MAX_CONN_ID_LEN) matches Some(hdr) ==> derived_id(
            seed@,
            hdr.dcid,
        ).len() == MAX_CONN_ID_LEN,
        r matches DatagramAction::NegotiateVersion { scid, dcid } ==> scid@.len() <= 255
            && dcid@.len() <= 255,
        r matches DatagramAction::Accept { scid, .. } ==> scid@.len() == MAX_CONN_ID_LEN,
{
    let hdr = match parse_header(datagram, MAX_CONN_ID_LEN) {
        Ok(hdr) => hdr,
        Err(_) => {
            return DatagramAction::Drop;
        },
    };
    match handle_packet(seed, &hdr, no_retry, from) {
        PacketAction::Drop => DatagramAction::Drop,
        PacketAction::NegotiateVersion => DatagramAction::NegotiateVersion {
            scid: hdr.scid,
            dcid: hdr.dcid,
        },
        PacketAction::Retry { scid, token } => {
            assert(token@.len() == token_prefix(*from).len() + hdr.dcid@.len());
            assert(token_prefix(*from).len() <= 22);
            match write_retry(&hdr.scid, &hdr.dcid, &scid, &token, hdr.version, MAX_BUF_SIZE) {
                Ok(packet) => DatagramAction::Retry { packet },
                // The packet fits the buffer, so that this does not happen.
                Err(_) => DatagramAction::Drop,
            }
        },
        PacketAction::Accept { scid, odcid } => DatagramAction::Accept { scid, odcid },
    }
}

/// `packet` is what a client is answered for `action`, if it is answered.
pub open spec fn answers(action: DatagramActionView, packet: Option<Seq<u8>>) -> bool {
    match action {
        DatagramActionView::Drop | DatagramActionView::Accept { .. } => packet is None,
        DatagramActionView::NegotiateVersion { scid, dcid } => if 1
            + crate::external::negotiation_body(scid, dcid).len() <= MAX_BUF_SIZE {
            packet matches Some(p) && crate::external::is_negotiation(p, scid, dcid)
        } else {
            packet is None
        },
        DatagramActionView::Retry { packet: retry } => packet == Some(retry),
    }
}

/// Writes the packet that answers a datagram: the supported versions, or the
/// retry. A list of versions that does not fit a datagram is not written.
pub fn answer_packet(action: DatagramAction) -> (r: Option<Vec<u8>>)
    ensures
        answers(
            action@,
            match r {
                Some(packet) => Some(packet@),
                None => None,
            },
        ),
{
    match action {
        DatagramAction::Drop | DatagramAction::Accept { .. } => None,
        DatagramAction::NegotiateVersion { scid, dcid } => {
            match write_negotiation(&scid, &dcid, MAX_BUF_SIZE) {
                Ok(packet) => Some(packet),
                Err(_) => None,
            }
        },
        DatagramAction::Retry { packet } => Some(packet),
    }
}

/// Identifiers that come out of a header leave room for the versions, so that
/// the client is answered: with the identifiers exchanged, each behind its length.
pub proof fn versions_fit_a_datagram(scid: Seq<u8>, dcid: Seq<u8>, packet: Option<Seq<u8>>)
    requires
        scid.len() <= 255,
        dcid.len() <= 255,
        answers(DatagramActionView::NegotiateVersion { scid, dcid }, packet),
    ensures
        ({
            let p = packet->0;
            let n = scid.len() as int;
            let m = dcid.len() as int;
            &&& packet is Some
            &&& p.len() == 23 + n + m
            &&& p[5] == n
            &&& p.subrange(6, 6 + n) == scid
            &&& p[6 + n] == m
            &&& p.subrange(7 + n, 7 + n + m) == dcid
        }),
{
    let n = scid.len() as int;
    let m = dcid.len() as int;
    let body = crate::external::negotiation_body(scid, dcid);
    let p = packet->0;
    assert(body.len() == 22 + scid.len() + dcid.len());
    assert(p.len() == 1 + body.len()) by {
        assert(p.skip(1).len() == p.len() - 1);
    }
    assert forall|i: int| 0 <= i < body.len() implies p[i + 1] == body[i] by {
        assert(p.skip(1)[i] == p[i + 1]);
    }
    assert(p.skip(1)[4] == p[5]);
    assert(p[5 + n + 1] == body[5 + n]);
    assert forall|i: int| 0 <= i < n implies p[6 + i] == scid[i] by {
        assert(p[5 + i + 1] == body[5 + i]);
    }
    assert forall|i: int| 0 <= i < m implies p[7 + n + i] == dcid[i] by {
        assert(p[6 + n + i + 1] == body[6 + n + i]);
    }
    assert(p.subrange(6, 6 + n) =~= scid);
    assert(p.subrange(7 + n, 7 + n + m) =~= dcid);
}

/// A client finds in a retry the identifier that it goes by, the one to come back
/// to, and the token to come back with.
pub proof fn retries_carry_identifier_and_token(
    scid: Seq<u8>,
    dcid: Seq<u8>,
    new_scid: Seq<u8>,
    token: Seq<u8>,
    version: u32,
)
    requires
        scid.len() <= 255,
        new_scid.len() <= 255,
    ensures
        ({
            let p = crate::external::retry_packet(scid, dcid, new_scid, token, version);
            let n = scid.len() as int;
            let m = new_scid.len() as int;
            &&& p[0] == 0xf0
            &&& p.subrange(1, 5) == crate::external::version_bytes(version)
            &&& p[5] == n
            &&& p.subrange(6, 6 + n) == scid
            &&& p[6 + n] == m
            &&& p.subrange(7 + n, 7 + n + m) == new_scid
            &&& p.subrange(7 + n + m, 7 + n + m + token.len()) == token
        }),
{
    let p = crate::external::retry_packet(scid, dcid, new_scid, token, version);
    let n = scid.len() as int;
    let m = new_scid.len() as int;
    assert(p.subrange(1, 5) =~= crate::external::version_bytes(version));
    assert(p.subrange(6, 6 + n) =~= scid);
    assert(p.subrange(7 + n, 7 + n + m) =~= new_scid);
    assert(p.subrange(7 + n + m, 7 + n + m + token.len()) =~= token);
}

/// A client that was sent a retry is accepted when it comes back: under the
/// identifier of the retry, and with the one that it chose first restored.
pub proof fn retry_leads_to_accept(
    conn_id: Seq<u8>,
    first: HeaderView,
    from: SocketAddr,
    later_conn_id: Seq<u8>,
    second: HeaderView,
    later_from: SocketAddr,
)
    requires
        packet_action(conn_id, first, false, from) is Retry,
        later_conn_id.len() == conn_id.len(),
        later_from.octets() == from.octets(),
        second.ty == PacketType::Initial,
        crate::external::supported_version(second.version),
        packet_action(conn_id, first, false, from) == (PacketActionView::Retry {
            scid: second.dcid,
            token: second.token->0,
        }),
    ensures
        packet_action(later_conn_id, second, false, later_from) == (PacketActionView::Accept {
            scid: second.dcid,
            odcid: Some(first.dcid),
        }),
{
    minted_tokens_are_valid(first.dcid, later_from);
    assert(minted(first.dcid, later_from) == minted(first.dcid, from));
    assert(token_prefix(from).len() >= 6);
}

/// Where retries are on, whoever is accepted holds a token that was minted for
/// its address.
pub proof fn accepted_clients_hold_tokens(
    conn_id: Seq<u8>,
    hdr: HeaderView,
    from: SocketAddr,
    scid: Seq<u8>,
    odcid: Option<Seq<u8>>,
)
    requires
        packet_action(conn_id, hdr, false, from) == (PacketActionView::Accept { scid, odcid }),
    ensures
        odcid is Some,
        hdr.token->0 == minted(odcid->0, from),
        scid == hdr.dcid,
        scid.len() == conn_id.len(),
{
    valid_tokens_are_minted(from, hdr.token->0);
}

/// Where retries are on, a datagram starts a connection only if it is an Initial
/// packet of a supported version with a token that was minted for its origin.
pub proof fn accepted_datagrams_hold_tokens(
    seed: Seq<u8>,
    header: Option<HeaderView>,
    from: SocketAddr,
)
    requires
        datagram_action(seed, header, false, from) is Accept,
    ensures
        header is Some,
        header->0.ty == PacketType::Initial,
        crate::external::supported_version(header->0.version),
        datagram_action(seed, header, false, from)->Accept_odcid is Some,
        header->0.token->0 == minted(
            datagram_action(seed, header, false, from)->Accept_odcid->0,
            from,
        ),
{
    let hdr = header->0;
    let action = packet_action(derived_id(seed, hdr.dcid), hdr, false, from);
    accepted_clients_hold_tokens(
        derived_id(seed, hdr.dcid),
        hdr,
        from,
        action->Accept_scid,
        action->odcid,
    );
}

/// What the loop of a listener asks for.
#[derive(Clone, Copy, Debug, PartialEq, Eq, Structural)]
pub enum ListenRequest {
    /// Wait for the socket to become readable.
    Poll,
    /// Read a datagram from the socket.
    RecvFrom,
    /// Read the header of the datagram and decide what to do.
    Examine { len: usize, from: SocketAddr },
    /// Send the answer to the datagram: a version negotiation or a retry.
    Answer { to: SocketAddr },
    /// Accept the connection and feed the datagram to it.
    Accept { len: usize, from: SocketAddr },
    /// There is a new connection.
    Return,
}

/// What became of a datagram.
#[derive(Clone, Copy, Debug, PartialEq, Eq, Structural)]
pub enum Verdict {
    Drop,
    Answer,
    Accept,
}

/// The answers to a `ListenRequest`.
#[derive(Clone, Copy, Debug, PartialEq, Eq, Structural)]
pub enum ListenReply {
    /// The request was carried out.
    Done,
    /// The length and the origin of a datagram, if there is one.
    Datagram(Option<Datagram>),
    Verdict(Verdict),
    Socket(SocketSend),
    /// Whether the connection took the datagram.
    Taken(bool),
}

/// The length and the origin of a datagram.
#[derive(Clone, Copy, Debug, PartialEq, Eq, Structural)]
pub struct Datagram {
    pub len: usize,
    pub from: SocketAddr,
}

/// Waits for a packet that a connection can be made of.
#[derive(Clone, Copy, Debug, PartialEq, Eq, Structural)]
pub struct ListenLoop {
    pub datagram: Option<Datagram>,
    pub request: ListenRequest,
}

impl ListenLoop {
    pub open spec fn with(self, request: ListenRequest) -> ListenLoop {
        ListenLoop { request, ..self }
    }

    /// The state in which a listener starts.
    pub open spec fn start() -> ListenLoop {
        ListenLoop { datagram: None, request: ListenRequest::Poll }
    }

    /// The datagram that is examined fits the buffer.
    pub open spec fn well_formed(self) -> bool {
        match self.request {
            ListenRequest::Examine { len, from } | ListenRequest::Accept { len, from } => {
                &&& self.datagram == Some(Datagram { len, from })
                &&& len <= MAX_BUF_SIZE
            },
            ListenRequest::Answer { to } => self.datagram matches Some(d) && d.from == to,
            _ => true,
        }
    }
}

impl Machine for ListenLoop {
    type Reply = ListenReply;

    open spec fn accepts(self, reply: ListenReply) -> bool {
        match self.request {
            ListenRequest::Poll => reply is Done,
            ListenRequest::RecvFrom => reply matches ListenReply::Datagram(d) && (d matches Some(d)
                ==> d.len <= MAX_BUF_SIZE),
            ListenRequest::Examine { .. } => reply is Verdict,
            // A socket that fails otherwise than by blocking ends the server.
            ListenRequest::Answer { .. } => reply matches ListenReply::Socket(sent) && !(sent
                is Failed),
            ListenRequest::Accept { .. } => reply is Taken,
            ListenRequest::Return => false,
        }
    }

    open spec fn next(self, reply: ListenReply) -> ListenLoop {
        match (self.request, reply) {
            (ListenRequest::RecvFrom, ListenReply::Datagram(None)) => self.with(
                ListenRequest::Poll,
            ),
            (ListenRequest::RecvFrom, ListenReply::Datagram(Some(d))) => ListenLoop {
                datagram: Some(d),
                request: ListenRequest::Examine { len: d.len, from: d.from },
            },
            (
                ListenRequest::Examine { from, .. },
                ListenReply::Verdict(Verdict::Answer),
            ) => self.with(ListenRequest::Answer { to: from }),
            (
                ListenRequest::Examine { len, from },
                ListenReply::Verdict(Verdict::Accept),
            ) => self.with(ListenRequest::Accept { len, from }),
            (ListenRequest::Answer { .. }, ListenReply::Socket(SocketSend::WouldBlock)) => self.with(
                ListenRequest::Poll,
            ),
            (ListenRequest::Accept { .. }, ListenReply::Taken(true)) => self.with(
                ListenRequest::Return,
            ),
            _ => self.with(ListenRequest::RecvFrom),
        }
    }
}

impl DatagramActionView {
    /// What becomes of a datagram under this action.
    pub open spec fn comes_to(self) -> Verdict {
        match self {
            DatagramActionView::Drop => Verdict::Drop,
            DatagramActionView::NegotiateVersion { .. } => Verdict::Answer,
            DatagramActionView::Retry { .. } => Verdict::Answer,
            DatagramActionView::Accept { .. } => Verdict::Accept,
        }
    }
}

impl DatagramAction {
    /// What becomes of the datagram under this action.
    pub fn verdict(&self) -> (r: Verdict)
        ensures
            r == self@.comes_to(),
    {
        match self {
            DatagramAction::Drop => Verdict::Drop,
            DatagramAction::NegotiateVersion { .. } => Verdict::Answer,
            DatagramAction::Retry { .. } => Verdict::Answer,
            DatagramAction::Accept { .. } => Verdict::Accept,
        }
    }
}

impl ListenLoop {
    pub fn new() -> (r: ListenLoop)
        ensures
            r == ListenLoop::start(),
            r.well_formed(),
    {
        ListenLoop { datagram: None, request: ListenRequest::Poll }
    }

    /// Tells whether `reply` answers the pending request.
    pub fn expects(&self, reply: &ListenReply) -> (r: bool)
        ensures
            r == self.accepts(*reply),
    {
        match (self.request, reply) {
            (ListenRequest::Poll, ListenReply::Done) => true,
            (ListenRequest::RecvFrom, ListenReply::Datagram(Some(d))) => d.len <= MAX_BUF_SIZE,
            (ListenRequest::RecvFrom, ListenReply::Datagram(None)) => true,
            (ListenRequest::Examine { .. }, ListenReply::Verdict(_)) => true,
            (ListenRequest::Answer { .. }, ListenReply::Socket(SocketSend::Failed)) => false,
            (ListenRequest::Answer { .. }, ListenReply::Socket(_)) => true,
            (ListenRequest::Accept { .. }, ListenReply::Taken(_)) => true,
            _ => false,
        }
    }

    /// Takes the answer to the pending request.
    pub fn advance(&mut self, reply: ListenReply)
        requires
            old(self).accepts(reply),
            old(self).well_formed(),
        ensures
            *final(self) == old(self).next(reply),
            final(self).well_formed(),
    {
        self.request = match (self.request, reply) {
            (ListenRequest::RecvFrom, ListenReply::Datagram(received)) => match received {
                None => ListenRequest::Poll,
                Some(d) => {
                    self.datagram = Some(d);
                    ListenRequest::Examine { len: d.len, from: d.from }
                },
            },
            (ListenRequest::Examine { len, from }, ListenReply::Verdict(verdict)) => match verdict {
                Verdict::Drop => ListenRequest::RecvFrom,
                Verdict::Answer => ListenRequest::Answer { to: from },
                Verdict::Accept => ListenRequest::Accept { len, from },
            },
            (ListenRequest::Answer { .. }, ListenReply::Socket(SocketSend::WouldBlock)) => {
                ListenRequest::Poll
            },
            (ListenRequest::Accept { .. }, ListenReply::Taken(true)) => ListenRequest::Return,
            _ => ListenRequest::RecvFrom,
        };
    }
}

/// The datagram that came last.
pub open spec fn last_datagram(replies: Seq<ListenReply>) -> Option<Datagram>
    decreases replies.len(),
{
    if replies.len() == 0 {
        None
    } else {
        match replies.last() {
            ListenReply::Datagram(Some(d)) => Some(d),
            _ => last_datagram(replies.drop_last()),
        }
    }
}

/// What led to the state that a listener is in: answers go to where the last
/// datagram came from, and the listener returns with the connection that took
/// that datagram.
pub proof fn listener_follows_its_replies(replies: Seq<ListenReply>)
    requires
        crate::machine::admits(ListenLoop::start(), replies),
    ensures
        ({
            let m = crate::machine::run(ListenLoop::start(), replies);
            let last = replies.last();
            let begun = replies.len() > 0;
            &&& m.well_formed()
            &&& m.datagram == last_datagram(replies)
            &&& m.request is Answer <==> begun && last == ListenReply::Verdict(Verdict::Answer)
            &&& m.request is Accept <==> begun && last == ListenReply::Verdict(Verdict::Accept)
            &&& m.request is Return <==> begun && last == ListenReply::Taken(true)
            &&& m.request matches ListenRequest::Answer { to } ==> last_datagram(replies) is Some
                && last_datagram(replies)->0.from == to
            &&& m.request matches ListenRequest::Accept { len, from } ==> last_datagram(replies)
                == Some(Datagram { len, from })
        }),
    decreases replies.len(),
{
    if replies.len() > 0 {
        listener_follows_its_replies(replies.drop_last());
    }
}

/// The lengths and origins of the datagrams that came in, in order.
pub open spec fn datagrams_read(replies: Seq<ListenReply>) -> Seq<Datagram>
    decreases replies.len(),
{
    if replies.len() == 0 {
        seq![]
    } else {
        let before = datagrams_read(replies.drop_last());
        match replies.last() {
            ListenReply::Datagram(Some(d)) => before.push(d),
            _ => before,
        }
    }
}

/// For each datagram that came in, whether the connection that was made of it
/// took it, if one was made.
pub open spec fn connections_made(replies: Seq<ListenReply>) -> Seq<Option<bool>>
    decreases replies.len(),
{
    if replies.len() == 0 {
        seq![]
    } else {
        let before = connections_made(replies.drop_last());
        match replies.last() {
            ListenReply::Datagram(Some(_)) => before.push(None),
            ListenReply::Taken(taken) => before.update(before.len() - 1, Some(taken)),
            _ => before,
        }
    }
}

/// What a listener does with the datagram at `k`, where `contents` holds the bytes
/// of the datagrams in order.
pub open spec fn action_at(
    seed: Seq<u8>,
    no_retry: bool,
    contents: Seq<Seq<u8>>,
    replies: Seq<ListenReply>,
    k: int,
) -> DatagramActionView {
    datagram_action(
        seed,
        crate::external::wire_header(contents[k], MAX_CONN_ID_LEN),
        no_retry,
        datagrams_read(replies)[k].from,
    )
}

/// Each verdict is that of the datagram which came last.
pub open spec fn verdicts_agree(
    seed: Seq<u8>,
    no_retry: bool,
    contents: Seq<Seq<u8>>,
    replies: Seq<ListenReply>,
) -> bool
    decreases replies.len(),
{
    replies.len() == 0 || {
        let before = replies.drop_last();
        &&& verdicts_agree(seed, no_retry, contents, before)
        &&& replies.last() matches ListenReply::Verdict(verdict) ==> verdict == action_at(
            seed,
            no_retry,
            contents,
            before,
            datagrams_read(before).len() - 1,
        ).comes_to()
    }
}

/// A listener makes a connection of each datagram that is to be accepted, and of
/// no other. It returns with the first connection that takes its datagram: every
/// datagram before was not to be accepted, or was refused by its connection.
pub proof fn listener_returns_with_the_first_connection(
    seed: Seq<u8>,
    no_retry: bool,
    contents: Seq<Seq<u8>>,
    replies: Seq<ListenReply>,
)
    requires
        crate::machine::admits(ListenLoop::start(), replies),
        verdicts_agree(seed, no_retry, contents, replies),
    ensures
        ({
            let m = crate::machine::run(ListenLoop::start(), replies);
            let made = connections_made(replies);
            let n = datagrams_read(replies).len() as int;
            let pending = m.request is Examine || m.request is Accept;
            &&& made.len() == n
            &&& m.request is Examine || m.request is Answer || m.request is Accept
                || m.request is Return ==> n > 0 && m.datagram == Some(
                datagrams_read(replies)[n - 1],
            )
            &&& m.request is Answer ==> action_at(
                seed,
                no_retry,
                contents,
                replies,
                n - 1,
            ).comes_to() == Verdict::Answer
            &&& m.request is Accept ==> action_at(
                seed,
                no_retry,
                contents,
                replies,
                n - 1,
            ) is Accept
            &&& forall|k: int|
                0 <= k < n && !(pending && k == n - 1) ==> (#[trigger] made[k] is Some <==> action_at(
                    seed,
                    no_retry,
                    contents,
                    replies,
                    k,
                ) is Accept)
            &&& pending ==> made[n - 1] is None
            &&& forall|k: int|
                0 <= k < n ==> (#[trigger] made[k] == Some(true) <==> k == n - 1 && m.request is Return)
        }),
    decreases replies.len(),
{
    listener_follows_its_replies(replies);
    if replies.len() > 0 {
        let before = replies.drop_last();
        listener_follows_its_replies(before);
        listener_returns_with_the_first_connection(seed, no_retry, contents, before);
        let n = datagrams_read(before).len() as int;
        assert forall|k: int| 0 <= k < n implies action_at(
            seed,
            no_retry,
            contents,
            replies,
            k,
        ) == #[trigger] action_at(seed, no_retry, contents, before, k) by {}
    }
}

impl ListenLoop {
    /// Where an answer is being sent, if one is.
    pub open spec fn answer_to() -> spec_fn(ListenLoop) -> Option<SocketAddr> {
        |m: ListenLoop|
            match m.request {
                ListenRequest::Answer { to } => Some(to),
                _ => None,
            }
    }
}

/// The origins of the datagrams that are to be answered, in order.
pub open spec fn answers_due(replies: Seq<ListenReply>) -> Seq<SocketAddr>
    decreases replies.len(),
{
    if replies.len() == 0 {
        seq![]
    } else {
        let before = answers_due(replies.drop_last());
        match replies.last() {
            ListenReply::Verdict(Verdict::Answer) => before.push(
                last_datagram(replies.drop_last())->0.from,
            ),
            _ => before,
        }
    }
}

/// Each datagram that is to be answered is answered once, to where it came from.
pub proof fn listener_answers_once(replies: Seq<ListenReply>)
    requires
        crate::machine::admits(ListenLoop::start(), replies),
    ensures
        crate::machine::issued(ListenLoop::start(), replies, ListenLoop::answer_to())
            == answers_due(replies),
    decreases replies.len(),
{
    listener_follows_its_replies(replies);
    if replies.len() > 0 {
        listener_follows_its_replies(replies.drop_last());
        listener_answers_once(replies.drop_last());
    }
}

/// A listener waits for the socket and reads until it blocks. It examines what comes in,
/// and drops it, answers it or makes a connection of it. When the socket blocks on an
/// answer it waits again. A connection that does not take its datagram is given up.
pub proof fn listeners_go_in_order(replies: Seq<ListenReply>)
    requires
        crate::machine::admits(ListenLoop::start(), replies),
    ensures
        ({
            let start = ListenLoop::start();
            let asked = crate::machine::run(start, replies.drop_last()).request;
            let last = replies.last();
            let next = crate::machine::run(start, replies).request;
            &&& replies.len() == 0 ==> next == ListenRequest::Poll
            &&& replies.len() > 0 ==> {
                &&& asked is Poll ==> next == ListenRequest::RecvFrom
                &&& asked is RecvFrom ==> next == match last {
                    ListenReply::Datagram(Some(d)) => ListenRequest::Examine {
                        len: d.len,
                        from: d.from,
                    },
                    _ => ListenRequest::Poll,
                }
                &&& asked matches ListenRequest::Examine { len, from } ==> next == match last {
                    ListenReply::Verdict(Verdict::Answer) => ListenRequest::Answer { to: from },
                    ListenReply::Verdict(Verdict::Accept) => ListenRequest::Accept { len, from },
                    _ => ListenRequest::RecvFrom,
                }
                &&& asked is Answer ==> next == if last == ListenReply::Socket(
                    SocketSend::WouldBlock,
                ) {
                    ListenRequest::Poll
                } else {
                    ListenRequest::RecvFrom
                }
                &&& asked is Accept ==> next == if last == ListenReply::Taken(true) {
                    ListenRequest::Return
                } else {
                    ListenRequest::RecvFrom
                }
            }
        }),
{
}

/// A token is the text "quiche", the bytes of the IP address and the identifier. It is
/// validated for an address if and only if it starts with that text and the bytes of that
/// address, and what is left is the identifier.
pub proof fn tokens_are_text_address_and_identifier(
    dcid: Seq<u8>,
    src: SocketAddr,
    token: Seq<u8>,
)
    ensures
        minted(dcid, src) == "quiche"@.map_values(|c: char| c as u8) + src.octets() + dcid,
        validated(src, token) matches Some(id) ==> token == "quiche"@.map_values(
            |c: char| c as u8,
        ) + src.octets() + id,
        validated(src, minted(dcid, src)) == Some(dcid),
        validated(src, token) is None ==> token != minted(dcid, src),
{
    reveal_strlit("quiche");
    assert(token_tag() =~= "quiche"@.map_values(|c: char| c as u8));
    minted_tokens_are_valid(dcid, src);
    if validated(src, token) is Some {
        valid_tokens_are_minted(src, token);
    }
}

/// What becomes of a packet, told by its header. Only Initial packets matter. One of an
/// unsupported version is answered with the supported ones. Without retries every other one
/// starts a connection under the derived identifier. With retries one without a token is
/// answered with a token for its identifier and its origin. One with a token starts a
/// connection if and only if the token was minted for its origin and the identifier that it
/// came to is as long as a derived one.
pub proof fn packets_get_what_they_ask_for(
    conn_id: Seq<u8>,
    hdr: HeaderView,
    no_retry: bool,
    from: SocketAddr,
    odcid: Seq<u8>,
)
    ensures
        ({
            let action = packet_action(conn_id, hdr, no_retry, from);
            let initial = hdr.ty == PacketType::Initial;
            let supported = crate::external::supported_version(hdr.version);
            let token = hdr.token->0;
            let ours = token == minted(odcid, from);
            &&& !initial ==> action is Drop
            &&& action is NegotiateVersion <==> initial && !supported
            &&& initial && supported && no_retry ==> action == (PacketActionView::Accept {
                scid: conn_id,
                odcid: None,
            })
            &&& initial && supported && !no_retry && token.len() == 0 ==> action
                == (PacketActionView::Retry { scid: conn_id, token: minted(hdr.dcid, from) })
            &&& initial && supported && !no_retry && ours && hdr.dcid.len() == conn_id.len()
                ==> action == (PacketActionView::Accept { scid: hdr.dcid, odcid: Some(odcid) })
            &&& initial && supported && !no_retry && token.len() > 0 && hdr.dcid.len()
                != conn_id.len() ==> action is Drop
            &&& action is Retry ==> initial && supported && !no_retry && token.len() == 0
            &&& action matches PacketActionView::Accept { odcid: first, .. } ==> initial
                && supported && (no_retry || (first is Some && token == minted(first->0, from)))
        }),
{
    minted_tokens_are_valid(odcid, from);
    assert(token_prefix(from).len() >= 6);
    if validated(from, hdr.token->0) is Some {
        valid_tokens_are_minted(from, hdr.token->0);
    }
}

/// What becomes of a datagram is what becomes of the packet of its header, under the identifier
/// that is derived from the one it came to: the first 20 bytes of its keyed digest. Without a
/// header it is dropped. An answer is for the identifiers of the header.
pub proof fn datagrams_get_what_their_headers_ask_for(
    seed: Seq<u8>,
    hdr: HeaderView,
    no_retry: bool,
    from: SocketAddr,
)
    requires
        crate::external::hmac_sha256(seed, hdr.dcid).len() == 32,
    ensures
        ({
            let id = crate::external::hmac_sha256(seed, hdr.dcid).subrange(0, 20);
            let action = datagram_action(seed, Some(hdr), no_retry, from);
            &&& datagram_action(seed, None, no_retry, from) is Drop
            &&& derived_id(seed, hdr.dcid) == id
            &&& match packet_action(id, hdr, no_retry, from) {
                PacketActionView::Drop => action is Drop && action.comes_to() == Verdict::Drop,
                PacketActionView::NegotiateVersion => action
                    == (DatagramActionView::NegotiateVersion { scid: hdr.scid, dcid: hdr.dcid })
                    && action.comes_to() == Verdict::Answer,
                PacketActionView::Retry { scid, token } => action == (DatagramActionView::Retry {
                    packet: crate::external::retry_packet(
                        hdr.scid,
                        hdr.dcid,
                        scid,
                        token,
                        hdr.version,
                    ),
                }) && action.comes_to() == Verdict::Answer,
                PacketActionView::Accept { scid, odcid } => action
                    == (DatagramActionView::Accept { scid, odcid }) && action.comes_to()
                    == Verdict::Accept,
            }
        }),
{
    let id = crate::external::hmac_sha256(seed, hdr.dcid).subrange(0, 20);
    assert(derived_id(seed, hdr.dcid) =~= id);
}

/// An action is answered if and only if it comes to an answer: a retry with the packet that it
/// holds, and a version negotiation with the four supported versions behind the two identifiers.
pub proof fn answers_are_for_those_who_get_one(
    action: DatagramActionView,
    packet: Option<Seq<u8>>,
)
    requires
        answers(action, packet),
        action matches DatagramActionView::NegotiateVersion { scid, dcid } ==> scid.len() <= 255
            && dcid.len() <= 255,
    ensures
        packet is Some <==> action.comes_to() == Verdict::Answer,
        action matches DatagramActionView::Retry { packet: retry } ==> packet == Some(retry),
        action matches DatagramActionView::NegotiateVersion { scid, dcid } ==> {
            let p = packet->0;
            let n = p.len() as int;
            &&& n == 23 + scid.len() + dcid.len()
            &&& p.subrange(n - 16, n - 12) == seq![0u8, 0, 0, 1]
            &&& p.subrange(n - 12, n - 8) == seq![0xffu8, 0, 0, 0x1d]
            &&& p.subrange(n - 8, n - 4) == seq![0xffu8, 0, 0, 0x1c]
            &&& p.subrange(n - 4, n) == seq![0xffu8, 0, 0, 0x1b]
        },
{
    if let DatagramActionView::NegotiateVersion { scid, dcid } = action {
        versions_fit_a_datagram(scid, dcid, packet);
        let p = packet->0;
        let n = p.len() as int;
        let body = crate::external::negotiation_body(scid, dcid);
        assert forall|i: int| 0 <= i < body.len() implies p[i + 1] == body[i] by {
            assert(p.skip(1)[i] == p[i + 1]);
        }
        assert forall|i: int| 0 <= i < 16 implies #[trigger] p[n - 16 + i] == body[n - 17 + i] by {
            assert(p[n - 17 + i + 1] == body[n - 17 + i]);
        }
        assert(p.subrange(n - 16, n - 12) =~= seq![0u8, 0, 0, 1]) by {
            assert(p[n - 16 + 0] == 0 && p[n - 16 + 1] == 0 && p[n - 16 + 2] == 0 && p[n - 16 + 3]
                == 1);
        }
        assert(p.subrange(n - 12, n - 8) =~= seq![0xffu8, 0, 0, 0x1d]) by {
            assert(p[n - 16 + 4] == 0xff && p[n - 16 + 5] == 0 && p[n - 16 + 6] == 0 && p[n - 16
                + 7] == 0x1d);
        }
        assert(p.subrange(n - 8, n - 4) =~= seq![0xffu8, 0, 0, 0x1c]) by {
            assert(p[n - 16 + 8] == 0xff && p[n - 16 + 9] == 0 && p[n - 16 + 10] == 0 && p[n - 16
                + 11] == 0x1c);
        }
        assert(p.subrange(n - 4, n) =~= seq![0xffu8, 0, 0, 0x1b]) by {
            assert(p[n - 16 + 12] == 0xff && p[n - 16 + 13] == 0 && p[n - 16 + 14] == 0 && p[n - 16
                + 15] == 0x1b);
        }
    }
}

/// Every answer of the right kind is taken, whatever it says, and none of another kind. A datagram
/// must fit the buffer, and a socket must not fail.
pub proof fn listeners_take_every_answer(m: ListenLoop, reply: ListenReply)
    ensures
        m.request is Poll ==> (m.accepts(reply) <==> reply is Done),
        m.request is RecvFrom ==> (m.accepts(reply) <==> match reply {
            ListenReply::Datagram(Some(d)) => d.len <= 65507,
            ListenReply::Datagram(None) => true,
            _ => false,
        }),
        m.request is Examine ==> (m.accepts(reply) <==> reply is Verdict),
        m.request is Answer ==> (m.accepts(reply) <==> reply is Socket && reply
            != ListenReply::Socket(SocketSend::Failed)),
        m.request is Accept ==> (m.accepts(reply) <==> reply is Taken),
        m.request is Return ==> !m.accepts(reply),
{
}

} // verus!
