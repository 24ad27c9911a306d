//! The UDP header of a relayed packet and its rewrite.
//!
//! A UDP header is four 16-bit fields in network byte order: source port,
//! destination port, length (header and payload) and checksum. When the relay
//! turns a datagram into a channel-data message, or back, the ports and the
//! length change, and four bytes of channel-data header (channel number and
//! length of the data) appear in front of the payload, or disappear from it.
use vstd::prelude::*;

use crate::checksum::{
    cancel, internet_checksum, lemma_congruent_shift, lemma_fold_of_word, lemma_fold_sum,
    lemma_fold_unique, lemma_ones_add_is_fold, lemma_word_sum_concat, ones_fold, ones_not, replaces,
    word_sum, ChecksumUpdate,
};
use crate::error::Error;
use crate::ref_mut_at::{in_bounds, ref_mut_at};

verus! {

/// Size of an Ethernet header in bytes.
pub const ETH_HDR_LEN: usize = 14;

/// Size of a UDP header in bytes.
pub const UDP_HDR_LEN: usize = 8;

/// Size of a channel-data header in bytes: channel number and data length.
pub const CHANNEL_DATA_HEADER_LEN: u16 = 4;

/// The fields of a UDP header, as numbers.
pub ghost struct UdpFields {
    pub src: u16,
    pub dst: u16,
    pub len: u16,
    pub check: u16,
}

/// The number that two bytes in network byte order stand for.
pub open spec fn be_u16(high: u8, low: u8) -> u16 {
    (high * 256 + low) as u16
}

/// The first of the two bytes that `value` is written as.
pub open spec fn high_byte(value: u16) -> u8 {
    (value / 256) as u8
}

/// The second of the two bytes that `value` is written as.
pub open spec fn low_byte(value: u16) -> u8 {
    (value % 256) as u8
}

/// The fields that the eight bytes of a UDP header hold.
pub open spec fn decode(bytes: Seq<u8>) -> UdpFields
    recommends
        bytes.len() == UDP_HDR_LEN,
{
    UdpFields {
        src: be_u16(bytes[0], bytes[1]),
        dst: be_u16(bytes[2], bytes[3]),
        len: be_u16(bytes[4], bytes[5]),
        check: be_u16(bytes[6], bytes[7]),
    }
}

/// The eight bytes that a UDP header with the given fields is written as.
pub open spec fn encode(fields: UdpFields) -> Seq<u8> {
    seq![
        high_byte(fields.src),
        low_byte(fields.src),
        high_byte(fields.dst),
        low_byte(fields.dst),
        high_byte(fields.len),
        low_byte(fields.len),
        high_byte(fields.check),
        low_byte(fields.check),
    ]
}

/// The sum of what the channel-data header contributes to the checksum when
/// the length changes from `len` to `new_len`.
///
/// A packet that grows has gained the channel-data header: its two words are
/// added. Otherwise it has lost the header: their complements are added.
/// A channel-data rewrite always changes the length by
/// [`CHANNEL_DATA_HEADER_LEN`], see [`is_channel_data_rewrite`].
pub open spec fn framing_sum(len: u16, new_len: u16, channel_number: u16, channel_data_len: u16) -> nat {
    if new_len > len {
        (channel_number + channel_data_len) as nat
    } else {
        (ones_not(channel_number) + ones_not(channel_data_len)) as nat
    }
}

/// Whether a change of the length from `len` to `new_len` is what adding or
/// removing a channel-data header does.
pub open spec fn is_channel_data_rewrite(len: u16, new_len: u16) -> bool {
    new_len == len + CHANNEL_DATA_HEADER_LEN || len == new_len + CHANNEL_DATA_HEADER_LEN
}

/// The checksum of a rewritten header.
///
/// To the complement of the old checksum are added: what changed in the
/// addresses of the pseudo-header (`pseudo_header`); the complement of the
/// old length and the new length, twice, since the length is part of the
/// pseudo-header and of the header; the channel-data header that framing
/// added or removed; the complements of the old ports and the new ports.
/// The result is the complement of the fold of that sum.
pub open spec fn updated_checksum(
    old: UdpFields,
    pseudo_header: u16,
    new_src: u16,
    new_dst: u16,
    new_len: u16,
    channel_number: u16,
    channel_data_len: u16,
) -> u16 {
    ones_not(
        ones_fold(
            (ones_not(old.check) + pseudo_header + ones_not(old.len) + new_len + framing_sum(
                old.len,
                new_len,
                channel_number,
                channel_data_len,
            ) + ones_not(old.len) + new_len + ones_not(old.src) + new_src + ones_not(old.dst)
                + new_dst) as nat,
        ),
    )
}

/// The fields of a header after [`Udp::update`].
pub open spec fn updated_fields(
    old: UdpFields,
    pseudo_header: u16,
    new_src: u16,
    new_dst: u16,
    new_len: u16,
    channel_number: u16,
    channel_data_len: u16,
    checksum_enabled: bool,
) -> UdpFields {
    UdpFields {
        src: new_src,
        dst: new_dst,
        len: new_len,
        check: if checksum_enabled {
            updated_checksum(
                old,
                pseudo_header,
                new_src,
                new_dst,
                new_len,
                channel_number,
                channel_data_len,
            )
        } else {
            0
        },
    }
}

/// `network_types::eth::EthHdr::LEN`: the size of the Ethernet header that
/// stands in front of the IP header, 14 bytes.
#[verifier::external_body]
fn eth_hdr_len() -> (n: usize)
    ensures
        n == ETH_HDR_LEN,
{
    network_types::eth::EthHdr::LEN
}

/// `network_types::udp::UdpHdr::LEN`: the size of a UDP header, 8 bytes.
#[verifier::external_body]
fn udp_hdr_len() -> (n: usize)
    ensures
        n == UDP_HDR_LEN,
{
    network_types::udp::UdpHdr::LEN
}

/// Reads the two bytes at `at` as a number in network byte order.
fn read_be(bytes: &[u8], at: usize) -> (value: u16)
    requires
        at + 1 < bytes@.len(),
    ensures
        value == be_u16(bytes@[at as int], bytes@[at + 1]),
{
    let high: u16 = bytes[at] as u16;
    let low: u16 = bytes[at + 1] as u16;
    high * 256 + low
}

/// Writes `value` to the two bytes at `at` in network byte order.
fn write_be(bytes: &mut [u8], at: usize, value: u16)
    requires
        at + 1 < old(bytes)@.len(),
    ensures
        final(bytes)@ == old(bytes)@.update(at as int, high_byte(value)).update(
            at + 1,
            low_byte(value),
        ),
{
    bytes[at] = (value / 256) as u8;
    bytes[at + 1] = (value % 256) as u8;
}

/// What the channel-data header contributes to the checksum when the length
/// changes from `len` to `new_len`.
///
/// For a packet that grows, the channel number and the data length are
/// added; otherwise both are removed.
pub fn framing_update(len: u16, new_len: u16, channel_number: u16, channel_data_len: u16) -> (r:
    ChecksumUpdate)
    ensures
        new_len > len ==> r@ == ChecksumUpdate::spec_added(
            ChecksumUpdate::spec_added(0, channel_number),
            channel_data_len,
        ),
        new_len <= len ==> r@ == ChecksumUpdate::spec_removed(
            ChecksumUpdate::spec_removed(0, channel_number),
            channel_data_len,
        ),
        r@ == ones_fold(framing_sum(len, new_len, channel_number, channel_data_len)),
{
    let empty = ChecksumUpdate::default();
    proof {
        lemma_fold_of_word(0);
        lemma_ones_add_is_fold(0, channel_number);
        lemma_ones_add_is_fold(channel_number as nat, channel_data_len);
        lemma_ones_add_is_fold(0, ones_not(channel_number));
        lemma_ones_add_is_fold(ones_not(channel_number) as nat, ones_not(channel_data_len));
    }
    if new_len > len {
        empty.add_u16(channel_number).add_u16(channel_data_len)
    } else {
        empty.remove_u16(channel_number).remove_u16(channel_data_len)
    }
}

/// The checksum of a header whose fields were `src`, `dst`, `len` and `check`
/// and are now rewritten, from the old checksum and the words that changed.
fn checksum_after_update(
    check: u16,
    ip_pseudo_header: ChecksumUpdate,
    src: u16,
    dst: u16,
    len: u16,
    new_src: u16,
    new_dst: u16,
    new_len: u16,
    channel_number: u16,
    channel_data_len: u16,
) -> (new_check: u16)
    ensures
        new_check == updated_checksum(
            UdpFields { src, dst, len, check },
            ip_pseudo_header@,
            new_src,
            new_dst,
            new_len,
            channel_number,
            channel_data_len,
        ),
{
    let payload_checksum_update = framing_update(len, new_len, channel_number, channel_data_len);
    let ip_pseudo_header_update = ip_pseudo_header.remove_u16(len).add_u16(new_len);
    let seeded = ChecksumUpdate::new(check);
    let with_pseudo_header = seeded.add_update(ip_pseudo_header_update);
    let with_framing = with_pseudo_header.add_update(payload_checksum_update);
    let without_len = with_framing.remove_u16(len);
    let with_len = without_len.add_u16(new_len);
    let without_src = with_len.remove_u16(src);
    let with_src = without_src.add_u16(new_src);
    let without_dst = with_src.remove_u16(dst);
    let with_dst = without_dst.add_u16(new_dst);
    proof {
        let pseudo: nat = (ip_pseudo_header@ + ones_not(len)) as nat;
        lemma_fold_of_word(ip_pseudo_header@);
        lemma_ones_add_is_fold(ip_pseudo_header@ as nat, ones_not(len));
        lemma_ones_add_is_fold(pseudo, new_len);
        let n0: nat = ones_not(check) as nat;
        lemma_fold_of_word(ones_not(check));
        lemma_fold_sum(n0, pseudo + new_len as nat);
        let n1: nat = n0 + pseudo + new_len as nat;
        let framing: nat = framing_sum(len, new_len, channel_number, channel_data_len);
        lemma_fold_sum(n1, framing);
        let n2: nat = n1 + framing;
        lemma_ones_add_is_fold(n2, ones_not(len));
        let n3: nat = n2 + ones_not(len) as nat;
        lemma_ones_add_is_fold(n3, new_len);
        let n4: nat = n3 + new_len as nat;
        lemma_ones_add_is_fold(n4, ones_not(src));
        let n5: nat = n4 + ones_not(src) as nat;
        lemma_ones_add_is_fold(n5, new_src);
        let n6: nat = n5 + new_src as nat;
        lemma_ones_add_is_fold(n6, ones_not(dst));
        let n7: nat = n6 + ones_not(dst) as nat;
        lemma_ones_add_is_fold(n7, new_dst);
        assert(with_dst@ == ones_fold(n7 + new_dst as nat));
    }
    with_dst.into_checksum()
}

/// The UDP header within a packet.
///
/// The view borrows the header's bytes from the packet for as long as it
/// lives, so there is never a second one of the same header.
pub struct Udp<'a> {
    /// The eight bytes of the header, within the packet.
    ///
    /// The field is public so that contracts can say what the view leaves
    /// behind in the packet when it is used up.
    pub inner: &'a mut [u8],
}

impl<'a> View for Udp<'a> {
    type V = UdpFields;

    /// The fields that the header holds.
    open spec fn view(&self) -> UdpFields {
        decode(self.inner@)
    }
}

impl<'a> Udp<'a> {
    /// A view is well formed if it spans exactly one UDP header.
    pub open spec fn wf(&self) -> bool {
        self.inner@.len() == UDP_HDR_LEN
    }

    /// Where the UDP header starts in a packet whose IP header has
    /// `ip_header_length` bytes.
    pub open spec fn spec_offset(ip_header_length: usize) -> int {
        ETH_HDR_LEN + ip_header_length
    }

    /// Finds the UDP header of `packet` behind the Ethernet header and an IP
    /// header of `ip_header_length` bytes.
    ///
    /// Fails with [`Error::OutOfBounds`] exactly if the packet ends before
    /// the UDP header does.
    pub fn parse(packet: &'a mut [u8], ip_header_length: usize) -> (r: Result<Udp<'a>, Error>)
        ensures
            r is Ok <==> in_bounds(
                old(packet)@.len(),
                Self::spec_offset(ip_header_length),
                UDP_HDR_LEN as int,
            ),
            r is Err ==> r == Err::<Udp<'a>, Error>(Error::OutOfBounds) && final(packet)@ == old(
                packet,
            )@,
            r is Ok ==> r.unwrap().wf() && r.unwrap().inner@ == old(packet)@.subrange(
                Self::spec_offset(ip_header_length),
                Self::spec_offset(ip_header_length) + UDP_HDR_LEN,
            ) && final(packet)@ == old(packet)@.subrange(0, Self::spec_offset(ip_header_length))
                + final(r.unwrap().inner)@ + old(packet)@.subrange(
                Self::spec_offset(ip_header_length) + UDP_HDR_LEN,
                old(packet)@.len() as int,
            ),
    {
        let eth: usize = eth_hdr_len();
        if ip_header_length > packet.len() || ip_header_length > usize::MAX - eth {
            return Err(Error::OutOfBounds);
        }
        match ref_mut_at(packet, eth + ip_header_length, udp_hdr_len()) {
            Ok(inner) => Ok(Udp { inner }),
            Err(e) => Err(e),
        }
    }

    /// The source port.
    pub fn src(&self) -> (port: u16)
        requires
            self.wf(),
        ensures
            port == self@.src,
    {
        read_be(self.inner, 0)
    }

    /// The destination port.
    pub fn dst(&self) -> (port: u16)
        requires
            self.wf(),
        ensures
            port == self@.dst,
    {
        read_be(self.inner, 2)
    }

    /// The length of header and payload together.
    pub fn len(&self) -> (len: u16)
        requires
            self.wf(),
        ensures
            len == self@.len,
    {
        read_be(self.inner, 4)
    }

    /// The length of the payload.
    ///
    /// A header whose length field is smaller than a UDP header is malformed
    /// and has no payload length.
    pub fn payload_len(&self) -> (len: u16)
        requires
            self.wf(),
            self@.len >= UDP_HDR_LEN,
        ensures
            len == self@.len - UDP_HDR_LEN,
    {
        self.len() - udp_hdr_len() as u16
    }

    /// Rewrites the header for its way out of the relay: new ports, new
    /// length, and a checksum that fits them.
    ///
    /// `ip_pseudo_header` is what the rewrite of the IP header has changed in
    /// the addresses of the pseudo-header. `channel_number` and
    /// `channel_data_len` are the channel-data header that the caller puts in
    /// front of the payload if the packet grows, or has taken from there if
    /// it shrinks.
    ///
    /// With `checksum_enabled` the new checksum is derived from the old one
    /// and the words that changed, see [`updated_checksum`]; the payload is
    /// not read. Without it the checksum is written as zero, which UDP reads
    /// as "not computed", and no checksum arithmetic takes place.
    ///
    /// The view is used up: the header's bytes go back to the packet.
    pub fn update(
        self,
        ip_pseudo_header: ChecksumUpdate,
        new_src: u16,
        new_dst: u16,
        new_len: u16,
        channel_number: u16,
        channel_data_len: u16,
        checksum_enabled: bool,
    )
        requires
            self.wf(),
        ensures
            final(self.inner)@ == encode(
                updated_fields(
                    self@,
                    ip_pseudo_header@,
                    new_src,
                    new_dst,
                    new_len,
                    channel_number,
                    channel_data_len,
                    checksum_enabled,
                ),
            ),
            !checksum_enabled ==> decode(final(self.inner)@).check == 0,
    {
        let ghost before = self@;
        let src: u16 = self.src();
        let dst: u16 = self.dst();
        let len: u16 = self.len();
        let check: u16 = read_be(self.inner, 6);

        write_be(self.inner, 0, new_src);
        write_be(self.inner, 2, new_dst);
        write_be(self.inner, 4, new_len);

        let new_check: u16 = if checksum_enabled {
            checksum_after_update(
                check,
                ip_pseudo_header,
                src,
                dst,
                len,
                new_src,
                new_dst,
                new_len,
                channel_number,
                channel_data_len,
            )
        } else {
            0
        };
        write_be(self.inner, 6, new_check);
        proof {
            lemma_decode_encode(
                updated_fields(
                    before,
                    ip_pseudo_header@,
                    new_src,
                    new_dst,
                    new_len,
                    channel_number,
                    channel_data_len,
                    checksum_enabled,
                ),
            );
        }
        assert(self.inner@ =~= encode(
            updated_fields(
                before,
                ip_pseudo_header@,
                new_src,
                new_dst,
                new_len,
                channel_number,
                channel_data_len,
                checksum_enabled,
            ),
        ));
    }
}

/// Reading back what was written gives the fields that were written.
pub proof fn lemma_decode_encode(fields: UdpFields)
    ensures
        encode(fields).len() == UDP_HDR_LEN,
        decode(encode(fields)) == fields,
{
}

/// The protocol number of UDP, a word of the pseudo-header.
pub const UDP_PROTOCOL: u16 = 17;

/// The words that the checksum of a UDP datagram covers.
///
/// First the pseudo-header: the words of the source and destination address,
/// the protocol and the UDP length. Then the header, with zero in place of
/// the checksum. Then the payload, as words.
pub open spec fn datagram_words(addresses: Seq<u16>, fields: UdpFields, payload: Seq<u16>) -> Seq<
    u16,
> {
    addresses + seq![UDP_PROTOCOL, fields.len, fields.src, fields.dst, fields.len, 0u16] + payload
}

/// The payload of a datagram whose data is `data`, with or without the
/// channel-data header in front of it.
pub open spec fn framed_payload(
    framed: bool,
    channel_number: u16,
    channel_data_len: u16,
    data: Seq<u16>,
) -> Seq<u16> {
    if framed {
        seq![channel_number, channel_data_len] + data
    } else {
        data
    }
}

/// The sum of the words that the checksum of a datagram covers.
pub proof fn lemma_datagram_sum(addresses: Seq<u16>, fields: UdpFields, payload: Seq<u16>)
    ensures
        word_sum(datagram_words(addresses, fields, payload)) == word_sum(addresses) + UDP_PROTOCOL
            + fields.len + fields.src + fields.dst + fields.len + word_sum(payload),
{
    let header = seq![UDP_PROTOCOL, fields.len, fields.src, fields.dst, fields.len, 0u16];
    lemma_word_sum_concat(addresses, header);
    lemma_word_sum_concat(addresses + header, payload);
    reveal_with_fuel(word_sum, 7);
    assert(word_sum(header) == UDP_PROTOCOL + fields.len + fields.src + fields.dst + fields.len);
}

/// The sum of a payload with or without the channel-data header.
pub proof fn lemma_framed_payload_sum(
    framed: bool,
    channel_number: u16,
    channel_data_len: u16,
    data: Seq<u16>,
)
    ensures
        word_sum(framed_payload(framed, channel_number, channel_data_len, data)) == word_sum(data)
            + if framed {
            channel_number + channel_data_len
        } else {
            0
        },
{
    if framed {
        let header = seq![channel_number, channel_data_len];
        lemma_word_sum_concat(header, data);
        reveal_with_fuel(word_sum, 3);
        assert(word_sum(header) == channel_number + channel_data_len);
    }
}

/// Adding or removing a channel-data header never leaves the length as it
/// was, so every channel-data rewrite has a direction.
pub proof fn lemma_channel_data_rewrite_changes_len(len: u16, new_len: u16)
    requires
        is_channel_data_rewrite(len, new_len),
    ensures
        new_len != len,
        new_len > len <==> new_len == len + CHANNEL_DATA_HEADER_LEN,
{
}

/// The incremental checksum is the checksum computed from scratch.
///
/// If the old checksum is the Internet checksum of the old datagram with its
/// pseudo-header, then the checksum that the rewrite derives from it is the
/// Internet checksum of the rewritten datagram with its pseudo-header: new
/// addresses, new ports, new length, and the channel-data header in front of
/// the data exactly if the datagram has grown.
pub proof fn lemma_update_matches_checksum_from_scratch(
    old_fields: UdpFields,
    old_addresses: Seq<u16>,
    new_addresses: Seq<u16>,
    pseudo_header: u16,
    data: Seq<u16>,
    new_src: u16,
    new_dst: u16,
    new_len: u16,
    channel_number: u16,
    channel_data_len: u16,
)
    requires
        replaces(pseudo_header, old_addresses, new_addresses),
        old_fields.check == internet_checksum(
            datagram_words(
                old_addresses,
                old_fields,
                framed_payload(new_len <= old_fields.len, channel_number, channel_data_len, data),
            ),
        ),
    ensures
        ({
            let new_fields = updated_fields(
                old_fields,
                pseudo_header,
                new_src,
                new_dst,
                new_len,
                channel_number,
                channel_data_len,
                true,
            );
            new_fields.check == internet_checksum(
                datagram_words(
                    new_addresses,
                    new_fields,
                    framed_payload(
                        new_len > old_fields.len,
                        channel_number,
                        channel_data_len,
                        data,
                    ),
                ),
            )
        }),
{
    let grows = new_len > old_fields.len;
    let old_payload = framed_payload(!grows, channel_number, channel_data_len, data);
    let new_payload = framed_payload(grows, channel_number, channel_data_len, data);
    let new_fields = updated_fields(
        old_fields,
        pseudo_header,
        new_src,
        new_dst,
        new_len,
        channel_number,
        channel_data_len,
        true,
    );
    let old_sum = word_sum(datagram_words(old_addresses, old_fields, old_payload));
    let new_sum = word_sum(datagram_words(new_addresses, new_fields, new_payload));
    lemma_datagram_sum(old_addresses, old_fields, old_payload);
    lemma_datagram_sum(new_addresses, new_fields, new_payload);
    lemma_framed_payload_sum(!grows, channel_number, channel_data_len, data);
    lemma_framed_payload_sum(grows, channel_number, channel_data_len, data);
    let changes: nat = (pseudo_header + ones_not(old_fields.len) + new_len + framing_sum(
        old_fields.len,
        new_len,
        channel_number,
        channel_data_len,
    ) + ones_not(old_fields.len) + new_len + ones_not(old_fields.src) + new_src + ones_not(
        old_fields.dst,
    ) + new_dst) as nat;
    let rest: int = UDP_PROTOCOL + new_len + new_src + new_dst + new_len + word_sum(data) + if grows {
        channel_number + channel_data_len
    } else {
        0
    };
    let turns: int = if grows {
        4
    } else {
        6
    };
    assert(old_sum + changes == word_sum(old_addresses) + pseudo_header + rest + 65535 * turns);
    assert(new_sum == word_sum(new_addresses) + rest);
    lemma_congruent_shift(
        word_sum(old_addresses) + pseudo_header,
        word_sum(new_addresses) as int,
        rest,
        turns,
    );
    lemma_fold_of_word(ones_fold(old_sum));
    lemma_fold_sum(old_sum, changes);
    lemma_fold_sum(ones_fold(old_sum) as nat, changes);
    lemma_fold_unique(old_sum + changes, new_sum);
}

/// A rewrite followed by the rewrite that undoes it gives back the header
/// that was there, checksum included.
///
/// The second rewrite puts back the old ports and the old length, with the
/// same channel-data header, and with an update of the pseudo-header that
/// undoes the first. The lengths have to differ, so that the header that one
/// rewrite adds is the one that the other removes. A checksum of `0xFFFF` is
/// not given back: it comes back as zero, the other way to write the same
/// one's-complement value.
pub proof fn lemma_update_round_trip(
    old_fields: UdpFields,
    pseudo_header_there: u16,
    pseudo_header_back: u16,
    new_src: u16,
    new_dst: u16,
    new_len: u16,
    channel_number: u16,
    channel_data_len: u16,
)
    requires
        cancel(pseudo_header_there, pseudo_header_back),
        new_len != old_fields.len,
        old_fields.check != 0xFFFF,
    ensures
        updated_fields(
            updated_fields(
                old_fields,
                pseudo_header_there,
                new_src,
                new_dst,
                new_len,
                channel_number,
                channel_data_len,
                true,
            ),
            pseudo_header_back,
            old_fields.src,
            old_fields.dst,
            old_fields.len,
            channel_number,
            channel_data_len,
            true,
        ) == old_fields,
{
    let there: nat = (pseudo_header_there + ones_not(old_fields.len) + new_len + framing_sum(
        old_fields.len,
        new_len,
        channel_number,
        channel_data_len,
    ) + ones_not(old_fields.len) + new_len + ones_not(old_fields.src) + new_src + ones_not(
        old_fields.dst,
    ) + new_dst) as nat;
    let back: nat = (pseudo_header_back + ones_not(new_len) + old_fields.len + framing_sum(
        new_len,
        old_fields.len,
        channel_number,
        channel_data_len,
    ) + ones_not(new_len) + old_fields.len + ones_not(new_src) + old_fields.src + ones_not(new_dst)
        + old_fields.dst) as nat;
    let seed: nat = ones_not(old_fields.check) as nat;
    let halfway = ones_fold(seed + there);
    assert(ones_not(ones_not(halfway)) == halfway);
    lemma_fold_of_word(halfway);
    lemma_fold_sum(seed + there, back);
    lemma_fold_sum(halfway as nat, back);
    lemma_fold_of_word(ones_not(old_fields.check));
    lemma_fold_unique(seed + there + back, seed);
}

} // verus!
