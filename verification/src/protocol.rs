//! The textual packet protocol: one packet per line, fields separated by
//! commas, the first field the packet type and the second the client id.

use crate::text::{
    all_digits, chars_of, decimal_text, digit_value, digits_value, is_digit,
    lemma_decimal_text_value, parse_bounded, parse_unsigned, push_decimal,
};
use vstd::prelude::*;
use vstd::string::StringExecFns;

verus! {

/// Packet type of a sign-in request.
pub const SIGN_IN: u8 = 1;

/// Packet type of a sign-in acknowledgement.
pub const SIGN_IN_ACK: u8 = 2;

/// Packet type of a heartbeat.
pub const HEARTBEAT: u8 = 3;

/// A heartbeat received from a client.
#[derive(Debug, PartialEq)]
pub struct HeartbeatRecv {
    pub seq: u32,
}

/// A sign-in request received from a client.
#[derive(Debug, PartialEq)]
pub struct SignInRecv {
    pub client_id: String,
    pub username: String,
    pub password: String,
}

/// A sign-in acknowledgement sent to a client.
#[derive(Debug, PartialEq)]
pub struct SignInFire {
    pub code: String,
}

/// The closed set of packets.
#[derive(Debug, PartialEq)]
pub enum Packet {
    SignIn(SignInRecv),
    SignInAck(SignInFire),
    HeartBeat(HeartbeatRecv),
    Close(()),
}

/// Why a line could not be turned into a packet, or a packet into a line.
#[derive(Debug, PartialEq)]
pub enum PacketError {
    /// The line has the wrong number of fields for its packet type.
    ParsePacketError { raw: String },
    /// The line has fewer than two fields.
    ParsePacketHeaderError { raw: String },
    /// The packet type is not one that is received.
    UnKnowRecvPacketError { raw: String },
    /// The packet is not one that is sent.
    UnSupportFirePacketError { packet: Packet },
}

/// What a packet holds.
pub enum PacketView {
    SignIn { client_id: Seq<char>, username: Seq<char>, password: Seq<char> },
    SignInAck { code: Seq<char> },
    HeartBeat { seq: u32 },
    Close,
}

/// What a packet error holds.
pub enum PacketErrorView {
    ParsePacketError { raw: Seq<char> },
    ParsePacketHeaderError { raw: Seq<char> },
    UnKnowRecvPacketError { raw: Seq<char> },
    UnSupportFirePacketError { packet: PacketView },
}

impl View for Packet {
    type V = PacketView;

    open spec fn view(&self) -> PacketView {
        match self {
            Packet::SignIn(s) => PacketView::SignIn {
                client_id: s.client_id@,
                username: s.username@,
                password: s.password@,
            },
            Packet::SignInAck(s) => PacketView::SignInAck { code: s.code@ },
            Packet::HeartBeat(h) => PacketView::HeartBeat { seq: h.seq },
            Packet::Close(_) => PacketView::Close,
        }
    }
}

impl View for PacketError {
    type V = PacketErrorView;

    open spec fn view(&self) -> PacketErrorView {
        match self {
            PacketError::ParsePacketError { raw } => PacketErrorView::ParsePacketError { raw: raw@ },
            PacketError::ParsePacketHeaderError { raw } => PacketErrorView::ParsePacketHeaderError {
                raw: raw@,
            },
            PacketError::UnKnowRecvPacketError { raw } => PacketErrorView::UnKnowRecvPacketError {
                raw: raw@,
            },
            PacketError::UnSupportFirePacketError { packet } => {
                PacketErrorView::UnSupportFirePacketError { packet: packet@ }
            },
        }
    }
}

impl Clone for HeartbeatRecv {
    fn clone(&self) -> (r: Self)
        ensures
            r == *self,
    {
        HeartbeatRecv { seq: self.seq }
    }
}

impl Clone for SignInRecv {
    fn clone(&self) -> (r: Self)
        ensures
            r == *self,
    {
        SignInRecv {
            client_id: self.client_id.clone(),
            username: self.username.clone(),
            password: self.password.clone(),
        }
    }
}

impl Clone for SignInFire {
    fn clone(&self) -> (r: Self)
        ensures
            r == *self,
    {
        SignInFire { code: self.code.clone() }
    }
}

impl Clone for Packet {
    fn clone(&self) -> (r: Self)
        ensures
            r == *self,
    {
        match self {
            Packet::SignIn(s) => Packet::SignIn(s.clone()),
            Packet::SignInAck(s) => Packet::SignInAck(s.clone()),
            Packet::HeartBeat(h) => Packet::HeartBeat(h.clone()),
            Packet::Close(_) => Packet::Close(()),
        }
    }
}

impl Clone for PacketError {
    fn clone(&self) -> (r: Self)
        ensures
            r == *self,
    {
        match self {
            PacketError::ParsePacketError { raw } => PacketError::ParsePacketError {
                raw: raw.clone(),
            },
            PacketError::ParsePacketHeaderError { raw } => PacketError::ParsePacketHeaderError {
                raw: raw.clone(),
            },
            PacketError::UnKnowRecvPacketError { raw } => PacketError::UnKnowRecvPacketError {
                raw: raw.clone(),
            },
            PacketError::UnSupportFirePacketError { packet } => {
                PacketError::UnSupportFirePacketError { packet: packet.clone() }
            },
        }
    }
}

/// The fields of a line: the pieces between its commas. A line without a
/// comma is one field; an empty line is one empty field.
pub open spec fn split_commas(s: Seq<char>) -> Seq<Seq<char>>
    decreases s.len(),
{
    if s.len() == 0 {
        seq![Seq::<char>::empty()]
    } else {
        let before = split_commas(s.drop_last());
        if s.last() == ',' {
            before.push(Seq::<char>::empty())
        } else {
            before.drop_last().push(before.last().push(s.last()))
        }
    }
}

/// A line always has at least one field.
pub proof fn lemma_split_commas_nonempty(s: Seq<char>)
    ensures
        split_commas(s).len() >= 1,
    decreases s.len(),
{
    if s.len() > 0 {
        lemma_split_commas_nonempty(s.drop_last());
    }
}

/// Where each field of a line starts and ends, as character positions.
pub fn field_ranges(v: &Vec<char>) -> (ranges: Vec<(usize, usize)>)
    ensures
        ranges.len() == split_commas(v@).len(),
        forall|j: int|
            0 <= j < ranges.len() ==> {
                &&& (#[trigger] ranges[j]).0 <= ranges[j].1 <= v.len()
                &&& split_commas(v@)[j] == v@.subrange(ranges[j].0 as int, ranges[j].1 as int)
            },
{
    let mut ranges: Vec<(usize, usize)> = Vec::new();
    let mut start: usize = 0;
    let mut i: usize = 0;
    proof {
        assert(v@.take(0) =~= Seq::<char>::empty());
        assert(v@.subrange(0, 0) =~= Seq::<char>::empty());
    }
    while i < v.len()
        invariant
            start <= i <= v.len(),
            ranges.len() + 1 == split_commas(v@.take(i as int)).len(),
            split_commas(v@.take(i as int)).last() == v@.subrange(start as int, i as int),
            forall|j: int|
                0 <= j < ranges.len() ==> {
                    &&& (#[trigger] ranges[j]).0 <= ranges[j].1 <= v.len()
                    &&& split_commas(v@.take(i as int))[j] == v@.subrange(
                        ranges[j].0 as int,
                        ranges[j].1 as int,
                    )
                },
        decreases v.len() - i,
    {
        let ghost before = split_commas(v@.take(i as int));
        proof {
            assert(v@.take(i + 1).drop_last() =~= v@.take(i as int));
            assert(v@.take(i + 1).last() == v@[i as int]);
        }
        if v[i] == ',' {
            ranges.push((start, i));
            start = i + 1;
            proof {
                assert(v@.subrange(start as int, i + 1) =~= Seq::<char>::empty());
            }
        } else {
            proof {
                assert(v@.subrange(start as int, i + 1) =~= v@.subrange(
                    start as int,
                    i as int,
                ).push(v@[i as int]));
            }
        }
        i = i + 1;
    }
    ranges.push((start, i));
    proof {
        assert(v@.take(v.len() as int) =~= v@);
    }
    ranges
}

/// The packet type that the first field of a line denotes: the number it
/// spells, or 255 where it spells none that fits in a byte.
pub open spec fn packet_type_of(field: Seq<char>) -> u8 {
    match parse_unsigned(field, 255) {
        Some(n) => n as u8,
        None => 255u8,
    }
}

/// The sequence number that a heartbeat's second field denotes: the number it
/// spells, or zero where it spells none that fits in 32 bits.
pub open spec fn heartbeat_seq_of(field: Seq<char>) -> u32 {
    match parse_unsigned(field, 0xffff_ffff) {
        Some(n) => n as u32,
        None => 0u32,
    }
}

/// The header of a line: its packet type and client id. A line with fewer
/// than two fields has none.
pub open spec fn header_of(raw: Seq<char>) -> Option<(u8, Seq<char>)> {
    let fields = split_commas(raw);
    if fields.len() > 1 {
        Some((packet_type_of(fields[0]), fields[1]))
    } else {
        None
    }
}

/// The heartbeat that a line denotes: exactly two fields, the second the
/// sequence number.
pub open spec fn heartbeat_of(raw: Seq<char>) -> Result<PacketView, PacketErrorView> {
    let fields = split_commas(raw);
    if fields.len() == 2 {
        Ok(PacketView::HeartBeat { seq: heartbeat_seq_of(fields[1]) })
    } else {
        Err(PacketErrorView::ParsePacketError { raw })
    }
}

/// The sign-in that a line denotes: exactly four fields, the last three the
/// client id, the user name and the password.
pub open spec fn sign_in_of(raw: Seq<char>) -> Result<PacketView, PacketErrorView> {
    let fields = split_commas(raw);
    if fields.len() == 4 {
        Ok(PacketView::SignIn { client_id: fields[1], username: fields[2], password: fields[3] })
    } else {
        Err(PacketErrorView::ParsePacketError { raw })
    }
}

/// The packet that a received line denotes.
pub open spec fn packet_of(raw: Seq<char>) -> Result<PacketView, PacketErrorView> {
    match header_of(raw) {
        None => Err(PacketErrorView::ParsePacketHeaderError { raw }),
        Some((packet_type, _)) => {
            if packet_type == SIGN_IN {
                sign_in_of(raw)
            } else if packet_type == HEARTBEAT {
                heartbeat_of(raw)
            } else {
                Err(PacketErrorView::UnKnowRecvPacketError { raw })
            }
        },
    }
}

/// The line that a packet is sent as. Only a sign-in acknowledgement is sent.
pub open spec fn line_of(packet: PacketView) -> Result<Seq<char>, PacketErrorView> {
    match packet {
        PacketView::SignInAck { code } => Ok(seq!['2', ','] + code),
        _ => Err(PacketErrorView::UnSupportFirePacketError { packet }),
    }
}

/// The line that a packet is forwarded as between nodes. Every packet but
/// `Close` has one.
pub open spec fn forward_line_of(packet: PacketView) -> Result<Seq<char>, PacketErrorView> {
    match packet {
        PacketView::SignIn { client_id, username, password } => Ok(
            seq!['1', ','] + client_id + seq![','] + username + seq![','] + password,
        ),
        PacketView::SignInAck { code } => Ok(seq!['2', ','] + code),
        PacketView::HeartBeat { seq } => Ok(seq!['3', ','] + decimal_text(seq as nat)),
        PacketView::Close => Err(PacketErrorView::UnSupportFirePacketError { packet }),
    }
}

/// The sign-in acknowledgement that a forwarded line denotes: exactly two
/// fields, the second the code.
pub open spec fn sign_in_ack_of(raw: Seq<char>) -> Result<PacketView, PacketErrorView> {
    let fields = split_commas(raw);
    if fields.len() == 2 {
        Ok(PacketView::SignInAck { code: fields[1] })
    } else {
        Err(PacketErrorView::ParsePacketError { raw })
    }
}

/// The packet that a line forwarded between nodes denotes.
pub open spec fn forwarded_packet_of(raw: Seq<char>) -> Result<PacketView, PacketErrorView> {
    match header_of(raw) {
        None => Err(PacketErrorView::ParsePacketHeaderError { raw }),
        Some((packet_type, _)) => {
            if packet_type == SIGN_IN {
                sign_in_of(raw)
            } else if packet_type == SIGN_IN_ACK {
                sign_in_ack_of(raw)
            } else if packet_type == HEARTBEAT {
                heartbeat_of(raw)
            } else {
                Err(PacketErrorView::UnKnowRecvPacketError { raw })
            }
        },
    }
}

/// Whether two parse results hold the same.
pub open spec fn same_packet(
    r: Result<Packet, PacketError>,
    expected: Result<PacketView, PacketErrorView>,
) -> bool {
    match (r, expected) {
        (Ok(p), Ok(v)) => p@ == v,
        (Err(e), Err(v)) => e@ == v,
        _ => false,
    }
}

/// A packet that can be sent.
pub trait Fire: Sized {
    /// The payload that follows the packet type on the line.
    spec fn payload(&self) -> Seq<char>;

    /// Turns the packet into its payload.
    fn into_payload(self) -> (s: String)
        ensures
            s@ == self.payload(),
    ;
}

/// A packet that can be received.
pub trait Recv: Sized {
    /// The packet that a line denotes.
    spec fn parsed(raw: Seq<char>) -> Result<PacketView, PacketErrorView>;

    /// Reads the packet from a line.
    fn try_from_line(value: String) -> (r: Result<Packet, PacketError>)
        ensures
            same_packet(r, Self::parsed(value@)),
    ;
}

impl Recv for HeartbeatRecv {
    open spec fn parsed(raw: Seq<char>) -> Result<PacketView, PacketErrorView> {
        heartbeat_of(raw)
    }

    fn try_from_line(value: String) -> (r: Result<Packet, PacketError>) {
        let chars = chars_of(value.as_str());
        let ranges = field_ranges(&chars);
        if ranges.len() != 2 {
            Err(PacketError::ParsePacketError { raw: value })
        } else {
            let (from, to) = ranges[1];
            let seq: u32 = match parse_bounded(&chars, from, to, 0xffff_ffff) {
                Some(n) => n as u32,
                None => 0,
            };
            Ok(Packet::HeartBeat(HeartbeatRecv { seq }))
        }
    }
}

impl Recv for SignInRecv {
    open spec fn parsed(raw: Seq<char>) -> Result<PacketView, PacketErrorView> {
        sign_in_of(raw)
    }

    fn try_from_line(value: String) -> (r: Result<Packet, PacketError>) {
        let chars = chars_of(value.as_str());
        let ranges = field_ranges(&chars);
        if ranges.len() != 4 {
            Err(PacketError::ParsePacketError { raw: value })
        } else {
            let raw = value.as_str();
            Ok(
                Packet::SignIn(
                    SignInRecv {
                        client_id: String::from_str(raw.substring_char(ranges[1].0, ranges[1].1)),
                        username: String::from_str(raw.substring_char(ranges[2].0, ranges[2].1)),
                        password: String::from_str(raw.substring_char(ranges[3].0, ranges[3].1)),
                    },
                ),
            )
        }
    }
}

impl Fire for SignInFire {
    open spec fn payload(&self) -> Seq<char> {
        self.code@
    }

    fn into_payload(self) -> (s: String) {
        self.code
    }
}

/// The first two fields of a line.
#[derive(Debug, PartialEq)]
pub struct PacketHeader {
    packet_type: u8,
    client_id: String,
}

impl Clone for PacketHeader {
    fn clone(&self) -> (r: Self)
        ensures
            r == *self,
    {
        PacketHeader { packet_type: self.packet_type, client_id: self.client_id.clone() }
    }
}

impl PacketHeader {
    /// The packet type and the client id, as plain values.
    pub closed spec fn view(&self) -> (u8, Seq<char>) {
        (self.packet_type, self.client_id@)
    }

    /// Reads the header of a line. A line with fewer than two fields is
    /// rejected; a first field that is no byte-sized number reads as 255.
    pub fn new(raw: &str) -> (r: Result<Self, PacketError>)
        ensures
            match header_of(raw@) {
                Some(h) => r is Ok && r->Ok_0@ == h,
                None => r is Err && r->Err_0@ == (PacketErrorView::ParsePacketHeaderError {
                    raw: raw@,
                }),
            },
    {
        let chars = chars_of(raw);
        let ranges = field_ranges(&chars);
        if ranges.len() > 1 {
            let (from, to) = ranges[0];
            let packet_type: u8 = match parse_bounded(&chars, from, to, 255) {
                Some(n) => n as u8,
                None => 255,
            };
            Ok(
                PacketHeader {
                    packet_type,
                    client_id: String::from_str(raw.substring_char(ranges[1].0, ranges[1].1)),
                },
            )
        } else {
            Err(PacketError::ParsePacketHeaderError { raw: String::from_str(raw) })
        }
    }

    /// The packet type.
    pub fn packet_type(&self) -> (t: u8)
        ensures
            t == self@.0,
    {
        self.packet_type
    }

    /// The client id.
    pub fn client_id(&self) -> (id: String)
        ensures
            id@ == self@.1,
    {
        self.client_id.clone()
    }
}

impl Packet {
    /// Reads a received line. Only sign-in and heartbeat lines are
    /// received; every other packet type is rejected as unknown.
    pub fn read(raw: String) -> (r: Result<Self, PacketError>)
        ensures
            same_packet(r, packet_of(raw@)),
    {
        let header = match PacketHeader::new(raw.as_str()) {
            Ok(header) => header,
            Err(e) => {
                return Err(e);
            },
        };
        let packet_type = header.packet_type();
        if packet_type == SIGN_IN {
            SignInRecv::try_from_line(raw)
        } else if packet_type == HEARTBEAT {
            HeartbeatRecv::try_from_line(raw)
        } else {
            Err(PacketError::UnKnowRecvPacketError { raw })
        }
    }

    /// Writes the packet as a line. Only a sign-in acknowledgement is sent;
    /// every other packet comes back inside the error.
    pub fn write(self) -> (r: Result<String, PacketError>)
        ensures
            match line_of(self@) {
                Ok(line) => r is Ok && r->Ok_0@ == line,
                Err(e) => r is Err && r->Err_0@ == e,
            },
    {
        match self {
            Packet::SignInAck(ack) => {
                let mut line = String::from_str("2,");
                proof {
                    reveal_strlit("2,");
                    assert("2,"@ =~= seq!['2', ',']);
                }
                let payload = ack.into_payload();
                line.append(payload.as_str());
                Ok(line)
            },
            other => Err(PacketError::UnSupportFirePacketError { packet: other }),
        }
    }

    /// Writes the packet as the line it is forwarded as between nodes.
    pub fn forward_line(&self) -> (r: Result<String, PacketError>)
        ensures
            match forward_line_of(self@) {
                Ok(line) => r is Ok && r->Ok_0@ == line,
                Err(e) => r is Err && r->Err_0@ == e,
            },
    {
        proof {
            reveal_strlit("1,");
            reveal_strlit("2,");
            reveal_strlit("3,");
            reveal_strlit(",");
            assert("1,"@ =~= seq!['1', ',']);
            assert("2,"@ =~= seq!['2', ',']);
            assert("3,"@ =~= seq!['3', ',']);
            assert(","@ =~= seq![',']);
        }
        match self {
            Packet::SignIn(sign_in) => {
                let mut line = String::from_str("1,");
                line.append(sign_in.client_id.as_str());
                line.append(",");
                line.append(sign_in.username.as_str());
                line.append(",");
                line.append(sign_in.password.as_str());
                Ok(line)
            },
            Packet::SignInAck(ack) => {
                let mut line = String::from_str("2,");
                line.append(ack.code.as_str());
                Ok(line)
            },
            Packet::HeartBeat(heartbeat) => {
                let mut line = String::from_str("3,");
                push_decimal(&mut line, heartbeat.seq as u64);
                Ok(line)
            },
            Packet::Close(_) => Err(
                PacketError::UnSupportFirePacketError { packet: Packet::Close(()) },
            ),
        }
    }

    /// Reads a line that was forwarded between nodes.
    pub fn from_forward_line(raw: String) -> (r: Result<Self, PacketError>)
        ensures
            same_packet(r, forwarded_packet_of(raw@)),
    {
        let header = match PacketHeader::new(raw.as_str()) {
            Ok(header) => header,
            Err(e) => {
                return Err(e);
            },
        };
        let packet_type = header.packet_type();
        if packet_type == SIGN_IN {
            SignInRecv::try_from_line(raw)
        } else if packet_type == SIGN_IN_ACK {
            let chars = chars_of(raw.as_str());
            let ranges = field_ranges(&chars);
            if ranges.len() != 2 {
                Err(PacketError::ParsePacketError { raw })
            } else {
                let code = String::from_str(raw.as_str().substring_char(ranges[1].0, ranges[1].1));
                Ok(Packet::SignInAck(SignInFire { code }))
            }
        } else if packet_type == HEARTBEAT {
            HeartbeatRecv::try_from_line(raw)
        } else {
            Err(PacketError::UnKnowRecvPacketError { raw })
        }
    }

    /// Whether a line is a sign-in, judged by its header alone.
    pub fn check_sign_in_packet(raw: &str) -> (r: Result<bool, PacketError>)
        ensures
            match header_of(raw@) {
                Some(h) => r == Ok::<bool, PacketError>(h.0 == SIGN_IN),
                None => r is Err && r->Err_0@ == (PacketErrorView::ParsePacketHeaderError {
                    raw: raw@,
                }),
            },
    {
        match PacketHeader::new(raw) {
            Ok(header) => Ok(header.packet_type() == SIGN_IN),
            Err(e) => Err(e),
        }
    }
}

/// A received line: its header and the packet it denotes.
#[derive(Debug, PartialEq)]
pub struct RawPacket {
    header: PacketHeader,
    packet: Packet,
}

impl Clone for RawPacket {
    fn clone(&self) -> (r: Self)
        ensures
            r == *self,
    {
        RawPacket { header: self.header.clone(), packet: self.packet.clone() }
    }
}

impl RawPacket {
    /// The header and the packet, as plain values.
    pub closed spec fn view(&self) -> ((u8, Seq<char>), PacketView) {
        (self.header@, self.packet@)
    }

    /// Reads a received line into its header and packet.
    pub fn read(raw: String) -> (r: Result<Self, PacketError>)
        ensures
            match packet_of(raw@) {
                Ok(p) => r is Ok && r->Ok_0@ == (header_of(raw@)->Some_0, p),
                Err(e) => r is Err && r->Err_0@ == e,
            },
    {
        let header = match PacketHeader::new(raw.as_str()) {
            Ok(header) => header,
            Err(e) => {
                return Err(e);
            },
        };
        match Packet::read(raw) {
            Ok(packet) => Ok(RawPacket { header, packet }),
            Err(e) => Err(e),
        }
    }

    /// Writes the packet of this line back as a line.
    pub fn write(self) -> (r: Result<String, PacketError>)
        ensures
            match line_of(self@.1) {
                Ok(line) => r is Ok && r->Ok_0@ == line,
                Err(e) => r is Err && r->Err_0@ == e,
            },
    {
        Packet::write(self.packet)
    }

    /// The header.
    pub fn header(&self) -> (h: &PacketHeader)
        ensures
            h@ == self@.0,
    {
        &self.header
    }

    /// A copy of the packet.
    pub fn packet(&self) -> (p: Packet)
        ensures
            p@ == self@.1,
    {
        self.packet.clone()
    }
}

/// Whether a text holds no comma.
pub open spec fn comma_free(s: Seq<char>) -> bool {
    forall|i: int| 0 <= i < s.len() ==> s[i] != ','
}

/// Whether a packet reads back from its forward line: it has one, and none
/// of its texts holds a comma.
pub open spec fn forwardable(packet: PacketView) -> bool {
    match packet {
        PacketView::SignIn { client_id, username, password } => comma_free(client_id)
            && comma_free(username) && comma_free(password),
        PacketView::SignInAck { code } => comma_free(code),
        PacketView::HeartBeat { seq } => true,
        PacketView::Close => false,
    }
}

/// A text without a comma is one field.
pub proof fn lemma_one_field(s: Seq<char>)
    requires
        comma_free(s),
    ensures
        split_commas(s) == seq![s],
    decreases s.len(),
{
    if s.len() == 0 {
        assert(s =~= Seq::<char>::empty());
    } else {
        assert forall|i: int| 0 <= i < s.drop_last().len() implies s.drop_last()[i] != ',' by {
            assert(s.drop_last()[i] == s[i]);
        }
        lemma_one_field(s.drop_last());
        let before = split_commas(s.drop_last());
        assert(s[s.len() - 1] != ',');
        assert(s.last() != ',');
        assert(before.last() == s.drop_last());
        assert(before.drop_last() =~= Seq::<Seq<char>>::empty());
        assert(s.drop_last().push(s.last()) =~= s);
        assert(before.drop_last().push(before.last().push(s.last())) =~= seq![s]);
    }
}

/// The fields of two texts joined by a comma are the fields of the first
/// and then those of the second.
pub proof fn lemma_fields_join(s: Seq<char>, t: Seq<char>)
    ensures
        split_commas(s + seq![','] + t) == split_commas(s) + split_commas(t),
    decreases t.len(),
{
    let joined = s + seq![','] + t;
    lemma_split_commas_nonempty(s);
    lemma_split_commas_nonempty(t);
    if t.len() == 0 {
        assert(joined.drop_last() =~= s);
        assert(joined.last() == ',');
        assert(split_commas(t) =~= seq![Seq::<char>::empty()]);
        assert(split_commas(joined) =~= split_commas(s) + split_commas(t));
    } else {
        let shorter = s + seq![','] + t.drop_last();
        assert(joined.drop_last() =~= shorter);
        assert(joined.last() == t.last());
        lemma_fields_join(s, t.drop_last());
        lemma_split_commas_nonempty(t.drop_last());
        let left = split_commas(s);
        let right = split_commas(t.drop_last());
        assert(split_commas(shorter) == left + right);
        if t.last() == ',' {
            assert((left + right).push(Seq::<char>::empty()) =~= left + right.push(
                Seq::<char>::empty(),
            ));
        } else {
            assert((left + right).last() == right.last());
            assert((left + right).drop_last() =~= left + right.drop_last());
            assert((left + right.drop_last()).push(right.last().push(t.last())) =~= left
                + right.drop_last().push(right.last().push(t.last())));
        }
    }
}

/// A one-digit numeral denotes its digit as a packet type.
pub proof fn lemma_packet_type_digit(c: char)
    requires
        is_digit(c),
    ensures
        packet_type_of(seq![c]) == digit_value(c),
{
    let s = seq![c];
    assert(s[0] == c);
    assert(s.drop_last() =~= Seq::<char>::empty());
    assert(digits_value(s.drop_last()) == 0);
    assert(s.last() == c);
    assert(digits_value(s) == digit_value(c));
    assert(all_digits(s));
}

/// The numeral of a sequence number denotes that number.
pub proof fn lemma_heartbeat_seq(seq: u32)
    ensures
        heartbeat_seq_of(decimal_text(seq as nat)) == seq,
        comma_free(decimal_text(seq as nat)),
{
    let text = decimal_text(seq as nat);
    lemma_decimal_text_value(seq as nat);
    assert(is_digit(text[0]));
    assert forall|i: int| 0 <= i < text.len() implies text[i] != ',' by {
        assert(is_digit(text[i]));
    }
}

/// A packet read from its forward line is the packet that was written.
pub proof fn lemma_forward_line_round_trip(packet: PacketView)
    requires
        forwardable(packet),
    ensures
        forward_line_of(packet) is Ok,
        forwarded_packet_of(forward_line_of(packet)->Ok_0) == Ok::<PacketView, PacketErrorView>(
            packet,
        ),
{
    let line = forward_line_of(packet)->Ok_0;
    match packet {
        PacketView::SignIn { client_id, username, password } => {
            let tail2 = username + seq![','] + password;
            let tail1 = client_id + seq![','] + tail2;
            assert(line =~= seq!['1'] + seq![','] + tail1);
            assert(comma_free(seq!['1']));
            lemma_one_field(seq!['1']);
            lemma_one_field(client_id);
            lemma_one_field(username);
            lemma_one_field(password);
            lemma_fields_join(username, password);
            lemma_fields_join(client_id, tail2);
            lemma_fields_join(seq!['1'], tail1);
            assert(split_commas(line) =~= seq![seq!['1'], client_id, username, password]);
            lemma_packet_type_digit('1');
        },
        PacketView::SignInAck { code } => {
            assert(line =~= seq!['2'] + seq![','] + code);
            assert(comma_free(seq!['2']));
            lemma_one_field(seq!['2']);
            lemma_one_field(code);
            lemma_fields_join(seq!['2'], code);
            assert(split_commas(line) =~= seq![seq!['2'], code]);
            lemma_packet_type_digit('2');
        },
        PacketView::HeartBeat { seq } => {
            let text = decimal_text(seq as nat);
            assert(line =~= seq!['3'] + seq![','] + text);
            assert(comma_free(seq!['3']));
            lemma_heartbeat_seq(seq);
            lemma_one_field(seq!['3']);
            lemma_one_field(text);
            lemma_fields_join(seq!['3'], text);
            assert(split_commas(line) =~= seq![seq!['3'], text]);
            lemma_packet_type_digit('3');
        },
        PacketView::Close => {},
    }
}

} // verus!
