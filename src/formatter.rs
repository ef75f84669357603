use crate::fxmap::fx_insert;
use crate::parser::{DataRecordValue, ValueModel};
use rustc_hash::FxHashMap;
use vstd::prelude::*;
use vstd::slice::slice_subrange;

verus! {

/// `256` to the power `n`.
pub open spec fn pow256(n: nat) -> nat
    decreases n,
{
    if n == 0 {
        1
    } else {
        256 * pow256((n - 1) as nat)
    }
}

/// The unsigned number that the bytes `b` spell in big-endian order.
pub open spec fn be_value(b: Seq<u8>) -> nat
    decreases b.len(),
{
    if b.len() == 0 {
        0
    } else {
        (be_value(b.drop_last()) * 256 + b.last()) as nat
    }
}

/// A big-endian number of `n` bytes is less than `256^n`.
pub proof fn lemma_be_value_bound(b: Seq<u8>)
    ensures
        be_value(b) < pow256(b.len()),
    decreases b.len(),
{
    if b.len() > 0 {
        lemma_be_value_bound(b.drop_last());
        let p = pow256((b.len() - 1) as nat);
        let v = be_value(b.drop_last());
        assert(v * 256 + b.last() < 256 * p) by (nonlinear_arith)
            requires
                v < p,
                b.last() < 256,
        ;
    }
}

/// Reads the big-endian number spelled by at most sixteen bytes.
pub(crate) fn read_be(s: &[u8]) -> (r: u128)
    requires
        s@.len() <= 16,
    ensures
        r == be_value(s@),
{
    let mut acc: u128 = 0;
    let mut i: usize = 0;
    proof {
        reveal_with_fuel(pow256, 17);
    }
    assert(pow256(16) == 0x1_0000_0000_0000_0000_0000_0000_0000_0000);
    while i < s.len()
        invariant
            i <= s@.len() <= 16,
            acc == be_value(s@.subrange(0, i as int)),
            pow256(16) == 0x1_0000_0000_0000_0000_0000_0000_0000_0000,
        decreases s@.len() - i,
    {
        let ghost prefix = s@.subrange(0, i as int);
        let ghost next = s@.subrange(0, i + 1);
        proof {
            lemma_be_value_bound(prefix);
            lemma_pow256_mono(i as nat, 15);
            assert(next.drop_last() =~= prefix);
        }
        assert(acc * 256 + s@[i as int] < pow256(16)) by (nonlinear_arith)
            requires
                acc < pow256(i as nat),
                pow256(i as nat) <= pow256(15),
                pow256(16) == 256 * pow256(15),
                s@[i as int] < 256,
        ;
        acc = acc * 256 + s[i] as u128;
        i = i + 1;
    }
    assert(s@.subrange(0, s@.len() as int) =~= s@);
    acc
}

/// `256^n` grows with `n`.
pub proof fn lemma_pow256_mono(m: nat, n: nat)
    requires
        m <= n,
    ensures
        pow256(m) <= pow256(n),
    decreases n - m,
{
    if m < n {
        lemma_pow256_mono(m, (n - 1) as nat);
    }
}

/// What [`be_int`] makes of the bytes `b`: an unsigned integer of the
/// matching width for one, two, four or eight bytes, else the bytes.
pub open spec fn be_int_model(b: Seq<u8>) -> ValueModel {
    if b.len() == 1 {
        ValueModel::U8(b[0])
    } else if b.len() == 2 {
        ValueModel::U16(be_value(b) as u16)
    } else if b.len() == 4 {
        ValueModel::U32(be_value(b) as u32)
    } else if b.len() == 8 {
        ValueModel::U64(be_value(b) as u64)
    } else {
        ValueModel::Bytes(b)
    }
}

/// What [`ipv4_addr`] makes of the bytes `b`: the address spelled by the
/// first four bytes, else the bytes.
pub open spec fn ipv4_model(b: Seq<u8>) -> ValueModel {
    if b.len() >= 4 {
        ValueModel::IPv4(be_value(b.subrange(0, 4)) as u32)
    } else {
        ValueModel::Bytes(b)
    }
}

/// What [`ipv6_addr`] makes of the bytes `b`: the address spelled by the
/// first sixteen bytes, else the bytes.
pub open spec fn ipv6_model(b: Seq<u8>) -> ValueModel {
    if b.len() >= 16 {
        ValueModel::IPv6(be_value(b.subrange(0, 16)) as u128)
    } else {
        ValueModel::Bytes(b)
    }
}

/// The characters that the bytes `b` read as UTF-8, each invalid sequence
/// replaced by U+FFFD.
pub uninterp spec fn utf8_lossy(b: Seq<u8>) -> Seq<char>;

/// What [`be_string`] makes of the bytes `b`.
pub open spec fn be_string_model(b: Seq<u8>) -> ValueModel {
    ValueModel::String(utf8_lossy(b))
}

/// The message of an MPLS stack entry shorter than its three bytes.
pub open spec fn mpls_short_text() -> Seq<char> {
    "mpls stack entry shorter than 3 bytes"@
}

/// What [`mpls_stack`] makes of the bytes `b`: the 20-bit label, the 3-bit
/// experimental field and the bottom-of-stack bit of the 24-bit entry that the
/// first three bytes hold.
pub open spec fn mpls_model(b: Seq<u8>) -> ValueModel {
    if b.len() >= 3 {
        let v = be_value(b.subrange(0, 3));
        ValueModel::MPLS((v / 16) as u32, ((v / 2) % 8) as u8, (v % 2) as u8)
    } else {
        ValueModel::Error(mpls_short_text(), b)
    }
}

/// Converts bytes to an unsigned integer of their width (1, 2, 4 or 8 bytes);
/// other widths stay bytes.
pub fn be_int<'a>(s: &'a [u8]) -> (r: DataRecordValue<'a>)
    ensures
        r@ == be_int_model(s@),
{
    let n = s.len();
    if n == 1 {
        DataRecordValue::U8(s[0])
    } else if n == 2 {
        DataRecordValue::U16(read_be(s) as u16)
    } else if n == 4 {
        DataRecordValue::U32(read_be(s) as u32)
    } else if n == 8 {
        DataRecordValue::U64(read_be(s) as u64)
    } else {
        DataRecordValue::Bytes(s)
    }
}

/// Converts four bytes to an IPv4 address; shorter input stays bytes.
pub fn ipv4_addr<'a>(s: &'a [u8]) -> (r: DataRecordValue<'a>)
    ensures
        r@ == ipv4_model(s@),
{
    if s.len() >= 4 {
        DataRecordValue::IPv4(read_be(slice_subrange(s, 0, 4)) as u32)
    } else {
        DataRecordValue::Bytes(s)
    }
}

/// Converts sixteen bytes to an IPv6 address; shorter input stays bytes.
pub fn ipv6_addr<'a>(s: &'a [u8]) -> (r: DataRecordValue<'a>)
    ensures
        r@ == ipv6_model(s@),
{
    if s.len() >= 16 {
        DataRecordValue::IPv6(read_be(slice_subrange(s, 0, 16)))
    } else {
        DataRecordValue::Bytes(s)
    }
}

/// Relies on `String::from_utf8_lossy`, whose result depends on the bytes
/// alone.
#[verifier::external_body]
fn lossy_string(s: &[u8]) -> (r: String)
    ensures
        r@ == utf8_lossy(s@),
{
    String::from_utf8_lossy(s).into_owned()
}

/// Converts bytes to a string, replacing invalid UTF-8.
pub fn be_string<'a>(s: &'a [u8]) -> (r: DataRecordValue<'a>)
    ensures
        r@ == be_string_model(s@),
{
    DataRecordValue::String(lossy_string(s))
}

/// Converts a 24-bit MPLS label stack entry into (label, experimental,
/// bottom-of-stack).
pub fn mpls_stack<'a>(s: &'a [u8]) -> (r: DataRecordValue<'a>)
    ensures
        r@ == mpls_model(s@),
{
    if s.len() >= 3 {
        let v = read_be(slice_subrange(s, 0, 3));
        proof {
            lemma_be_value_bound(s@.subrange(0, 3));
            reveal_with_fuel(pow256, 4);
        }
        DataRecordValue::MPLS((v / 16) as u32, ((v / 2) % 8) as u8, (v % 2) as u8)
    } else {
        DataRecordValue::Error("mpls stack entry shorter than 3 bytes".to_owned(), s)
    }
}

/// The built-in ways of turning a field's bytes into a value.
#[derive(Clone, Copy, PartialEq, Eq, Debug, Structural)]
pub enum FieldDecoder {
    BeInt,
    Ipv4Addr,
    Ipv6Addr,
    BeString,
    MplsStack,
}

impl FieldDecoder {
    /// What this decoder makes of the bytes `b`.
    pub open spec fn model(self, b: Seq<u8>) -> ValueModel {
        match self {
            FieldDecoder::BeInt => be_int_model(b),
            FieldDecoder::Ipv4Addr => ipv4_model(b),
            FieldDecoder::Ipv6Addr => ipv6_model(b),
            FieldDecoder::BeString => be_string_model(b),
            FieldDecoder::MplsStack => mpls_model(b),
        }
    }

    /// Applies this decoder to the bytes `s`.
    pub fn decode<'a>(&self, s: &'a [u8]) -> (r: DataRecordValue<'a>)
        ensures
            r@ == self.model(s@),
    {
        match self {
            FieldDecoder::BeInt => be_int(s),
            FieldDecoder::Ipv4Addr => ipv4_addr(s),
            FieldDecoder::Ipv6Addr => ipv6_addr(s),
            FieldDecoder::BeString => be_string(s),
            FieldDecoder::MplsStack => mpls_stack(s),
        }
    }
}

/// The name and decoder of the IANA information element `id`, where the
/// built-in table has one.
pub open spec fn iana_entry(id: u16) -> Option<(&'static str, FieldDecoder)> {
    match id {
        1 => Some(("octetDeltaCount", FieldDecoder::BeInt)),
        2 => Some(("packetDeltaCount", FieldDecoder::BeInt)),
        4 => Some(("protocolIdentifier", FieldDecoder::BeInt)),
        5 => Some(("classOfServiceIPv4", FieldDecoder::BeInt)),
        6 => Some(("tcpControlBits", FieldDecoder::BeInt)),
        7 => Some(("sourceTransportPort", FieldDecoder::BeInt)),
        8 => Some(("sourceIPv4Address", FieldDecoder::Ipv4Addr)),
        9 => Some(("sourceIPv4Mask", FieldDecoder::BeInt)),
        10 => Some(("ingressInterface", FieldDecoder::BeInt)),
        11 => Some(("destinationTransportPort", FieldDecoder::BeInt)),
        12 => Some(("destinationIPv4Address", FieldDecoder::Ipv4Addr)),
        13 => Some(("destinationIPv4Mask", FieldDecoder::BeInt)),
        14 => Some(("egressInterface", FieldDecoder::BeInt)),
        15 => Some(("ipNextHopIPv4Address", FieldDecoder::Ipv4Addr)),
        16 => Some(("bgpSourceAsNumber", FieldDecoder::BeInt)),
        17 => Some(("bgpDestinationAsNumber", FieldDecoder::BeInt)),
        18 => Some(("bgpNextHopIPv4Address", FieldDecoder::BeInt)),
        19 => Some(("postMCastPacketDeltaCount", FieldDecoder::BeInt)),
        20 => Some(("postMCastOctetDeltaCount", FieldDecoder::BeInt)),
        21 => Some(("flowEndSysUpTime", FieldDecoder::BeInt)),
        22 => Some(("flowStartSysUpTime", FieldDecoder::BeInt)),
        23 => Some(("postOctetDeltaCount", FieldDecoder::BeInt)),
        24 => Some(("postPacketDeltaCount", FieldDecoder::BeInt)),
        25 => Some(("minimumPacketLength", FieldDecoder::BeInt)),
        26 => Some(("maximumPacketLength", FieldDecoder::BeInt)),
        27 => Some(("sourceIPv6Address", FieldDecoder::Ipv6Addr)),
        28 => Some(("destinationIPv6Address", FieldDecoder::Ipv6Addr)),
        29 => Some(("sourceIPv6Mask", FieldDecoder::BeInt)),
        30 => Some(("destinationIPv6Mask", FieldDecoder::BeInt)),
        31 => Some(("flowLabelIPv6", FieldDecoder::BeInt)),
        32 => Some(("icmpTypeCodeIPv4", FieldDecoder::BeInt)),
        33 => Some(("igmpType", FieldDecoder::BeInt)),
        36 => Some(("flowActiveTimeOut", FieldDecoder::BeInt)),
        37 => Some(("flowInactiveTimeout", FieldDecoder::BeInt)),
        40 => Some(("exportedOctetTotalCount", FieldDecoder::BeInt)),
        41 => Some(("exportedMessageTotalCount", FieldDecoder::BeInt)),
        42 => Some(("exportedFlowTotalCount", FieldDecoder::BeInt)),
        44 => Some(("sourceIPv4Prefix", FieldDecoder::BeInt)),
        45 => Some(("destinationIPv4Prefix", FieldDecoder::BeInt)),
        46 => Some(("mplsTopLabelType", FieldDecoder::BeInt)),
        47 => Some(("mplsTopLabelIPv4Address", FieldDecoder::Ipv4Addr)),
        52 => Some(("minimumTtl", FieldDecoder::BeInt)),
        53 => Some(("maximumTtl", FieldDecoder::BeInt)),
        54 => Some(("identificationIPv4", FieldDecoder::BeInt)),
        55 => Some(("postClassOfServiceIPv4", FieldDecoder::BeInt)),
        56 => Some(("sourceMacAddress", FieldDecoder::BeInt)),
        57 => Some(("postDestinationMacAddr", FieldDecoder::BeInt)),
        58 => Some(("vlanId", FieldDecoder::BeInt)),
        59 => Some(("postVlanId", FieldDecoder::BeInt)),
        60 => Some(("ipVersion", FieldDecoder::BeInt)),
        62 => Some(("ipNextHopIPv6Address", FieldDecoder::Ipv6Addr)),
        63 => Some(("bgpNextHopIPv6Address", FieldDecoder::Ipv6Addr)),
        64 => Some(("ipv6ExtensionHeaders", FieldDecoder::BeInt)),
        70 => Some(("mplsTopLabelStackEntry", FieldDecoder::MplsStack)),
        71 => Some(("mplsLabelStackEntry2", FieldDecoder::MplsStack)),
        72 => Some(("mplsLabelStackEntry3", FieldDecoder::MplsStack)),
        73 => Some(("mplsLabelStackEntry4", FieldDecoder::MplsStack)),
        74 => Some(("mplsLabelStackEntry5", FieldDecoder::MplsStack)),
        75 => Some(("mplsLabelStackEntry6", FieldDecoder::MplsStack)),
        76 => Some(("mplsLabelStackEntry7", FieldDecoder::MplsStack)),
        77 => Some(("mplsLabelStackEntry8", FieldDecoder::MplsStack)),
        78 => Some(("mplsLabelStackEntry9", FieldDecoder::MplsStack)),
        79 => Some(("mplsLabelStackEntry10", FieldDecoder::MplsStack)),
        80 => Some(("destinationMacAddress", FieldDecoder::BeInt)),
        81 => Some(("postSourceMacAddress", FieldDecoder::BeInt)),
        82 => Some(("interfaceName", FieldDecoder::BeInt)),
        83 => Some(("interfaceDescription", FieldDecoder::BeInt)),
        84 => Some(("samplerName", FieldDecoder::BeInt)),
        85 => Some(("octetTotalCount", FieldDecoder::BeInt)),
        86 => Some(("packetTotalCount", FieldDecoder::BeInt)),
        88 => Some(("fragmentOffsetIPv4", FieldDecoder::BeInt)),
        128 => Some(("bgpNextAdjacentAsNumber", FieldDecoder::BeInt)),
        129 => Some(("bgpPrevAdjacentAsNumber", FieldDecoder::BeInt)),
        130 => Some(("exporterIPv4Address", FieldDecoder::Ipv4Addr)),
        131 => Some(("exporterIPv6Address", FieldDecoder::Ipv6Addr)),
        132 => Some(("droppedOctetDeltaCount", FieldDecoder::BeInt)),
        133 => Some(("droppedPacketDeltaCount", FieldDecoder::BeInt)),
        134 => Some(("droppedOctetTotalCount", FieldDecoder::BeInt)),
        135 => Some(("droppedPacketTotalCount", FieldDecoder::BeInt)),
        136 => Some(("flowEndReason", FieldDecoder::BeInt)),
        137 => Some(("classOfServiceIPv6", FieldDecoder::BeInt)),
        138 => Some(("postClassOfServiceIPv6", FieldDecoder::BeInt)),
        139 => Some(("icmpTypeCodeIPv6", FieldDecoder::BeInt)),
        140 => Some(("mplsTopLabelIPv6Address", FieldDecoder::Ipv6Addr)),
        141 => Some(("lineCardId", FieldDecoder::BeInt)),
        142 => Some(("portId", FieldDecoder::BeInt)),
        143 => Some(("meteringProcessId", FieldDecoder::BeInt)),
        144 => Some(("exportingProcessId", FieldDecoder::BeInt)),
        145 => Some(("templateId", FieldDecoder::BeInt)),
        146 => Some(("wlanChannelId", FieldDecoder::BeInt)),
        147 => Some(("wlanSsid", FieldDecoder::BeInt)),
        148 => Some(("flowId", FieldDecoder::BeInt)),
        149 => Some(("sourceId", FieldDecoder::BeInt)),
        150 => Some(("flowStartSeconds", FieldDecoder::BeInt)),
        151 => Some(("flowEndSeconds", FieldDecoder::BeInt)),
        152 => Some(("flowStartMilliSeconds", FieldDecoder::BeInt)),
        153 => Some(("flowEndMilliSeconds", FieldDecoder::BeInt)),
        154 => Some(("flowStartMicroSeconds", FieldDecoder::BeInt)),
        155 => Some(("flowEndMicroSeconds", FieldDecoder::BeInt)),
        156 => Some(("flowStartNanoSeconds", FieldDecoder::BeInt)),
        157 => Some(("flowEndNanoSeconds", FieldDecoder::BeInt)),
        158 => Some(("flowStartDeltaMicroSeconds", FieldDecoder::BeInt)),
        159 => Some(("flowEndDeltaMicroSeconds", FieldDecoder::BeInt)),
        160 => Some(("systemInitTimeMilliSeconds", FieldDecoder::BeInt)),
        161 => Some(("flowDurationMilliSeconds", FieldDecoder::BeInt)),
        162 => Some(("flowDurationMicroSeconds", FieldDecoder::BeInt)),
        163 => Some(("observedFlowTotalCount", FieldDecoder::BeInt)),
        164 => Some(("ignoredPacketTotalCount", FieldDecoder::BeInt)),
        165 => Some(("ignoredOctetTotalCount", FieldDecoder::BeInt)),
        166 => Some(("notSentFlowTotalCount", FieldDecoder::BeInt)),
        167 => Some(("notSentPacketTotalCount", FieldDecoder::BeInt)),
        168 => Some(("notSentOctetTotalCount", FieldDecoder::BeInt)),
        169 => Some(("destinationIPv6Prefix", FieldDecoder::BeInt)),
        170 => Some(("sourceIPv6Prefix", FieldDecoder::BeInt)),
        171 => Some(("postOctetTotalCount", FieldDecoder::BeInt)),
        172 => Some(("postPacketTotalCount", FieldDecoder::BeInt)),
        173 => Some(("flowKeyIndicator", FieldDecoder::BeInt)),
        174 => Some(("postMCastPacketTotalCount", FieldDecoder::BeInt)),
        175 => Some(("postMCastOctetTotalCount", FieldDecoder::BeInt)),
        176 => Some(("icmpTypeIPv4", FieldDecoder::BeInt)),
        177 => Some(("icmpCodeIPv4", FieldDecoder::BeInt)),
        178 => Some(("icmpTypeIPv6", FieldDecoder::BeInt)),
        179 => Some(("icmpCodeIPv6", FieldDecoder::BeInt)),
        180 => Some(("udpSourcePort", FieldDecoder::BeInt)),
        181 => Some(("udpDestinationPort", FieldDecoder::BeInt)),
        182 => Some(("tcpSourcePort", FieldDecoder::BeInt)),
        183 => Some(("tcpDestinationPort", FieldDecoder::BeInt)),
        184 => Some(("tcpSequenceNumber", FieldDecoder::BeInt)),
        185 => Some(("tcpAcknowledgementNumber", FieldDecoder::BeInt)),
        186 => Some(("tcpWindowSize", FieldDecoder::BeInt)),
        187 => Some(("tcpUrgentPointer", FieldDecoder::BeInt)),
        188 => Some(("tcpHeaderLength", FieldDecoder::BeInt)),
        189 => Some(("ipHeaderLength", FieldDecoder::BeInt)),
        190 => Some(("totalLengthIPv4", FieldDecoder::BeInt)),
        191 => Some(("payloadLengthIPv6", FieldDecoder::BeInt)),
        192 => Some(("ipTimeToLive", FieldDecoder::BeInt)),
        193 => Some(("nextHeaderIPv6", FieldDecoder::BeInt)),
        194 => Some(("ipClassOfService", FieldDecoder::BeInt)),
        195 => Some(("ipDiffServCodePoint", FieldDecoder::BeInt)),
        196 => Some(("ipPrecedence", FieldDecoder::BeInt)),
        197 => Some(("fragmentFlagsIPv4", FieldDecoder::BeInt)),
        198 => Some(("octetDeltaSumOfSquares", FieldDecoder::BeInt)),
        199 => Some(("octetTotalSumOfSquares", FieldDecoder::BeInt)),
        200 => Some(("mplsTopLabelTtl", FieldDecoder::BeInt)),
        201 => Some(("mplsLabelStackLength", FieldDecoder::BeInt)),
        202 => Some(("mplsLabelStackDepth", FieldDecoder::BeInt)),
        203 => Some(("mplsTopLabelExp", FieldDecoder::BeInt)),
        204 => Some(("ipPayloadLength", FieldDecoder::BeInt)),
        205 => Some(("udpMessageLength", FieldDecoder::BeInt)),
        206 => Some(("isMulticast", FieldDecoder::BeInt)),
        207 => Some(("internetHeaderLengthIPv4", FieldDecoder::BeInt)),
        208 => Some(("ipv4Options", FieldDecoder::BeInt)),
        209 => Some(("tcpOptions", FieldDecoder::BeInt)),
        210 => Some(("paddingOctets", FieldDecoder::BeInt)),
        213 => Some(("headerLengthIPv4", FieldDecoder::BeInt)),
        214 => Some(("mplsPayloadLength", FieldDecoder::BeInt)),
        _ => None,
    }
}

/// Looks up the IANA information element `id` in the built-in table.
pub fn iana_field(id: u16) -> (r: Option<(&'static str, FieldDecoder)>)
    ensures
        r == iana_entry(id),
{
    match id {
        1 => Some(("octetDeltaCount", FieldDecoder::BeInt)),
        2 => Some(("packetDeltaCount", FieldDecoder::BeInt)),
        4 => Some(("protocolIdentifier", FieldDecoder::BeInt)),
        5 => Some(("classOfServiceIPv4", FieldDecoder::BeInt)),
        6 => Some(("tcpControlBits", FieldDecoder::BeInt)),
        7 => Some(("sourceTransportPort", FieldDecoder::BeInt)),
        8 => Some(("sourceIPv4Address", FieldDecoder::Ipv4Addr)),
        9 => Some(("sourceIPv4Mask", FieldDecoder::BeInt)),
        10 => Some(("ingressInterface", FieldDecoder::BeInt)),
        11 => Some(("destinationTransportPort", FieldDecoder::BeInt)),
        12 => Some(("destinationIPv4Address", FieldDecoder::Ipv4Addr)),
        13 => Some(("destinationIPv4Mask", FieldDecoder::BeInt)),
        14 => Some(("egressInterface", FieldDecoder::BeInt)),
        15 => Some(("ipNextHopIPv4Address", FieldDecoder::Ipv4Addr)),
        16 => Some(("bgpSourceAsNumber", FieldDecoder::BeInt)),
        17 => Some(("bgpDestinationAsNumber", FieldDecoder::BeInt)),
        18 => Some(("bgpNextHopIPv4Address", FieldDecoder::BeInt)),
        19 => Some(("postMCastPacketDeltaCount", FieldDecoder::BeInt)),
        20 => Some(("postMCastOctetDeltaCount", FieldDecoder::BeInt)),
        21 => Some(("flowEndSysUpTime", FieldDecoder::BeInt)),
        22 => Some(("flowStartSysUpTime", FieldDecoder::BeInt)),
        23 => Some(("postOctetDeltaCount", FieldDecoder::BeInt)),
        24 => Some(("postPacketDeltaCount", FieldDecoder::BeInt)),
        25 => Some(("minimumPacketLength", FieldDecoder::BeInt)),
        26 => Some(("maximumPacketLength", FieldDecoder::BeInt)),
        27 => Some(("sourceIPv6Address", FieldDecoder::Ipv6Addr)),
        28 => Some(("destinationIPv6Address", FieldDecoder::Ipv6Addr)),
        29 => Some(("sourceIPv6Mask", FieldDecoder::BeInt)),
        30 => Some(("destinationIPv6Mask", FieldDecoder::BeInt)),
        31 => Some(("flowLabelIPv6", FieldDecoder::BeInt)),
        32 => Some(("icmpTypeCodeIPv4", FieldDecoder::BeInt)),
        33 => Some(("igmpType", FieldDecoder::BeInt)),
        36 => Some(("flowActiveTimeOut", FieldDecoder::BeInt)),
        37 => Some(("flowInactiveTimeout", FieldDecoder::BeInt)),
        40 => Some(("exportedOctetTotalCount", FieldDecoder::BeInt)),
        41 => Some(("exportedMessageTotalCount", FieldDecoder::BeInt)),
        42 => Some(("exportedFlowTotalCount", FieldDecoder::BeInt)),
        44 => Some(("sourceIPv4Prefix", FieldDecoder::BeInt)),
        45 => Some(("destinationIPv4Prefix", FieldDecoder::BeInt)),
        46 => Some(("mplsTopLabelType", FieldDecoder::BeInt)),
        47 => Some(("mplsTopLabelIPv4Address", FieldDecoder::Ipv4Addr)),
        52 => Some(("minimumTtl", FieldDecoder::BeInt)),
        53 => Some(("maximumTtl", FieldDecoder::BeInt)),
        54 => Some(("identificationIPv4", FieldDecoder::BeInt)),
        55 => Some(("postClassOfServiceIPv4", FieldDecoder::BeInt)),
        56 => Some(("sourceMacAddress", FieldDecoder::BeInt)),
        57 => Some(("postDestinationMacAddr", FieldDecoder::BeInt)),
        58 => Some(("vlanId", FieldDecoder::BeInt)),
        59 => Some(("postVlanId", FieldDecoder::BeInt)),
        60 => Some(("ipVersion", FieldDecoder::BeInt)),
        62 => Some(("ipNextHopIPv6Address", FieldDecoder::Ipv6Addr)),
        63 => Some(("bgpNextHopIPv6Address", FieldDecoder::Ipv6Addr)),
        64 => Some(("ipv6ExtensionHeaders", FieldDecoder::BeInt)),
        70 => Some(("mplsTopLabelStackEntry", FieldDecoder::MplsStack)),
        71 => Some(("mplsLabelStackEntry2", FieldDecoder::MplsStack)),
        72 => Some(("mplsLabelStackEntry3", FieldDecoder::MplsStack)),
        73 => Some(("mplsLabelStackEntry4", FieldDecoder::MplsStack)),
        74 => Some(("mplsLabelStackEntry5", FieldDecoder::MplsStack)),
        75 => Some(("mplsLabelStackEntry6", FieldDecoder::MplsStack)),
        76 => Some(("mplsLabelStackEntry7", FieldDecoder::MplsStack)),
        77 => Some(("mplsLabelStackEntry8", FieldDecoder::MplsStack)),
        78 => Some(("mplsLabelStackEntry9", FieldDecoder::MplsStack)),
        79 => Some(("mplsLabelStackEntry10", FieldDecoder::MplsStack)),
        80 => Some(("destinationMacAddress", FieldDecoder::BeInt)),
        81 => Some(("postSourceMacAddress", FieldDecoder::BeInt)),
        82 => Some(("interfaceName", FieldDecoder::BeInt)),
        83 => Some(("interfaceDescription", FieldDecoder::BeInt)),
        84 => Some(("samplerName", FieldDecoder::BeInt)),
        85 => Some(("octetTotalCount", FieldDecoder::BeInt)),
        86 => Some(("packetTotalCount", FieldDecoder::BeInt)),
        88 => Some(("fragmentOffsetIPv4", FieldDecoder::BeInt)),
        128 => Some(("bgpNextAdjacentAsNumber", FieldDecoder::BeInt)),
        129 => Some(("bgpPrevAdjacentAsNumber", FieldDecoder::BeInt)),
        130 => Some(("exporterIPv4Address", FieldDecoder::Ipv4Addr)),
        131 => Some(("exporterIPv6Address", FieldDecoder::Ipv6Addr)),
        132 => Some(("droppedOctetDeltaCount", FieldDecoder::BeInt)),
        133 => Some(("droppedPacketDeltaCount", FieldDecoder::BeInt)),
        134 => Some(("droppedOctetTotalCount", FieldDecoder::BeInt)),
        135 => Some(("droppedPacketTotalCount", FieldDecoder::BeInt)),
        136 => Some(("flowEndReason", FieldDecoder::BeInt)),
        137 => Some(("classOfServiceIPv6", FieldDecoder::BeInt)),
        138 => Some(("postClassOfServiceIPv6", FieldDecoder::BeInt)),
        139 => Some(("icmpTypeCodeIPv6", FieldDecoder::BeInt)),
        140 => Some(("mplsTopLabelIPv6Address", FieldDecoder::Ipv6Addr)),
        141 => Some(("lineCardId", FieldDecoder::BeInt)),
        142 => Some(("portId", FieldDecoder::BeInt)),
        143 => Some(("meteringProcessId", FieldDecoder::BeInt)),
        144 => Some(("exportingProcessId", FieldDecoder::BeInt)),
        145 => Some(("templateId", FieldDecoder::BeInt)),
        146 => Some(("wlanChannelId", FieldDecoder::BeInt)),
        147 => Some(("wlanSsid", FieldDecoder::BeInt)),
        148 => Some(("flowId", FieldDecoder::BeInt)),
        149 => Some(("sourceId", FieldDecoder::BeInt)),
        150 => Some(("flowStartSeconds", FieldDecoder::BeInt)),
        151 => Some(("flowEndSeconds", FieldDecoder::BeInt)),
        152 => Some(("flowStartMilliSeconds", FieldDecoder::BeInt)),
        153 => Some(("flowEndMilliSeconds", FieldDecoder::BeInt)),
        154 => Some(("flowStartMicroSeconds", FieldDecoder::BeInt)),
        155 => Some(("flowEndMicroSeconds", FieldDecoder::BeInt)),
        156 => Some(("flowStartNanoSeconds", FieldDecoder::BeInt)),
        157 => Some(("flowEndNanoSeconds", FieldDecoder::BeInt)),
        158 => Some(("flowStartDeltaMicroSeconds", FieldDecoder::BeInt)),
        159 => Some(("flowEndDeltaMicroSeconds", FieldDecoder::BeInt)),
        160 => Some(("systemInitTimeMilliSeconds", FieldDecoder::BeInt)),
        161 => Some(("flowDurationMilliSeconds", FieldDecoder::BeInt)),
        162 => Some(("flowDurationMicroSeconds", FieldDecoder::BeInt)),
        163 => Some(("observedFlowTotalCount", FieldDecoder::BeInt)),
        164 => Some(("ignoredPacketTotalCount", FieldDecoder::BeInt)),
        165 => Some(("ignoredOctetTotalCount", FieldDecoder::BeInt)),
        166 => Some(("notSentFlowTotalCount", FieldDecoder::BeInt)),
        167 => Some(("notSentPacketTotalCount", FieldDecoder::BeInt)),
        168 => Some(("notSentOctetTotalCount", FieldDecoder::BeInt)),
        169 => Some(("destinationIPv6Prefix", FieldDecoder::BeInt)),
        170 => Some(("sourceIPv6Prefix", FieldDecoder::BeInt)),
        171 => Some(("postOctetTotalCount", FieldDecoder::BeInt)),
        172 => Some(("postPacketTotalCount", FieldDecoder::BeInt)),
        173 => Some(("flowKeyIndicator", FieldDecoder::BeInt)),
        174 => Some(("postMCastPacketTotalCount", FieldDecoder::BeInt)),
        175 => Some(("postMCastOctetTotalCount", FieldDecoder::BeInt)),
        176 => Some(("icmpTypeIPv4", FieldDecoder::BeInt)),
        177 => Some(("icmpCodeIPv4", FieldDecoder::BeInt)),
        178 => Some(("icmpTypeIPv6", FieldDecoder::BeInt)),
        179 => Some(("icmpCodeIPv6", FieldDecoder::BeInt)),
        180 => Some(("udpSourcePort", FieldDecoder::BeInt)),
        181 => Some(("udpDestinationPort", FieldDecoder::BeInt)),
        182 => Some(("tcpSourcePort", FieldDecoder::BeInt)),
        183 => Some(("tcpDestinationPort", FieldDecoder::BeInt)),
        184 => Some(("tcpSequenceNumber", FieldDecoder::BeInt)),
        185 => Some(("tcpAcknowledgementNumber", FieldDecoder::BeInt)),
        186 => Some(("tcpWindowSize", FieldDecoder::BeInt)),
        187 => Some(("tcpUrgentPointer", FieldDecoder::BeInt)),
        188 => Some(("tcpHeaderLength", FieldDecoder::BeInt)),
        189 => Some(("ipHeaderLength", FieldDecoder::BeInt)),
        190 => Some(("totalLengthIPv4", FieldDecoder::BeInt)),
        191 => Some(("payloadLengthIPv6", FieldDecoder::BeInt)),
        192 => Some(("ipTimeToLive", FieldDecoder::BeInt)),
        193 => Some(("nextHeaderIPv6", FieldDecoder::BeInt)),
        194 => Some(("ipClassOfService", FieldDecoder::BeInt)),
        195 => Some(("ipDiffServCodePoint", FieldDecoder::BeInt)),
        196 => Some(("ipPrecedence", FieldDecoder::BeInt)),
        197 => Some(("fragmentFlagsIPv4", FieldDecoder::BeInt)),
        198 => Some(("octetDeltaSumOfSquares", FieldDecoder::BeInt)),
        199 => Some(("octetTotalSumOfSquares", FieldDecoder::BeInt)),
        200 => Some(("mplsTopLabelTtl", FieldDecoder::BeInt)),
        201 => Some(("mplsLabelStackLength", FieldDecoder::BeInt)),
        202 => Some(("mplsLabelStackDepth", FieldDecoder::BeInt)),
        203 => Some(("mplsTopLabelExp", FieldDecoder::BeInt)),
        204 => Some(("ipPayloadLength", FieldDecoder::BeInt)),
        205 => Some(("udpMessageLength", FieldDecoder::BeInt)),
        206 => Some(("isMulticast", FieldDecoder::BeInt)),
        207 => Some(("internetHeaderLengthIPv4", FieldDecoder::BeInt)),
        208 => Some(("ipv4Options", FieldDecoder::BeInt)),
        209 => Some(("tcpOptions", FieldDecoder::BeInt)),
        210 => Some(("paddingOctets", FieldDecoder::BeInt)),
        213 => Some(("headerLengthIPv4", FieldDecoder::BeInt)),
        214 => Some(("mplsPayloadLength", FieldDecoder::BeInt)),
        _ => None,
    }
}

/// Mapping of field id to (name, decoder).
pub type FieldFormatter = FxHashMap<u16, (&'static str, FieldDecoder)>;

/// Mapping of enterprise number to the field formatters under it.
pub type EnterpriseFormatter = FxHashMap<u32, FieldFormatter>;

/// The built-in formatters of enterprise number 0, as a map.
pub open spec fn default_formats() -> Map<u16, (&'static str, FieldDecoder)> {
    Map::new(|id: u16| iana_entry(id) is Some, |id: u16| iana_entry(id).unwrap())
}

/// The built-in field formatters for enterprise number 0.
pub fn get_default_parsers() -> (r: FieldFormatter)
    ensures
        r@ == default_formats(),
{
    let mut m: FieldFormatter = FxHashMap::default();
    let mut i: u32 = 0;
    while i <= 0xffff
        invariant
            i <= 0x1_0000,
            m@ == Map::new(
                |id: u16| (id as u32) < i && iana_entry(id) is Some,
                |id: u16| iana_entry(id).unwrap(),
            ),
        decreases 0x1_0000 - i,
    {
        let id = i as u16;
        match iana_field(id) {
            Some(entry) => {
                fx_insert(&mut m, id, entry);
            },
            None => {},
        }
        i = i + 1;
        assert(m@ =~= Map::new(
            |k: u16| (k as u32) < i && iana_entry(k) is Some,
            |k: u16| iana_entry(k).unwrap(),
        ));
    }
    assert(m@ =~= default_formats());
    m
}

/// What a formatter registry holds: by enterprise number, by field id, a
/// name and a decoder.
pub open spec fn formats_view(m: &EnterpriseFormatter) -> Map<u32, Map<u16, (&'static str, FieldDecoder)>> {
    Map::new(|pen: u32| m@.contains_key(pen), |pen: u32| m@[pen]@)
}

} // verus!
