//! BGP address-family identifiers, written down from the IANA registries
//! so that unexpected families can be reported in a searchable form.

use vstd::prelude::*;

verus! {

/// IANA address family numbers.
#[derive(Debug, Clone, Copy, PartialEq, Eq, Structural)]
pub enum AddressFamilyNumber {
    IPv4,
    IPv6,
    NSAP,
    HDLC,
    BNN,
    IEEE802,
    E163,
    E164,
    F69,
    X121,
    IPX,
    Appletalk,
    DecnetIV,
    BanyanVines,
    E164WithNSAP,
    DNS,
    DistinguishedName,
    ASNumber,
    XtpViaIPv4,
    XtpViaIPv6,
    XtpNative,
    FibreChannelPortName,
    FibreChannelNodeName,
    GWID,
    AFI,
    MplsTpSectionEndpointIdentifier,
    MplsTpLspEndpointIdentifier,
    MplsTpPseudowireEndpointIdentifier,
    MTIPv4,
    MTIPv6,
    BgpSfc,
    EigrpCommonServiceFamily,
    EigrpIPv4,
    EigrpIPv6,
    LCAF,
    BgpLs,
    MAC48bit,
    MAC64bit,
    OUI,
    MAC24,
    MAC40,
    IPv6_64,
    RBridgePortID,
    TrillNickname,
    UUID,
    RoutingPolicyAFI,
    MplsNamespaces,
}

/// The wire value of each AddressFamilyNumber variant.
pub open spec fn afn_code(e: AddressFamilyNumber) -> u16 {
    match e {
        AddressFamilyNumber::IPv4 => 1,
        AddressFamilyNumber::IPv6 => 2,
        AddressFamilyNumber::NSAP => 3,
        AddressFamilyNumber::HDLC => 4,
        AddressFamilyNumber::BNN => 5,
        AddressFamilyNumber::IEEE802 => 6,
        AddressFamilyNumber::E163 => 7,
        AddressFamilyNumber::E164 => 8,
        AddressFamilyNumber::F69 => 9,
        AddressFamilyNumber::X121 => 10,
        AddressFamilyNumber::IPX => 11,
        AddressFamilyNumber::Appletalk => 12,
        AddressFamilyNumber::DecnetIV => 13,
        AddressFamilyNumber::BanyanVines => 14,
        AddressFamilyNumber::E164WithNSAP => 15,
        AddressFamilyNumber::DNS => 16,
        AddressFamilyNumber::DistinguishedName => 17,
        AddressFamilyNumber::ASNumber => 18,
        AddressFamilyNumber::XtpViaIPv4 => 19,
        AddressFamilyNumber::XtpViaIPv6 => 20,
        AddressFamilyNumber::XtpNative => 21,
        AddressFamilyNumber::FibreChannelPortName => 22,
        AddressFamilyNumber::FibreChannelNodeName => 23,
        AddressFamilyNumber::GWID => 24,
        AddressFamilyNumber::AFI => 25,
        AddressFamilyNumber::MplsTpSectionEndpointIdentifier => 26,
        AddressFamilyNumber::MplsTpLspEndpointIdentifier => 27,
        AddressFamilyNumber::MplsTpPseudowireEndpointIdentifier => 28,
        AddressFamilyNumber::MTIPv4 => 29,
        AddressFamilyNumber::MTIPv6 => 30,
        AddressFamilyNumber::BgpSfc => 31,
        AddressFamilyNumber::EigrpCommonServiceFamily => 16384,
        AddressFamilyNumber::EigrpIPv4 => 16385,
        AddressFamilyNumber::EigrpIPv6 => 16386,
        AddressFamilyNumber::LCAF => 16387,
        AddressFamilyNumber::BgpLs => 16388,
        AddressFamilyNumber::MAC48bit => 16389,
        AddressFamilyNumber::MAC64bit => 16390,
        AddressFamilyNumber::OUI => 16391,
        AddressFamilyNumber::MAC24 => 16392,
        AddressFamilyNumber::MAC40 => 16393,
        AddressFamilyNumber::IPv6_64 => 16394,
        AddressFamilyNumber::RBridgePortID => 16395,
        AddressFamilyNumber::TrillNickname => 16396,
        AddressFamilyNumber::UUID => 16397,
        AddressFamilyNumber::RoutingPolicyAFI => 16398,
        AddressFamilyNumber::MplsNamespaces => 16399,
    }
}

/// The variant carried by a wire value, if any.
pub open spec fn afn_from_code(x: u16) -> Option<AddressFamilyNumber> {
    match x {
        1 => Some(AddressFamilyNumber::IPv4),
        2 => Some(AddressFamilyNumber::IPv6),
        3 => Some(AddressFamilyNumber::NSAP),
        4 => Some(AddressFamilyNumber::HDLC),
        5 => Some(AddressFamilyNumber::BNN),
        6 => Some(AddressFamilyNumber::IEEE802),
        7 => Some(AddressFamilyNumber::E163),
        8 => Some(AddressFamilyNumber::E164),
        9 => Some(AddressFamilyNumber::F69),
        10 => Some(AddressFamilyNumber::X121),
        11 => Some(AddressFamilyNumber::IPX),
        12 => Some(AddressFamilyNumber::Appletalk),
        13 => Some(AddressFamilyNumber::DecnetIV),
        14 => Some(AddressFamilyNumber::BanyanVines),
        15 => Some(AddressFamilyNumber::E164WithNSAP),
        16 => Some(AddressFamilyNumber::DNS),
        17 => Some(AddressFamilyNumber::DistinguishedName),
        18 => Some(AddressFamilyNumber::ASNumber),
        19 => Some(AddressFamilyNumber::XtpViaIPv4),
        20 => Some(AddressFamilyNumber::XtpViaIPv6),
        21 => Some(AddressFamilyNumber::XtpNative),
        22 => Some(AddressFamilyNumber::FibreChannelPortName),
        23 => Some(AddressFamilyNumber::FibreChannelNodeName),
        24 => Some(AddressFamilyNumber::GWID),
        25 => Some(AddressFamilyNumber::AFI),
        26 => Some(AddressFamilyNumber::MplsTpSectionEndpointIdentifier),
        27 => Some(AddressFamilyNumber::MplsTpLspEndpointIdentifier),
        28 => Some(AddressFamilyNumber::MplsTpPseudowireEndpointIdentifier),
        29 => Some(AddressFamilyNumber::MTIPv4),
        30 => Some(AddressFamilyNumber::MTIPv6),
        31 => Some(AddressFamilyNumber::BgpSfc),
        16384 => Some(AddressFamilyNumber::EigrpCommonServiceFamily),
        16385 => Some(AddressFamilyNumber::EigrpIPv4),
        16386 => Some(AddressFamilyNumber::EigrpIPv6),
        16387 => Some(AddressFamilyNumber::LCAF),
        16388 => Some(AddressFamilyNumber::BgpLs),
        16389 => Some(AddressFamilyNumber::MAC48bit),
        16390 => Some(AddressFamilyNumber::MAC64bit),
        16391 => Some(AddressFamilyNumber::OUI),
        16392 => Some(AddressFamilyNumber::MAC24),
        16393 => Some(AddressFamilyNumber::MAC40),
        16394 => Some(AddressFamilyNumber::IPv6_64),
        16395 => Some(AddressFamilyNumber::RBridgePortID),
        16396 => Some(AddressFamilyNumber::TrillNickname),
        16397 => Some(AddressFamilyNumber::UUID),
        16398 => Some(AddressFamilyNumber::RoutingPolicyAFI),
        16399 => Some(AddressFamilyNumber::MplsNamespaces),
        _ => None,
    }
}

impl AddressFamilyNumber {
    /// The wire value of this variant.
    pub fn code(&self) -> (r: u16)
        ensures
            r == afn_code(*self),
    {
        match *self {
            AddressFamilyNumber::IPv4 => 1,
            AddressFamilyNumber::IPv6 => 2,
            AddressFamilyNumber::NSAP => 3,
            AddressFamilyNumber::HDLC => 4,
            AddressFamilyNumber::BNN => 5,
            AddressFamilyNumber::IEEE802 => 6,
            AddressFamilyNumber::E163 => 7,
            AddressFamilyNumber::E164 => 8,
            AddressFamilyNumber::F69 => 9,
            AddressFamilyNumber::X121 => 10,
            AddressFamilyNumber::IPX => 11,
            AddressFamilyNumber::Appletalk => 12,
            AddressFamilyNumber::DecnetIV => 13,
            AddressFamilyNumber::BanyanVines => 14,
            AddressFamilyNumber::E164WithNSAP => 15,
            AddressFamilyNumber::DNS => 16,
            AddressFamilyNumber::DistinguishedName => 17,
            AddressFamilyNumber::ASNumber => 18,
            AddressFamilyNumber::XtpViaIPv4 => 19,
            AddressFamilyNumber::XtpViaIPv6 => 20,
            AddressFamilyNumber::XtpNative => 21,
            AddressFamilyNumber::FibreChannelPortName => 22,
            AddressFamilyNumber::FibreChannelNodeName => 23,
            AddressFamilyNumber::GWID => 24,
            AddressFamilyNumber::AFI => 25,
            AddressFamilyNumber::MplsTpSectionEndpointIdentifier => 26,
            AddressFamilyNumber::MplsTpLspEndpointIdentifier => 27,
            AddressFamilyNumber::MplsTpPseudowireEndpointIdentifier => 28,
            AddressFamilyNumber::MTIPv4 => 29,
            AddressFamilyNumber::MTIPv6 => 30,
            AddressFamilyNumber::BgpSfc => 31,
            AddressFamilyNumber::EigrpCommonServiceFamily => 16384,
            AddressFamilyNumber::EigrpIPv4 => 16385,
            AddressFamilyNumber::EigrpIPv6 => 16386,
            AddressFamilyNumber::LCAF => 16387,
            AddressFamilyNumber::BgpLs => 16388,
            AddressFamilyNumber::MAC48bit => 16389,
            AddressFamilyNumber::MAC64bit => 16390,
            AddressFamilyNumber::OUI => 16391,
            AddressFamilyNumber::MAC24 => 16392,
            AddressFamilyNumber::MAC40 => 16393,
            AddressFamilyNumber::IPv6_64 => 16394,
            AddressFamilyNumber::RBridgePortID => 16395,
            AddressFamilyNumber::TrillNickname => 16396,
            AddressFamilyNumber::UUID => 16397,
            AddressFamilyNumber::RoutingPolicyAFI => 16398,
            AddressFamilyNumber::MplsNamespaces => 16399,
        }
    }

    /// Reads a wire value back into a variant.
    pub fn from_code(x: u16) -> (r: Option<AddressFamilyNumber>)
        ensures
            r == afn_from_code(x),
    {
        match x {
            1 => Some(AddressFamilyNumber::IPv4),
            2 => Some(AddressFamilyNumber::IPv6),
            3 => Some(AddressFamilyNumber::NSAP),
            4 => Some(AddressFamilyNumber::HDLC),
            5 => Some(AddressFamilyNumber::BNN),
            6 => Some(AddressFamilyNumber::IEEE802),
            7 => Some(AddressFamilyNumber::E163),
            8 => Some(AddressFamilyNumber::E164),
            9 => Some(AddressFamilyNumber::F69),
            10 => Some(AddressFamilyNumber::X121),
            11 => Some(AddressFamilyNumber::IPX),
            12 => Some(AddressFamilyNumber::Appletalk),
            13 => Some(AddressFamilyNumber::DecnetIV),
            14 => Some(AddressFamilyNumber::BanyanVines),
            15 => Some(AddressFamilyNumber::E164WithNSAP),
            16 => Some(AddressFamilyNumber::DNS),
            17 => Some(AddressFamilyNumber::DistinguishedName),
            18 => Some(AddressFamilyNumber::ASNumber),
            19 => Some(AddressFamilyNumber::XtpViaIPv4),
            20 => Some(AddressFamilyNumber::XtpViaIPv6),
            21 => Some(AddressFamilyNumber::XtpNative),
            22 => Some(AddressFamilyNumber::FibreChannelPortName),
            23 => Some(AddressFamilyNumber::FibreChannelNodeName),
            24 => Some(AddressFamilyNumber::GWID),
            25 => Some(AddressFamilyNumber::AFI),
            26 => Some(AddressFamilyNumber::MplsTpSectionEndpointIdentifier),
            27 => Some(AddressFamilyNumber::MplsTpLspEndpointIdentifier),
            28 => Some(AddressFamilyNumber::MplsTpPseudowireEndpointIdentifier),
            29 => Some(AddressFamilyNumber::MTIPv4),
            30 => Some(AddressFamilyNumber::MTIPv6),
            31 => Some(AddressFamilyNumber::BgpSfc),
            16384 => Some(AddressFamilyNumber::EigrpCommonServiceFamily),
            16385 => Some(AddressFamilyNumber::EigrpIPv4),
            16386 => Some(AddressFamilyNumber::EigrpIPv6),
            16387 => Some(AddressFamilyNumber::LCAF),
            16388 => Some(AddressFamilyNumber::BgpLs),
            16389 => Some(AddressFamilyNumber::MAC48bit),
            16390 => Some(AddressFamilyNumber::MAC64bit),
            16391 => Some(AddressFamilyNumber::OUI),
            16392 => Some(AddressFamilyNumber::MAC24),
            16393 => Some(AddressFamilyNumber::MAC40),
            16394 => Some(AddressFamilyNumber::IPv6_64),
            16395 => Some(AddressFamilyNumber::RBridgePortID),
            16396 => Some(AddressFamilyNumber::TrillNickname),
            16397 => Some(AddressFamilyNumber::UUID),
            16398 => Some(AddressFamilyNumber::RoutingPolicyAFI),
            16399 => Some(AddressFamilyNumber::MplsNamespaces),
            _ => None,
        }
    }
}

/// Every variant's wire value reads back to that variant.
pub proof fn lemma_afn_roundtrip(e: AddressFamilyNumber)
    ensures
        afn_from_code(afn_code(e)) == Some(e),
{
}

/// IANA subsequent address family identifiers.
#[derive(Debug, Clone, Copy, PartialEq, Eq, Structural)]
pub enum SubsequentAddressFamilyIdentifiers {
    NlriUnicastForwarding,
    NlriMulticastForwarding,
    NlriMpls,
    McastVpn,
    NlriDynamicPseudowires,
    EncapsulationSAFI,
    McastVpls,
    BgpSfc,
    TunnelSafi,
    VPLS,
    BgpMdtSafi,
    Bgp4over6Safi,
    Bgp6over4Safi,
    VpnDiscoveryInformation,
    BgpEvpns,
    BgpLs,
    BgpLsVpn,
    SrTePolicySafi,
    SdWanCapabilities,
    RoutingPolicySafi,
    ClassfulTransportSafi,
    TunneledTrafficFlowspec,
    McastTree,
    BgpDps,
    BgpLsSpf,
    BgpCar,
    BgpVpnCar,
    BgpMupSafi,
    MplsVpnAddress,
    BgpMulticastOrMplsVpns,
    RouteTargetConstrains,
    FlowSpecificationRules,
    L3VpnFlowSpecificationRules,
    VpnAutoDiscovery,
}

/// The wire value of each SubsequentAddressFamilyIdentifiers variant.
pub open spec fn safi_code(e: SubsequentAddressFamilyIdentifiers) -> u16 {
    match e {
        SubsequentAddressFamilyIdentifiers::NlriUnicastForwarding => 1,
        SubsequentAddressFamilyIdentifiers::NlriMulticastForwarding => 2,
        SubsequentAddressFamilyIdentifiers::NlriMpls => 4,
        SubsequentAddressFamilyIdentifiers::McastVpn => 5,
        SubsequentAddressFamilyIdentifiers::NlriDynamicPseudowires => 6,
        SubsequentAddressFamilyIdentifiers::EncapsulationSAFI => 7,
        SubsequentAddressFamilyIdentifiers::McastVpls => 8,
        SubsequentAddressFamilyIdentifiers::BgpSfc => 9,
        SubsequentAddressFamilyIdentifiers::TunnelSafi => 64,
        SubsequentAddressFamilyIdentifiers::VPLS => 65,
        SubsequentAddressFamilyIdentifiers::BgpMdtSafi => 66,
        SubsequentAddressFamilyIdentifiers::Bgp4over6Safi => 67,
        SubsequentAddressFamilyIdentifiers::Bgp6over4Safi => 68,
        SubsequentAddressFamilyIdentifiers::VpnDiscoveryInformation => 69,
        SubsequentAddressFamilyIdentifiers::BgpEvpns => 70,
        SubsequentAddressFamilyIdentifiers::BgpLs => 71,
        SubsequentAddressFamilyIdentifiers::BgpLsVpn => 72,
        SubsequentAddressFamilyIdentifiers::SrTePolicySafi => 73,
        SubsequentAddressFamilyIdentifiers::SdWanCapabilities => 74,
        SubsequentAddressFamilyIdentifiers::RoutingPolicySafi => 75,
        SubsequentAddressFamilyIdentifiers::ClassfulTransportSafi => 76,
        SubsequentAddressFamilyIdentifiers::TunneledTrafficFlowspec => 77,
        SubsequentAddressFamilyIdentifiers::McastTree => 78,
        SubsequentAddressFamilyIdentifiers::BgpDps => 79,
        SubsequentAddressFamilyIdentifiers::BgpLsSpf => 80,
        SubsequentAddressFamilyIdentifiers::BgpCar => 83,
        SubsequentAddressFamilyIdentifiers::BgpVpnCar => 84,
        SubsequentAddressFamilyIdentifiers::BgpMupSafi => 85,
        SubsequentAddressFamilyIdentifiers::MplsVpnAddress => 128,
        SubsequentAddressFamilyIdentifiers::BgpMulticastOrMplsVpns => 129,
        SubsequentAddressFamilyIdentifiers::RouteTargetConstrains => 132,
        SubsequentAddressFamilyIdentifiers::FlowSpecificationRules => 133,
        SubsequentAddressFamilyIdentifiers::L3VpnFlowSpecificationRules => 134,
        SubsequentAddressFamilyIdentifiers::VpnAutoDiscovery => 140,
    }
}

/// The variant carried by a wire value, if any.
pub open spec fn safi_from_code(x: u16) -> Option<SubsequentAddressFamilyIdentifiers> {
    match x {
        1 => Some(SubsequentAddressFamilyIdentifiers::NlriUnicastForwarding),
        2 => Some(SubsequentAddressFamilyIdentifiers::NlriMulticastForwarding),
        4 => Some(SubsequentAddressFamilyIdentifiers::NlriMpls),
        5 => Some(SubsequentAddressFamilyIdentifiers::McastVpn),
        6 => Some(SubsequentAddressFamilyIdentifiers::NlriDynamicPseudowires),
        7 => Some(SubsequentAddressFamilyIdentifiers::EncapsulationSAFI),
        8 => Some(SubsequentAddressFamilyIdentifiers::McastVpls),
        9 => Some(SubsequentAddressFamilyIdentifiers::BgpSfc),
        64 => Some(SubsequentAddressFamilyIdentifiers::TunnelSafi),
        65 => Some(SubsequentAddressFamilyIdentifiers::VPLS),
        66 => Some(SubsequentAddressFamilyIdentifiers::BgpMdtSafi),
        67 => Some(SubsequentAddressFamilyIdentifiers::Bgp4over6Safi),
        68 => Some(SubsequentAddressFamilyIdentifiers::Bgp6over4Safi),
        69 => Some(SubsequentAddressFamilyIdentifiers::VpnDiscoveryInformation),
        70 => Some(SubsequentAddressFamilyIdentifiers::BgpEvpns),
        71 => Some(SubsequentAddressFamilyIdentifiers::BgpLs),
        72 => Some(SubsequentAddressFamilyIdentifiers::BgpLsVpn),
        73 => Some(SubsequentAddressFamilyIdentifiers::SrTePolicySafi),
        74 => Some(SubsequentAddressFamilyIdentifiers::SdWanCapabilities),
        75 => Some(SubsequentAddressFamilyIdentifiers::RoutingPolicySafi),
        76 => Some(SubsequentAddressFamilyIdentifiers::ClassfulTransportSafi),
        77 => Some(SubsequentAddressFamilyIdentifiers::TunneledTrafficFlowspec),
        78 => Some(SubsequentAddressFamilyIdentifiers::McastTree),
        79 => Some(SubsequentAddressFamilyIdentifiers::BgpDps),
        80 => Some(SubsequentAddressFamilyIdentifiers::BgpLsSpf),
        83 => Some(SubsequentAddressFamilyIdentifiers::BgpCar),
        84 => Some(SubsequentAddressFamilyIdentifiers::BgpVpnCar),
        85 => Some(SubsequentAddressFamilyIdentifiers::BgpMupSafi),
        128 => Some(SubsequentAddressFamilyIdentifiers::MplsVpnAddress),
        129 => Some(SubsequentAddressFamilyIdentifiers::BgpMulticastOrMplsVpns),
        132 => Some(SubsequentAddressFamilyIdentifiers::RouteTargetConstrains),
        133 => Some(SubsequentAddressFamilyIdentifiers::FlowSpecificationRules),
        134 => Some(SubsequentAddressFamilyIdentifiers::L3VpnFlowSpecificationRules),
        140 => Some(SubsequentAddressFamilyIdentifiers::VpnAutoDiscovery),
        _ => None,
    }
}

impl SubsequentAddressFamilyIdentifiers {
    /// The wire value of this variant.
    pub fn code(&self) -> (r: u16)
        ensures
            r == safi_code(*self),
    {
        match *self {
            SubsequentAddressFamilyIdentifiers::NlriUnicastForwarding => 1,
            SubsequentAddressFamilyIdentifiers::NlriMulticastForwarding => 2,
            SubsequentAddressFamilyIdentifiers::NlriMpls => 4,
            SubsequentAddressFamilyIdentifiers::McastVpn => 5,
            SubsequentAddressFamilyIdentifiers::NlriDynamicPseudowires => 6,
            SubsequentAddressFamilyIdentifiers::EncapsulationSAFI => 7,
            SubsequentAddressFamilyIdentifiers::McastVpls => 8,
            SubsequentAddressFamilyIdentifiers::BgpSfc => 9,
            SubsequentAddressFamilyIdentifiers::TunnelSafi => 64,
            SubsequentAddressFamilyIdentifiers::VPLS => 65,
            SubsequentAddressFamilyIdentifiers::BgpMdtSafi => 66,
            SubsequentAddressFamilyIdentifiers::Bgp4over6Safi => 67,
            SubsequentAddressFamilyIdentifiers::Bgp6over4Safi => 68,
            SubsequentAddressFamilyIdentifiers::VpnDiscoveryInformation => 69,
            SubsequentAddressFamilyIdentifiers::BgpEvpns => 70,
            SubsequentAddressFamilyIdentifiers::BgpLs => 71,
            SubsequentAddressFamilyIdentifiers::BgpLsVpn => 72,
            SubsequentAddressFamilyIdentifiers::SrTePolicySafi => 73,
            SubsequentAddressFamilyIdentifiers::SdWanCapabilities => 74,
            SubsequentAddressFamilyIdentifiers::RoutingPolicySafi => 75,
            SubsequentAddressFamilyIdentifiers::ClassfulTransportSafi => 76,
            SubsequentAddressFamilyIdentifiers::TunneledTrafficFlowspec => 77,
            SubsequentAddressFamilyIdentifiers::McastTree => 78,
            SubsequentAddressFamilyIdentifiers::BgpDps => 79,
            SubsequentAddressFamilyIdentifiers::BgpLsSpf => 80,
            SubsequentAddressFamilyIdentifiers::BgpCar => 83,
            SubsequentAddressFamilyIdentifiers::BgpVpnCar => 84,
            SubsequentAddressFamilyIdentifiers::BgpMupSafi => 85,
            SubsequentAddressFamilyIdentifiers::MplsVpnAddress => 128,
            SubsequentAddressFamilyIdentifiers::BgpMulticastOrMplsVpns => 129,
            SubsequentAddressFamilyIdentifiers::RouteTargetConstrains => 132,
            SubsequentAddressFamilyIdentifiers::FlowSpecificationRules => 133,
            SubsequentAddressFamilyIdentifiers::L3VpnFlowSpecificationRules => 134,
            SubsequentAddressFamilyIdentifiers::VpnAutoDiscovery => 140,
        }
    }

    /// Reads a wire value back into a variant.
    pub fn from_code(x: u16) -> (r: Option<SubsequentAddressFamilyIdentifiers>)
        ensures
            r == safi_from_code(x),
    {
        match x {
            1 => Some(SubsequentAddressFamilyIdentifiers::NlriUnicastForwarding),
            2 => Some(SubsequentAddressFamilyIdentifiers::NlriMulticastForwarding),
            4 => Some(SubsequentAddressFamilyIdentifiers::NlriMpls),
            5 => Some(SubsequentAddressFamilyIdentifiers::McastVpn),
            6 => Some(SubsequentAddressFamilyIdentifiers::NlriDynamicPseudowires),
            7 => Some(SubsequentAddressFamilyIdentifiers::EncapsulationSAFI),
            8 => Some(SubsequentAddressFamilyIdentifiers::McastVpls),
            9 => Some(SubsequentAddressFamilyIdentifiers::BgpSfc),
            64 => Some(SubsequentAddressFamilyIdentifiers::TunnelSafi),
            65 => Some(SubsequentAddressFamilyIdentifiers::VPLS),
            66 => Some(SubsequentAddressFamilyIdentifiers::BgpMdtSafi),
            67 => Some(SubsequentAddressFamilyIdentifiers::Bgp4over6Safi),
            68 => Some(SubsequentAddressFamilyIdentifiers::Bgp6over4Safi),
            69 => Some(SubsequentAddressFamilyIdentifiers::VpnDiscoveryInformation),
            70 => Some(SubsequentAddressFamilyIdentifiers::BgpEvpns),
            71 => Some(SubsequentAddressFamilyIdentifiers::BgpLs),
            72 => Some(SubsequentAddressFamilyIdentifiers::BgpLsVpn),
            73 => Some(SubsequentAddressFamilyIdentifiers::SrTePolicySafi),
            74 => Some(SubsequentAddressFamilyIdentifiers::SdWanCapabilities),
            75 => Some(SubsequentAddressFamilyIdentifiers::RoutingPolicySafi),
            76 => Some(SubsequentAddressFamilyIdentifiers::ClassfulTransportSafi),
            77 => Some(SubsequentAddressFamilyIdentifiers::TunneledTrafficFlowspec),
            78 => Some(SubsequentAddressFamilyIdentifiers::McastTree),
            79 => Some(SubsequentAddressFamilyIdentifiers::BgpDps),
            80 => Some(SubsequentAddressFamilyIdentifiers::BgpLsSpf),
            83 => Some(SubsequentAddressFamilyIdentifiers::BgpCar),
            84 => Some(SubsequentAddressFamilyIdentifiers::BgpVpnCar),
            85 => Some(SubsequentAddressFamilyIdentifiers::BgpMupSafi),
            128 => Some(SubsequentAddressFamilyIdentifiers::MplsVpnAddress),
            129 => Some(SubsequentAddressFamilyIdentifiers::BgpMulticastOrMplsVpns),
            132 => Some(SubsequentAddressFamilyIdentifiers::RouteTargetConstrains),
            133 => Some(SubsequentAddressFamilyIdentifiers::FlowSpecificationRules),
            134 => Some(SubsequentAddressFamilyIdentifiers::L3VpnFlowSpecificationRules),
            140 => Some(SubsequentAddressFamilyIdentifiers::VpnAutoDiscovery),
            _ => None,
        }
    }
}

/// Every variant's wire value reads back to that variant.
pub proof fn lemma_safi_roundtrip(e: SubsequentAddressFamilyIdentifiers)
    ensures
        safi_from_code(safi_code(e)) == Some(e),
{
}

} // verus!
