use xc_supervisor::network::{
    AssignedAddress, IpAddress, IpAssign, IpCidr, MainAddressSelector, NetProto, PortNum,
    PortRedirection, SelectorParseError,
};

#[test]
fn test_generated_pf_rdr_rule() {
    let mut rdr = PortRedirection {
        ifaces: None,
        proto: vec![NetProto::Tcp, NetProto::Udp],
        origin: Vec::new(),
        addresses: None,
        source_port: PortNum::Single(22),
        dest_port: 88,
        dest_addr: None,
    };

    rdr.with_host_info(
        &vec!["cxl0".to_string()],
        IpCidr { address: IpAddress::V4(192, 168, 1, 1), prefix: 24 },
    );

    let rule = rdr.to_pf_rule();

    assert_eq!(
        &rule,
        "rdr on {cxl0} proto {tcp,udp} from any to any port 22 -> 192.168.1.1/32 port 88"
    );
}

#[test]
fn test_pf_rule_with_trigger_addresses() {
    let mut rdr = PortRedirection {
        ifaces: Some(vec!["em0".to_string(), "em1".to_string()]),
        proto: vec![NetProto::Sctp],
        origin: Vec::new(),
        addresses: Some(vec![IpCidr { address: IpAddress::V4(10, 0, 0, 7), prefix: 16 }]),
        source_port: PortNum::Range(2000, 10),
        dest_port: 443,
        dest_addr: None,
    };
    rdr.with_host_info(
        &vec!["ignored0".to_string()],
        IpCidr { address: IpAddress::V4(172, 16, 0, 2), prefix: 12 },
    );
    // the requested interfaces are kept; only the destination is filled in
    assert_eq!(
        &rdr.to_pf_rule(),
        "rdr on {em0,em1} proto {sctp} from any to {10.0.0.7/32} port 2000:10 -> 172.16.0.2/32 port 443"
    );
}

#[test]
fn test_ip_text() {
    assert_eq!(IpAddress::V4(0, 0, 0, 0).text(), "0.0.0.0");
    assert_eq!(IpAddress::V4(255, 255, 255, 255).text(), "255.255.255.255");
    assert_eq!(
        IpAddress::V6(0x2001, 0xdb8, 0, 0, 0, 0, 0, 1).text(),
        "2001:db8:0:0:0:0:0:1"
    );
}

#[test]
fn test_cidr_text_and_singleton() {
    let c = IpCidr { address: IpAddress::V4(192, 168, 1, 1), prefix: 24 };
    assert_eq!(c.text(), "192.168.1.1/24");
    let s = c.to_singleton();
    assert_eq!(s.prefix, 32);
    assert_eq!(s.text(), "192.168.1.1/32");
    let c6 = IpCidr { address: IpAddress::V6(0, 0, 0, 0, 0, 0, 0, 1), prefix: 64 };
    assert_eq!(c6.to_singleton().prefix, 128);
}

#[test]
fn test_port_num_text() {
    assert_eq!(PortNum::Single(22).text(), "22");
    assert_eq!(PortNum::Range(1000, 5).text(), "1000:5");
}

#[test]
fn test_net_proto_names() {
    assert_eq!(NetProto::Tcp.as_ref(), "tcp");
    assert_eq!(NetProto::Udp.as_ref(), "udp");
    assert_eq!(NetProto::Sctp.as_ref(), "sctp");
}

fn pool() -> Vec<IpAssign> {
    vec![
        IpAssign {
            network: None,
            addresses: vec![IpCidr { address: IpAddress::V4(10, 0, 0, 1), prefix: 24 }],
            interface: "lo1".to_string(),
        },
        IpAssign {
            network: Some("prod".to_string()),
            addresses: vec![
                IpCidr { address: IpAddress::V4(10, 0, 0, 2), prefix: 24 },
                IpCidr { address: IpAddress::V4(10, 0, 0, 3), prefix: 24 },
            ],
            interface: "em0".to_string(),
        },
        IpAssign {
            network: Some("test".to_string()),
            addresses: vec![IpCidr { address: IpAddress::V4(10, 9, 0, 1), prefix: 24 }],
            interface: "em1".to_string(),
        },
    ]
}

#[test]
fn test_select_default() {
    // without a selector: first assignment that belongs to a network
    let r = MainAddressSelector::select(&None, &pool()).unwrap();
    assert_eq!(r.interface, "em0");
    assert_eq!(r.address, IpAddress::V4(10, 0, 0, 2));
}

#[test]
fn test_select_by_ip() {
    let sel = Some(MainAddressSelector::Ip(IpAddress::V4(10, 0, 0, 3)));
    let r = MainAddressSelector::select(&sel, &pool()).unwrap();
    assert_eq!(r.interface, "em0");
    assert_eq!(r.address, IpAddress::V4(10, 0, 0, 3));

    let missing = Some(MainAddressSelector::Ip(IpAddress::V4(8, 8, 8, 8)));
    assert!(MainAddressSelector::select(&missing, &pool()).is_none());
}

#[test]
fn test_select_by_network() {
    let sel = Some(MainAddressSelector::Network("test".to_string()));
    let r = MainAddressSelector::select(&sel, &pool()).unwrap();
    assert_eq!(r.interface, "em1");
    assert_eq!(r.address, IpAddress::V4(10, 9, 0, 1));

    let missing = Some(MainAddressSelector::Network("absent".to_string()));
    assert!(MainAddressSelector::select(&missing, &pool()).is_none());
}

#[test]
fn test_assigned_address_new() {
    let a = AssignedAddress::new("em0".to_string(), IpAddress::V4(1, 2, 3, 4));
    assert_eq!(a.interface, "em0");
    assert_eq!(a.address, IpAddress::V4(1, 2, 3, 4));
}

#[test]
fn test_ip_assign_text() {
    let a = IpAssign {
        network: Some("prod".to_string()),
        addresses: vec![
            IpCidr { address: IpAddress::V4(10, 0, 0, 2), prefix: 24 },
            IpCidr { address: IpAddress::V4(10, 0, 0, 3), prefix: 32 },
        ],
        interface: "em0".to_string(),
    };
    assert_eq!(a.text(), "(prod)em0|10.0.0.2/24,10.0.0.3/32");
}

#[test]
fn selector_text_forms() {
    assert_eq!(
        MainAddressSelector::Ip(IpAddress::V4(10, 0, 0, 9)).text(),
        "ipadd/10.0.0.9"
    );
    assert_eq!(
        MainAddressSelector::Network("prod".to_string()).text(),
        "network/prod"
    );
}

#[test]
fn selector_parse_accepts_both_schemes() {
    match MainAddressSelector::from_str("network/prod") {
        Ok(MainAddressSelector::Network(n)) => assert_eq!(n, "prod"),
        _ => panic!("a network selector parses"),
    }
    match MainAddressSelector::from_str("ipaddr/10.0.0.9") {
        Ok(MainAddressSelector::Ip(ip)) => assert_eq!(ip, IpAddress::V4(10, 0, 0, 9)),
        _ => panic!("a dotted-quad selector parses"),
    }
    assert_eq!(
        MainAddressSelector::from_str("no-slash-here").unwrap_err(),
        SelectorParseError::Malformed
    );
    assert_eq!(
        MainAddressSelector::from_str("bogus/thing").unwrap_err(),
        SelectorParseError::Malformed
    );
    assert_eq!(
        MainAddressSelector::from_str("ipaddr/10.0.0").unwrap_err(),
        SelectorParseError::BadAddress
    );
    assert_eq!(
        MainAddressSelector::from_str("ipaddr/10.0.0.256").unwrap_err(),
        SelectorParseError::BadAddress
    );
    assert_eq!(
        MainAddressSelector::from_str("ipaddr/10.0.0.01").unwrap_err(),
        SelectorParseError::BadAddress
    );
}

#[test]
fn selector_parse_accepts_hex_group_addresses() {
    match MainAddressSelector::from_str("ipaddr/1:2:3:4:5:6:7:8") {
        Ok(MainAddressSelector::Ip(ip)) => {
            assert_eq!(ip, IpAddress::V6(1, 2, 3, 4, 5, 6, 7, 8))
        },
        _ => panic!("a full hex-groups address parses"),
    }
    match MainAddressSelector::from_str("ipaddr/::1") {
        Ok(MainAddressSelector::Ip(ip)) => {
            assert_eq!(ip, IpAddress::V6(0, 0, 0, 0, 0, 0, 0, 1))
        },
        _ => panic!("the loopback shorthand parses"),
    }
    match MainAddressSelector::from_str("ipaddr/2001:db8::5") {
        Ok(MainAddressSelector::Ip(ip)) => {
            assert_eq!(ip, IpAddress::V6(0x2001, 0xdb8, 0, 0, 0, 0, 0, 5))
        },
        _ => panic!("a compressed address parses"),
    }
    match MainAddressSelector::from_str("ipaddr/FE80::1") {
        Ok(MainAddressSelector::Ip(ip)) => {
            assert_eq!(ip, IpAddress::V6(0xfe80, 0, 0, 0, 0, 0, 0, 1))
        },
        _ => panic!("uppercase hex digits parse"),
    }
    assert_eq!(
        MainAddressSelector::from_str("ipaddr/1::2::3").unwrap_err(),
        SelectorParseError::BadAddress
    );
    assert_eq!(
        MainAddressSelector::from_str("ipaddr/1:2:3").unwrap_err(),
        SelectorParseError::BadAddress
    );
    assert_eq!(
        MainAddressSelector::from_str("ipaddr/12345::1").unwrap_err(),
        SelectorParseError::BadAddress
    );
    assert_eq!(
        MainAddressSelector::from_str("ipaddr/1:2:3:4:5:6:7:8:9").unwrap_err(),
        SelectorParseError::BadAddress
    );
}
