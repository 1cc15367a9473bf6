use portkill::model::{PortInfo, ProtocolInfo};
use portkill::text::{decimal, human_readable_date};

#[test]
fn durations() {
    assert_eq!(human_readable_date(0), "0s");
    assert_eq!(human_readable_date(59), "59s");
    assert_eq!(human_readable_date(60), "1m 0s");
    assert_eq!(human_readable_date(3600), "1h 0m 0s");
    assert_eq!(human_readable_date(3725), "1h 2m 5s");
    assert_eq!(human_readable_date(86400), "1d 0h 0m 0s");
    assert_eq!(human_readable_date(93784), "1d 2h 3m 4s");
    assert_eq!(human_readable_date(u64::MAX), "213503982334601d 7h 0m 15s");
}

#[test]
fn decimals() {
    assert_eq!(decimal(0), "0");
    assert_eq!(decimal(7), "7");
    assert_eq!(decimal(10), "10");
    assert_eq!(decimal(65535), "65535");
    assert_eq!(decimal(u64::MAX), "18446744073709551615");
}

#[test]
fn summary_line() {
    let e = PortInfo {
        port_number: 53,
        pid: 200,
        process_name: "dnsd".to_string(),
        protocol: ProtocolInfo::UDP,
        port_status: "N/A".to_string(),
    };
    assert_eq!(e.display_line(), "200:53 -- dnsd Status: N/A -- Protocol: UDP");
    assert_eq!(e.action_prompt(), "What would you like to do with dnsd:53?");
    assert_eq!(e.duplicate().display_line(), e.display_line());
}
