use devptp::proc_net_tcp::{is_listening_on, parse_line, parse_proc_net_tcp, TcpState};
use devptp::port_manager::PortManager;
use std::collections::BTreeSet;

#[test]
fn test_tcp_state_from_hex() {
    assert_eq!(TcpState::from_hex("01"), Some(TcpState::Established));
    assert_eq!(TcpState::from_hex("0A"), Some(TcpState::Listen));
    assert_eq!(TcpState::from_hex("06"), Some(TcpState::TimeWait));
    assert_eq!(TcpState::from_hex("FF"), None);
}

#[test]
fn test_tcp_state_to_hex() {
    assert_eq!(TcpState::Established.to_hex(), "0x1");
    assert_eq!(TcpState::Listen.to_hex(), "0xA");
}

#[test]
fn test_parse_local_address() {
    // 0.0.0.0:32768 (0x8000) in little-endian hex
    let entry = parse_line(
        "   3: 00000000:8000 00000000:0000 0A 00000000:00000000 \
         00:00000000 00000000     0        0 2844311518 1 \
         000000004ade1a46 100 0 0 10 0",
    )
    .unwrap();
    assert_eq!(entry.local_address, [0, 0, 0, 0]);
    assert_eq!(entry.local_port, 0x8000); // 32768 (stored as hex in /proc/net/tcp)
    assert_eq!(entry.remote_address, [0, 0, 0, 0]);
    assert_eq!(entry.remote_port, 0);
    assert_eq!(entry.state, TcpState::Listen);
}

#[test]
fn test_parse_established_connection() {
    // 192.168.5.157 (9D05A8C0 in LE) :8881 (0x22B1)
    let entry = parse_line(
        "   0: 9D05A8C0:22B1 00000000:0000 0A 00000000:00000000 \
         00:00000000 00000000     0        0 2844038225 1 \
         000000006a67644a 100 0 0 10 0",
    )
    .unwrap();
    assert_eq!(entry.local_address, [192, 168, 5, 157]);
    assert_eq!(entry.local_port, 0x22B1); // 8881
}

const TABLE: &str = "  sl  local_address rem_address   st tx_queue rx_queue tr tm->when retrnsmt   uid  timeout inode\n\
   0: 00000000:07E8 00000000:0000 0A 00000000:00000000 00:00000000 00000000     0        0 624 1 00000000b3f71716 100 0 0 10 0\n\
   1: 0100007F:1F90 0100007F:C350 01 00000010:00000020 02:0000001A 00000003  1000        0 777 1 0000000000000000 20 4 30 10 -1\n";

#[test]
fn parse_table_reads_every_row() {
    let entries = parse_proc_net_tcp(TABLE);
    assert_eq!(entries.len(), 2);
    assert_eq!(entries[0].sl, 0);
    assert_eq!(entries[0].local_port, 0x07E8);
    assert_eq!(entries[0].inode, 0x624);
    assert_eq!(entries[1].sl, 1);
    assert_eq!(entries[1].local_address, [127, 0, 0, 1]);
    assert_eq!(entries[1].local_port, 8080);
    assert_eq!(entries[1].remote_port, 0xC350);
    assert_eq!(entries[1].state, TcpState::Established);
    assert_eq!(entries[1].tx_queue, 0x10);
    assert_eq!(entries[1].rx_queue, 0x20);
    assert!(entries[1].timer_active);
    assert!(!entries[0].timer_active);
    assert_eq!(entries[1].timer_when, 0x1A);
    assert_eq!(entries[1].retransmits, 3);
    assert_eq!(entries[1].uid, 0x1000);
    assert_eq!(entries[1].inode, 0x777);
}

#[test]
fn parse_line_skips_short_and_malformed_rows() {
    assert!(parse_line("").is_none());
    assert!(parse_line("   0: 00000000:07E8 00000000:0000 0A").is_none());
    // no ':' after the slot number
    assert!(parse_line("   0 00000000:07E8 00000000:0000 0A 00000000:00000000 00:00000000 00000000 0 0 624 1 x").is_none());
    // unknown state
    assert!(parse_line("   0: 00000000:07E8 00000000:0000 0C 00000000:00000000 00:00000000 00000000 0 0 624 1 x").is_none());
    // port too large for 16 bits
    assert!(parse_line("   0: 00000000:107E8 00000000:0000 0A 00000000:00000000 00:00000000 00000000 0 0 624 1 x").is_none());
}

#[test]
fn listening_is_read_from_the_table() {
    assert!(is_listening_on(TABLE, 0x07E8));
    assert!(!is_listening_on(TABLE, 8080));
    assert!(!is_listening_on(TABLE, 12345));
    assert!(!is_listening_on("header only\n", 0x07E8));
}

#[test]
fn open_ports_are_collected_from_listening_and_unconnected_rows() {
    let udp = "  sl  local_address rem_address   st\n   5: 00000000:0035 00000000:0000 07\n   6: 00000000:0044 00000000:0000 01\n";
    let mut ports = BTreeSet::new();
    devptp::proc_net_tcp::collect_listed_ports(TABLE, &mut ports);
    devptp::proc_net_tcp::collect_listed_ports(udp, &mut ports);
    let got: Vec<u16> = ports.into_iter().collect();
    assert_eq!(got, vec![0x35, 0x07E8]);
    let _ = PortManager::new(devptp::config::Config::default());
}

#[test]
fn every_state_is_found_by_its_number() {
    let all = [
        TcpState::Established,
        TcpState::SynSent,
        TcpState::SynRecv,
        TcpState::FinWait1,
        TcpState::FinWait2,
        TcpState::TimeWait,
        TcpState::Close,
        TcpState::CloseWait,
        TcpState::LastAck,
        TcpState::Listen,
        TcpState::Closing,
    ];
    for (i, state) in all.iter().enumerate() {
        assert_eq!(state.code() as usize, i + 1);
        assert_eq!(TcpState::from_hex(&format!("{:02X}", state.code())), Some(*state));
        assert_eq!(TcpState::from_hex(&format!("{:x}", state.code())), Some(*state));
        assert_eq!(state.to_hex(), format!("{:#02X}", state.code()).replace("0X", "0x"));
    }
    assert_eq!(TcpState::Closing.to_hex(), "0xB");
    assert_eq!(TcpState::from_hex("00"), None);
    assert_eq!(TcpState::from_hex("0C"), None);
    assert_eq!(TcpState::from_hex("+0a"), Some(TcpState::Listen));
    assert_eq!(TcpState::from_hex(""), None);
    assert_eq!(TcpState::from_hex("100"), None);
    assert!(table_is_readable_for_tests());
}

fn table_is_readable_for_tests() -> bool {
    devptp::proc_net_tcp::table_is_readable(TABLE)
        && !devptp::proc_net_tcp::table_is_readable("header\n 0: 00000000 00000000:0000 0A 0:0 0:0 0 0 0 1 1 x\n")
}

#[test]
fn test_is_listening_on() {
    let table = "  sl  local_address rem_address   st tx_queue rx_queue tr tm->when retrnsmt   uid  timeout inode\n   \
                 3: 00000000:8000 00000000:0000 0A 00000000:00000000 00:00000000 00000000     0        0 2844311518 1 000000004ade1a46 100 0 0 10 0\n";
    assert!(is_listening_on(table, 32768));
    // Port 12345 is not listening in this table
    assert!(!is_listening_on(table, 12345));
}

#[test]
fn state_texts_read_back() {
    let states = [
        TcpState::Established,
        TcpState::SynSent,
        TcpState::SynRecv,
        TcpState::FinWait1,
        TcpState::FinWait2,
        TcpState::TimeWait,
        TcpState::Close,
        TcpState::CloseWait,
        TcpState::LastAck,
        TcpState::Listen,
        TcpState::Closing,
    ];
    for s in states {
        let code = s.code();
        assert_eq!(TcpState::from_hex(&format!("{:02X}", code)), Some(s));
        assert_eq!(TcpState::from_hex(&format!("{:02x}", code)), Some(s));
        assert_eq!(TcpState::from_hex(&s.to_hex()[2..]), Some(s));
    }
    assert_eq!(TcpState::from_hex("0b"), Some(TcpState::Closing));
}
