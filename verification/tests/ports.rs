use devptp::config::Config;
use devptp::helpers::get_first_available_port;
use devptp::port_changes::PortChanges;
use devptp::port_manager::PortManager;
use devptp::protocol::Message;
use std::collections::BTreeSet;

fn set(ports: &[u16]) -> BTreeSet<u16> {
    ports.iter().copied().collect()
}

#[test]
fn changes_between_scans() {
    let previous = set(&[22, 80, 443]);
    let current = set(&[80, 443, 8080, 3000]);
    let changes = PortChanges::compare_ports(&previous, &current);
    assert_eq!(changes.added, set(&[3000, 8080]));
    assert_eq!(changes.removed, set(&[22]));
    assert_eq!(changes.ports_known, current);
    assert!(!changes.is_equal());
    // applying the changes to the previous scan gives the current one
    let mut applied = previous.clone();
    applied.extend(changes.added.iter().copied());
    for p in &changes.removed {
        applied.remove(p);
    }
    assert_eq!(applied, current);
    assert!(PortChanges::compare_ports(&current, &current).is_equal());
    assert!(PortChanges::compare_ports(&BTreeSet::new(), &BTreeSet::new()).is_equal());
}

fn manager(shared: &[u16]) -> PortManager {
    let mut m = PortManager::new(Config::new(set(shared)));
    m.enable();
    m
}

#[test]
fn nothing_is_reported_while_not_serving() {
    let mut m = PortManager::new(Config::new(set(&[8080])));
    assert!(!m.serving());
    assert!(m.observe(&set(&[8080])).is_empty());
    assert!(m.allowed_known_ports().is_empty());
    m.enable();
    assert!(m.serving());
    m.disable();
    assert!(!m.serving());
}

#[test]
fn opened_and_closed_shared_ports_are_announced() {
    let mut m = manager(&[3000, 8080, 9000]);
    let sent = m.observe(&set(&[22, 8080, 3000]));
    assert_eq!(sent.len(), 1);
    assert!(matches!(&sent[0], Message::NewKnownPorts { value } if value == &vec![3000, 8080]));
    assert_eq!(m.allowed_known_ports(), vec![3000, 8080]);
    assert_eq!(m.get_allowed_known_ports(), set(&[3000, 8080]));

    let sent = m.observe(&set(&[22, 8080, 3000]));
    assert!(sent.is_empty());

    let sent = m.observe(&set(&[22, 9000]));
    assert_eq!(sent.len(), 2);
    assert!(matches!(&sent[0], Message::NewKnownPorts { value } if value == &vec![9000]));
    assert!(matches!(&sent[1], Message::NewRemovedPorts { value } if value == &vec![3000, 8080]));
    assert_eq!(m.allowed_known_ports(), vec![9000]);
}

#[test]
fn an_unshared_opened_port_ends_the_round() {
    let mut m = manager(&[8080]);
    assert_eq!(m.observe(&set(&[8080])).len(), 1);
    // 22 opens (not shared) while 8080 closes: nothing is announced
    let sent = m.observe(&set(&[22]));
    assert!(sent.is_empty());
    assert!(m.allowed_known_ports().is_empty());
    // only closing: announced
    let mut m = manager(&[8080]);
    m.observe(&set(&[8080, 22]));
    let sent = m.observe(&set(&[22]));
    assert!(matches!(&sent[..], [Message::NewRemovedPorts { value }] if value == &vec![8080]));
}

#[test]
fn new_configuration_changes_the_shared_ports() {
    let mut m = manager(&[]);
    m.observe(&set(&[5000]));
    assert!(m.allowed_known_ports().is_empty());
    m.set_config(Config::new(set(&[5000])));
    assert_eq!(m.allowed_known_ports(), vec![5000]);
    assert!(Config::default().shared_ports.is_empty());
}

#[test]
fn first_available_port_is_searched_upwards() {
    assert_eq!(get_first_available_port(100, |p| p >= 105), Some(105));
    assert_eq!(get_first_available_port(8080, |_| true), Some(8080));
    assert_eq!(get_first_available_port(65534, |_| true), Some(65534));
    assert_eq!(get_first_available_port(65535, |_| true), None);
    assert_eq!(get_first_available_port(60000, |_| false), None);
    let mut asked = Vec::new();
    let asked_cell = std::cell::RefCell::new(&mut asked);
    let found = get_first_available_port(10, |p| {
        asked_cell.borrow_mut().push(p);
        p == 12
    });
    assert_eq!(found, Some(12));
    assert_eq!(asked, vec![10, 11, 12]);
}

#[test]
fn the_last_port_is_never_probed() {
    let found = get_first_available_port(65530, |p| {
        assert!(p != 65535, "port 65535 was probed");
        false
    });
    assert_eq!(found, None);
}
