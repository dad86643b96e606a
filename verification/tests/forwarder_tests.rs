use orbit::forwarder::{
    added_line, desired_ports, failed_line, stopped_line, ContainerPorts, Forwards, PortMapping,
};

fn container(ports: &[Option<u16>]) -> ContainerPorts {
    ContainerPorts {
        ports: Some(ports.iter().map(|p| PortMapping { public_port: *p }).collect()),
    }
}

fn sorted(mut v: Vec<u16>) -> Vec<u16> {
    v.sort_unstable();
    v
}

#[test]
fn desired_ports_are_unique_and_sorted() {
    let cs = vec![
        container(&[Some(8080), None, Some(443)]),
        ContainerPorts { ports: None },
        container(&[Some(443), Some(22)]),
        container(&[]),
    ];
    assert_eq!(desired_ports(&cs), vec![22, 443, 8080]);
}

#[test]
fn desired_ports_of_nothing_is_empty() {
    assert_eq!(desired_ports(&vec![]), Vec::<u16>::new());
    assert_eq!(desired_ports(&vec![container(&[None, None])]), Vec::<u16>::new());
}

#[test]
fn desired_ports_covers_the_extremes() {
    let cs = vec![container(&[Some(65535), Some(0), Some(1)])];
    assert_eq!(desired_ports(&cs), vec![0, 1, 65535]);
}

#[test]
fn plan_opens_missing_and_closes_stale() {
    let mut f = Forwards::new();
    let first = f.plan(&vec![80, 443]);
    assert_eq!(first.add, vec![80, 443]);
    assert!(first.remove.is_empty());
    f.apply(&first, &vec![true, true]);
    assert_eq!(sorted(f.ports()), vec![80, 443]);

    let second = f.plan(&vec![443, 8080]);
    assert_eq!(second.add, vec![8080]);
    assert_eq!(second.remove, vec![80]);
    f.apply(&second, &vec![true]);
    assert_eq!(sorted(f.ports()), vec![443, 8080]);
}

#[test]
fn failed_forward_is_not_recorded() {
    let mut f = Forwards::new();
    let plan = f.plan(&vec![3000, 3001]);
    f.apply(&plan, &vec![false, true]);
    assert_eq!(f.ports(), vec![3001]);
    assert!(!f.contains(3000));
    assert!(f.contains(3001));
    // The next round tries the failed port again.
    let again = f.plan(&vec![3000, 3001]);
    assert_eq!(again.add, vec![3000]);
    assert!(again.remove.is_empty());
}

#[test]
fn settled_forwards_plan_nothing() {
    let mut f = Forwards::new();
    let plan = f.plan(&vec![5432, 6379]);
    f.apply(&plan, &vec![true, true]);
    let again = f.plan(&vec![6379, 5432]);
    assert!(again.add.is_empty());
    assert!(again.remove.is_empty());
}

#[test]
fn failed_listing_keeps_the_forwards() {
    let mut f = Forwards::new();
    let plan = f.plan(&vec![9000]);
    f.apply(&plan, &vec![true]);
    let desired = f.desired_after_listing(None);
    let round = f.plan(&desired);
    assert!(round.add.is_empty());
    assert!(round.remove.is_empty());
    assert_eq!(f.desired_after_listing(Some(vec![1, 2])), vec![1, 2]);
}

#[test]
fn empty_listing_closes_everything() {
    let mut f = Forwards::new();
    let plan = f.plan(&vec![1, 2, 3]);
    f.apply(&plan, &vec![true, true, true]);
    let round = f.plan(&vec![]);
    assert_eq!(sorted(round.remove.clone()), vec![1, 2, 3]);
    f.apply(&round, &vec![]);
    assert!(f.ports().is_empty());
}

#[test]
fn forward_lines() {
    assert_eq!(added_line(8080), "  + forwarding localhost:8080 \u{2192} host:8080");
    assert_eq!(failed_line(22, "boom"), "  ! could not forward 22: boom");
    assert_eq!(stopped_line(0), "  - stopped forwarding 0");
}
