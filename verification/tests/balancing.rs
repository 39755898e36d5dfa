use server_seeker::data_core::manager_api::{
    DiscoverRequest, RescanJobProgress, RescanRequest, RescanTarget, WorkerJobReq,
};
use server_seeker::data_core::proto::scanner::ScanMethod;
use server_seeker::manager::scan_jobs::balancing::{
    network_size, split_discover, split_network_in_half, split_rescan, sum_rescan_update,
};
use server_seeker::net::{IpAddr, IpNetwork};

fn v4(a: u32, p: u8) -> IpNetwork {
    IpNetwork::new(IpAddr::V4(a), p).unwrap()
}

fn discover(targets: Vec<IpNetwork>) -> DiscoverRequest {
    DiscoverRequest {
        targets,
        excludes: vec![v4(0x0a000000, 8)],
        ports: vec![25565],
        port_ranges: vec![],
        rate: 100,
        method: ScanMethod::OnlyHandshake,
    }
}

fn targets_of(r: &WorkerJobReq) -> Vec<IpNetwork> {
    match r {
        WorkerJobReq::Discover(d) => d.targets.clone(),
        _ => panic!("not a discovery"),
    }
}

#[test]
fn network_sizes() {
    assert_eq!(network_size(&v4(0xc0a80000, 24)), 256);
    assert_eq!(network_size(&v4(0x01020304, 32)), 1);
    assert_eq!(network_size(&v4(0, 0)), u32::MAX as u128);
    let v6 = IpNetwork::new(IpAddr::V6(0), 120).unwrap();
    assert_eq!(network_size(&v6), 256);
}

#[test]
fn halves_of_a_network() {
    let [a, b] = split_network_in_half(&v4(0xc0a80000, 24)).unwrap();
    assert_eq!(a, v4(0xc0a80000, 25));
    assert_eq!(b, v4(0xc0a80080, 25));
    assert!(split_network_in_half(&v4(0x01020304, 32)).is_none());
    let [c, _] = split_network_in_half(&v4(0xc0a800ff, 24)).unwrap();
    assert_eq!(c.ip(), IpAddr::V4(0xc0a80000));
}

#[test]
fn discovery_is_split_by_quotas() {
    let req = discover(vec![v4(0xc0a80000, 24), v4(0x08080808, 32)]);
    let parts = split_discover(req, &[128, 0]);
    assert_eq!(parts.len(), 2);
    assert_eq!(targets_of(&parts[0]), vec![v4(0xc0a80000, 25)]);
    assert_eq!(targets_of(&parts[1]), vec![v4(0xc0a80080, 25), v4(0x08080808, 32)]);
    match &parts[1] {
        WorkerJobReq::Discover(d) => {
            assert_eq!(d.excludes, vec![v4(0x0a000000, 8)]);
            assert_eq!(d.ports, vec![25565]);
            assert_eq!(d.rate, 100);
        }
        _ => panic!("not a discovery"),
    }
    assert!(split_discover(discover(vec![]), &[]).is_empty());
}

#[test]
fn discovery_quotas_split_networks_down_to_single_addresses() {
    let req = discover(vec![v4(0x0a000000, 30)]);
    let parts = split_discover(req, &[1, 2, 0]);
    assert_eq!(parts.len(), 3);
    assert_eq!(targets_of(&parts[0]), vec![v4(0x0a000000, 32)]);
    assert_eq!(targets_of(&parts[1]), vec![v4(0x0a000001, 32), v4(0x0a000002, 32)]);
    assert_eq!(targets_of(&parts[2]), vec![v4(0x0a000003, 32)]);
}

#[test]
fn discovery_runs_out_before_the_last_worker() {
    let req = discover(vec![v4(0x0a000000, 31)]);
    let parts = split_discover(req, &[5, 5, 5]);
    assert_eq!(targets_of(&parts[0]), vec![v4(0x0a000000, 31)]);
    assert!(targets_of(&parts[1]).is_empty());
    assert!(targets_of(&parts[2]).is_empty());
}

fn target(port: u16) -> RescanTarget {
    RescanTarget { ip: IpAddr::V4(1), port, player_name: None }
}

fn rescan_ports(r: &WorkerJobReq) -> Vec<u16> {
    match r {
        WorkerJobReq::Rescan(r) => r.targets.iter().map(|t| t.port).collect(),
        _ => panic!("not a rescan"),
    }
}

#[test]
fn rescan_is_split_in_order() {
    let req = RescanRequest {
        method: ScanMethod::Join,
        rate: 5,
        targets: (1..=5).map(target).collect(),
    };
    let parts = split_rescan(req, &[2, 10, 0]);
    assert_eq!(parts.len(), 3);
    assert_eq!(rescan_ports(&parts[0]), vec![1, 2]);
    assert_eq!(rescan_ports(&parts[1]), vec![3, 4, 5]);
    assert_eq!(rescan_ports(&parts[2]), Vec::<u16>::new());
}

#[test]
fn rescan_progress_is_summed() {
    let a = RescanJobProgress { all: 10, checked: 3, successful: 1 };
    let b = RescanJobProgress { all: 99, checked: 4, successful: 2 };
    let s = sum_rescan_update(vec![&a, &b]);
    assert_eq!(s, RescanJobProgress { all: 10, checked: 7, successful: 3 });
}
