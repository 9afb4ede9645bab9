use game_tunnel::assign::{assign_tunnels, count_per_client, mapping_server};
use game_tunnel::config::ManagedClient;
use game_tunnel::database::UnassignedTunnel;
use game_tunnel::text_map::TextMap;

fn managed(id: &str) -> ManagedClient {
    ManagedClient {
        id: id.to_string(),
        name: id.to_string(),
        stats_url: None,
        stats_urls: vec![],
    }
}

fn unassigned(n: u32) -> Vec<UnassignedTunnel> {
    (0..n)
        .map(|i| UnassignedTunnel {
            id: 100 + i,
            name: "n".to_string(),
            subdomain: "s".to_string(),
        })
        .collect()
}

#[test]
fn tunnels_are_counted_per_client() {
    let rows = [
        Some("a".to_string()),
        None,
        Some("b".to_string()),
        Some("a".to_string()),
    ];
    let counts = count_per_client(&rows);
    assert_eq!(counts.get("a"), Some(&2));
    assert_eq!(counts.get("b"), Some(&1));
    assert_eq!(counts.get("c"), None);
}

#[test]
fn tunnels_go_to_the_least_loaded() {
    let clients = [managed("a"), managed("b"), managed("c")];
    let mut counts = TextMap::new();
    counts.insert("a", 2usize);
    counts.insert("c", 1usize);
    let given = assign_tunnels(&clients, &unassigned(5), counts);
    let who: Vec<usize> = given.iter().map(|g| g.client).collect();
    assert_eq!(who, vec![1, 1, 2, 0, 1]);
    let what: Vec<u32> = given.iter().map(|g| g.tunnel_id).collect();
    assert_eq!(what, vec![100, 101, 102, 103, 104]);
}

#[test]
fn assignment_is_balanced() {
    let clients = [managed("a"), managed("b"), managed("c"), managed("d")];
    let given = assign_tunnels(&clients, &unassigned(10), TextMap::new());
    let mut load = [0; 4];
    for g in given {
        load[g.client] += 1;
    }
    assert_eq!(load, [3, 3, 2, 2]);
}

#[test]
fn nobody_means_nothing_is_given() {
    assert!(assign_tunnels(&[], &unassigned(3), TextMap::new()).is_empty());
    assert!(assign_tunnels(&[managed("a")], &[], TextMap::new()).is_empty());
}

#[test]
fn client_is_mapped_to_its_busiest_server() {
    assert_eq!(mapping_server(&[4, 9, 9, 4, 9]), Some(9));
    assert_eq!(mapping_server(&[7, 8, 8, 7]), Some(7));
    assert_eq!(mapping_server(&[5]), Some(5));
    // Nothing to go by: the mapping stays as it is.
    assert_eq!(mapping_server(&[]), None);
}
