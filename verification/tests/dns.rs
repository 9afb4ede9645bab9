use game_tunnel::config::{CloudflareConfig, CloudflareZone};
use game_tunnel::dns::{
    find_url, find_zone, found_record, plan_delete, plan_records, plan_write, record_url,
    records_url, write_error_text, Deleter, RecordWrite,
};

fn zones() -> CloudflareConfig {
    let zone = |d: &str, z: &str| CloudflareZone {
        domain: d.to_string(),
        zone_id: z.to_string(),
    };
    CloudflareConfig {
        api_token: "tok".to_string(),
        zones: vec![zone("one.com", "z1"), zone("two.com", "z2"), zone("one.com", "z3")],
    }
}

#[test]
fn records_of_a_tunnel() {
    let p = plan_records(&zones(), " mc ", "two.com\n", " 1.2.3.4", 25566, true).unwrap();
    assert_eq!(p.zone_id, "z2");
    assert_eq!(p.a.record_type, "A");
    assert_eq!(p.a.name, "mc.two.com");
    assert_eq!(p.a.content, "1.2.3.4");
    assert_eq!(p.a.ttl, 120);
    assert!(!p.a.proxied);
    let srv = p.srv.unwrap();
    assert_eq!(srv.record_type, "SRV");
    assert_eq!(srv.name, "_minecraft._tcp.mc.two.com");
    assert_eq!(srv.data.priority, 1);
    assert_eq!(srv.data.weight, 5);
    assert_eq!(srv.data.port, 25566);
    assert_eq!(srv.data.target, "mc.two.com.");
    assert_eq!(srv.ttl, 120);
    assert!(plan_records(&zones(), "mc", "two.com", "1.2.3.4", 1, false).unwrap().srv.is_none());
}

#[test]
fn domain_without_a_zone_fails() {
    assert_eq!(
        plan_records(&zones(), "mc", " three.com ", "1.2.3.4", 1, true).unwrap_err(),
        "no zone for 'three.com'"
    );
    assert_eq!(
        plan_delete(&zones(), Deleter::Manager, "mc", "three.com").unwrap_err(),
        "no zone for three.com"
    );
    assert_eq!(
        plan_delete(&zones(), Deleter::Web, "mc", "three.com").unwrap_err(),
        "no zone configured for domain three.com"
    );
    assert_eq!(find_zone(&zones(), "one.com").unwrap().zone_id, "z1");
}

#[test]
fn delete_names_what_was_set() {
    let set = plan_records(&zones(), "mc", "one.com", "1.2.3.4", 1, true).unwrap();
    let del = plan_delete(&zones(), Deleter::Web, "mc", "one.com").unwrap();
    assert_eq!(del.zone_id, set.zone_id);
    assert_eq!(del.a_name, set.a.name);
    assert_eq!(del.srv_name, set.srv.unwrap().name);
}

#[test]
fn api_urls() {
    let base = "https://api.cloudflare.com/client/v4/zones/z9/dns_records";
    assert_eq!(records_url("z9"), base);
    assert_eq!(record_url("z9", "r1"), format!("{}/r1", base));
    assert_eq!(find_url("z9", "SRV", "a.b"), format!("{}?type=SRV&name=a.b", base));
}

#[test]
fn existing_records_are_overwritten() {
    assert_eq!(
        plan_write("z", Some("r1")),
        RecordWrite::Put(record_url("z", "r1"))
    );
    assert_eq!(plan_write("z", Some("")), RecordWrite::Post(records_url("z")));
    assert_eq!(plan_write("z", None), RecordWrite::Post(records_url("z")));
}

#[test]
fn first_record_is_found() {
    let ids = |v: &[&str]| -> Vec<String> { v.iter().map(|s| s.to_string()).collect() };
    assert_eq!(found_record(Deleter::Manager, &ids(&["a", "b"])), Some("a".to_string()));
    assert_eq!(found_record(Deleter::Manager, &ids(&[""])), None);
    assert_eq!(found_record(Deleter::Web, &ids(&[""])), Some("".to_string()));
    assert_eq!(found_record(Deleter::Web, &[]), None);
}

#[test]
fn refused_writes_are_described() {
    assert_eq!(write_error_text(false, true, "400", "bad"), "PUT failed: 400: bad");
    assert_eq!(write_error_text(true, false, "400", "bad"), "SRV POST failed: 400: bad");
}
