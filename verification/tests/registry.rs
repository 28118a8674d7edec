use port_exporter::config::{Config, Target};
use port_exporter::registry::TargetRegistry;

fn target(name: &str, port: u64) -> Target {
    Target { name: name.to_string(), port }
}

fn text(body: Vec<u8>) -> String {
    String::from_utf8(body).unwrap()
}

const HEADER: &str = "# HELP proccess_up check if port is up\n# TYPE proccess_up gauge\n";

#[test]
fn initialize_binds_every_target_to_a_gauge_at_zero() {
    let config = Config { ports: vec![target("web", 80), target("db", 5432), target("cache", 6379)] };
    let registry = TargetRegistry::initialize(&config).ok().unwrap();
    assert_eq!(registry.len(), 3);
    let entries = registry.entries();
    assert_eq!(entries.len(), 3);
    for (entry, wanted) in entries.iter().zip(config.ports.iter()) {
        assert_eq!(entry.target().name, wanted.name);
        assert_eq!(entry.target().port, wanted.port);
        assert!(!entry.is_up());
    }
}

#[test]
fn initialize_accepts_an_empty_config() {
    let registry = TargetRegistry::initialize(&Config { ports: vec![] }).ok().unwrap();
    assert_eq!(registry.len(), 0);
    assert_eq!(text(registry.render().ok().unwrap()), "");
}

#[test]
fn initialize_refuses_a_repeated_target() {
    let config = Config { ports: vec![target("web", 80), target("db", 5432), target("web", 80)] };
    let conflict = TargetRegistry::initialize(&config).err().unwrap();
    assert_eq!(conflict.index, 2);
}

#[test]
fn initialize_accepts_same_name_on_another_port() {
    let config = Config { ports: vec![target("web", 80), target("web", 8080), target("api", 80)] };
    let registry = TargetRegistry::initialize(&config).ok().unwrap();
    assert_eq!(registry.len(), 3);
}

#[test]
fn render_lists_targets_in_configuration_order() {
    let config = Config { ports: vec![target("zulu", 9090), target("alpha", 8080), target("mike", 1)] };
    let mut registry = TargetRegistry::initialize(&config).ok().unwrap();
    registry.set_status(1, true);
    let wanted = format!(
        "{}{}{}{}",
        HEADER,
        "proccess_up{name=\"zulu\",port=\"9090\"} 0\n",
        "proccess_up{name=\"alpha\",port=\"8080\"} 1\n",
        "proccess_up{name=\"mike\",port=\"1\"} 0\n",
    );
    assert_eq!(text(registry.render().ok().unwrap()), wanted);
}

#[test]
fn render_matches_the_documented_example() {
    let config = Config { ports: vec![target("my-service", 8080), target("another-service", 9090)] };
    let mut registry = TargetRegistry::initialize(&config).ok().unwrap();
    registry.set_status(0, true);
    registry.set_status(1, false);
    let wanted = format!(
        "{}{}{}",
        HEADER,
        "proccess_up{name=\"my-service\",port=\"8080\"} 1\n",
        "proccess_up{name=\"another-service\",port=\"9090\"} 0\n",
    );
    assert_eq!(text(registry.render().ok().unwrap()), wanted);
}

#[test]
fn render_escapes_label_values() {
    let config = Config { ports: vec![target("a\"b\\c\nd", 7), target("caf\u{e9} \u{1F600}", 0)] };
    let registry = TargetRegistry::initialize(&config).ok().unwrap();
    let wanted = format!(
        "{}{}{}",
        HEADER,
        "proccess_up{name=\"a\\\"b\\\\c\\nd\",port=\"7\"} 0\n",
        "proccess_up{name=\"caf\u{e9} \u{1F600}\",port=\"0\"} 0\n",
    );
    assert_eq!(text(registry.render().ok().unwrap()), wanted);
}

#[test]
fn render_twice_gives_the_same_bytes() {
    let config = Config { ports: vec![target("web", 80), target("db", 5432)] };
    let mut registry = TargetRegistry::initialize(&config).ok().unwrap();
    registry.set_status(1, true);
    let first = registry.render().ok().unwrap();
    let second = registry.render().ok().unwrap();
    assert_eq!(first, second);
}

#[test]
fn set_status_changes_one_entry_only() {
    let config = Config { ports: vec![target("web", 80), target("db", 5432), target("cache", 6379)] };
    let mut registry = TargetRegistry::initialize(&config).ok().unwrap();
    registry.set_status(1, true);
    assert!(!registry.entries()[0].is_up());
    assert!(registry.entries()[1].is_up());
    assert!(!registry.entries()[2].is_up());
    registry.set_status(1, true);
    assert!(registry.entries()[1].is_up());
    registry.set_status(1, false);
    assert!(!registry.entries()[1].is_up());
    assert_eq!(registry.entries()[1].target().name, "db");
    assert_eq!(registry.entries()[1].target().port, 5432);
}

#[test]
fn render_writes_the_port_without_leading_zeros() {
    let config = Config { ports: vec![target("big", 18446744073709551615), target("small", 7)] };
    let registry = TargetRegistry::initialize(&config).ok().unwrap();
    let body = text(registry.render().ok().unwrap());
    assert!(body.contains("proccess_up{name=\"big\",port=\"18446744073709551615\"} 0\n"));
    assert!(body.contains("proccess_up{name=\"small\",port=\"7\"} 0\n"));
}

#[test]
fn entry_labels_are_name_and_port() {
    let config = Config { ports: vec![target("web", 80)] };
    let registry = TargetRegistry::initialize(&config).ok().unwrap();
    let labels = registry.entries()[0].labels();
    assert_eq!(
        labels,
        vec![("name".to_string(), "web".to_string()), ("port".to_string(), "80".to_string())]
    );
}

#[test]
fn initialize_accepts_many_distinct_targets_and_renders_them_all() {
    let ports: Vec<Target> = (0..200u64).map(|i| target(&format!("svc{}", i % 20), 1000 + i)).collect();
    let registry = TargetRegistry::initialize(&Config { ports }).ok().unwrap();
    assert_eq!(registry.len(), 200);
    let body = text(registry.render().ok().unwrap());
    let lines: Vec<&str> = body.lines().collect();
    assert_eq!(lines.len(), 202);
    for i in 0..200u64 {
        let wanted = format!("proccess_up{{name=\"svc{}\",port=\"{}\"}} 0", i % 20, 1000 + i);
        assert_eq!(lines[(i + 2) as usize], wanted);
    }
}

#[test]
fn initialize_accepts_a_single_target() {
    let registry = TargetRegistry::initialize(&Config { ports: vec![target("only", 1)] }).ok().unwrap();
    assert_eq!(registry.len(), 1);
    assert!(registry.render().is_ok());
}
